//! Small shared helpers: the tool's own package name, parsing of rust-version
//! strings, and the clock.

use vstd::prelude::*;
use vstd::string::StrSliceExecFns;

verus! {

/// The name this package goes by in a dependency snapshot.
pub const CRATE_NAME: &'static str = "cargo_compat";

/// The first index at or after `i` holding a dot; the length when none does.
pub open spec fn first_dot_from(s: Seq<char>, i: int) -> int
    decreases s.len() - i,
{
    if i < 0 || i >= s.len() {
        s.len() as int
    } else if s[i] == '.' {
        i
    } else {
        first_dot_from(s, i + 1)
    }
}

/// `c` is an ASCII decimal digit.
pub open spec fn is_digit(c: char) -> bool {
    48 <= c as u32 <= 57
}

/// The value of a digit character.
pub open spec fn digit_val(c: char) -> int {
    c as u32 - 48
}

/// All characters of `s` in `[i, j)` are digits.
pub open spec fn all_digits(s: Seq<char>, i: int, j: int) -> bool {
    forall|k: int| i <= k < j ==> is_digit(#[trigger] s[k])
}

/// The decimal value of the characters of `s` in `[i, j)`.
pub open spec fn dec_val(s: Seq<char>, i: int, j: int) -> int
    decreases j - i,
{
    if j <= i {
        0
    } else {
        dec_val(s, i, j - 1) * 10 + digit_val(s[j - 1])
    }
}

/// The number one version place of `s` in `[i, j)` denotes: an optional
/// leading plus sign, then at least one digit, with a value that fits the
/// machine word.
pub open spec fn parse_place(s: Seq<char>, i: int, j: int) -> Option<u64> {
    if i >= j {
        None
    } else {
        let k = if s[i] == '+' {
            i + 1
        } else {
            i
        };
        if k < j && all_digits(s, k, j) && dec_val(s, k, j) <= u64::MAX {
            Some(dec_val(s, k, j) as u64)
        } else {
            None
        }
    }
}

/// The rust-version triple a string denotes, if any: up to three
/// dot-separated decimal places, the second and third defaulting to zero
/// when absent; anything after a third place is ignored.
pub open spec fn rust_version_of(s: Seq<char>) -> Option<(u64, u64, u64)> {
    let n = s.len() as int;
    let d0 = first_dot_from(s, 0);
    match parse_place(s, 0, d0) {
        None => None,
        Some(v0) => if d0 == n {
            Some((v0, 0, 0))
        } else {
            let d1 = first_dot_from(s, d0 + 1);
            match parse_place(s, d0 + 1, d1) {
                None => None,
                Some(v1) => if d1 == n {
                    Some((v0, v1, 0))
                } else {
                    let d2 = first_dot_from(s, d1 + 1);
                    match parse_place(s, d1 + 1, d2) {
                        None => None,
                        Some(v2) => Some((v0, v1, v2)),
                    }
                },
            }
        },
    }
}

/// Extending a non-negative decimal value with further digits never shrinks
/// it.
pub proof fn lemma_dec_val_extend(s: Seq<char>, i: int, m: int, j: int)
    requires
        i <= m <= j,
        dec_val(s, i, m) >= 0,
        all_digits(s, m, j),
    ensures
        dec_val(s, i, j) >= dec_val(s, i, m),
    decreases j - m,
{
    if m < j {
        lemma_dec_val_extend(s, i, m, j - 1);
        assert(is_digit(s[j - 1]));
    }
}

fn scan_dot(s: &str, from: usize) -> (r: usize)
    requires
        from <= s@.len(),
    ensures
        from <= r <= s@.len(),
        r == first_dot_from(s@, from as int),
{
    let n = s.unicode_len();
    let mut i = from;
    while i < n
        invariant
            from <= i <= n,
            n == s@.len(),
            first_dot_from(s@, from as int) == first_dot_from(s@, i as int),
        decreases n - i,
    {
        if s.get_char(i) == '.' {
            return i;
        }
        i = i + 1;
    }
    i
}

fn parse_place_exec(s: &str, i: usize, j: usize) -> (r: Option<u64>)
    requires
        i <= j <= s@.len(),
    ensures
        r == parse_place(s@, i as int, j as int),
{
    if i >= j {
        return None;
    }
    let first = s.get_char(i);
    let k0 = if first == '+' {
        i + 1
    } else {
        i
    };
    if k0 >= j {
        return None;
    }
    let mut acc: u64 = 0;
    let mut t = k0;
    while t < j
        invariant
            i < j <= s@.len(),
            k0 <= t <= j,
            k0 < j,
            k0 as int == (if s@[i as int] == '+' {
                i as int + 1
            } else {
                i as int
            }),
            all_digits(s@, k0 as int, t as int),
            acc == dec_val(s@, k0 as int, t as int),
        decreases j - t,
    {
        let c = s.get_char(t);
        let cu = c as u32;
        if cu < 48 || 57 < cu {
            proof {
                assert(!is_digit(s@[t as int]));
            }
            return None;
        }
        let d = (cu - 48) as u64;
        let widened = match acc.checked_mul(10) {
            Some(w) => w,
            None => {
                proof {
                    overflow_means_no_place(s@, k0 as int, t as int, j as int, acc as int, d as int);
                }
                return None;
            },
        };
        let next = match widened.checked_add(d) {
            Some(v) => v,
            None => {
                proof {
                    overflow_means_no_place(s@, k0 as int, t as int, j as int, acc as int, d as int);
                }
                return None;
            },
        };
        acc = next;
        t = t + 1;
    }
    Some(acc)
}

proof fn overflow_means_no_place(s: Seq<char>, k0: int, t: int, j: int, acc: int, d: int)
    requires
        0 <= k0 <= t < j <= s.len(),
        all_digits(s, k0, t),
        acc == dec_val(s, k0, t),
        acc >= 0,
        is_digit(s[t]),
        d == digit_val(s[t]),
        acc * 10 + d > u64::MAX,
    ensures
        !(all_digits(s, k0, j) && dec_val(s, k0, j) <= u64::MAX),
{
    if all_digits(s, k0, j) {
        assert(dec_val(s, k0, t + 1) == acc * 10 + d);
        lemma_dec_val_extend(s, k0, t + 1, j);
    }
}

/// Parses a rust-version string into its numeric triple: up to three
/// dot-separated decimal places, absent places defaulting to zero; a place
/// that is not a number yields nothing.
pub fn get_rust_version(version: &str) -> (r: Option<(u64, u64, u64)>)
    ensures
        r == rust_version_of(version@),
{
    let n = version.unicode_len();
    let d0 = scan_dot(version, 0);
    let v0 = match parse_place_exec(version, 0, d0) {
        Some(v) => v,
        None => {
            return None;
        },
    };
    if d0 == n {
        return Some((v0, 0, 0));
    }
    let d1 = scan_dot(version, d0 + 1);
    let v1 = match parse_place_exec(version, d0 + 1, d1) {
        Some(v) => v,
        None => {
            return None;
        },
    };
    if d1 == n {
        return Some((v0, v1, 0));
    }
    let d2 = scan_dot(version, d1 + 1);
    let v2 = match parse_place_exec(version, d1 + 1, d2) {
        Some(v) => v,
        None => {
            return None;
        },
    };
    Some((v0, v1, v2))
}

/// Relies on std::time::SystemTime::now and duration_since: the seconds since
/// the Unix epoch, or zero when the clock reads earlier than the epoch. The
/// result depends on the clock, so nothing is promised of it.
#[verifier::external_body]
fn system_time_secs() -> u64 {
    std::time::SystemTime::now()
        .duration_since(std::time::UNIX_EPOCH)
        .unwrap_or(std::time::Duration::from_secs(0))
        .as_secs()
}

/// The clock, read as whole seconds since the Unix epoch. The value depends
/// on the machine's clock, so callers can rely on nothing about it.
pub fn now_as_secs() -> u64 {
    system_time_secs()
}

} // verus!
