//! The compatibility query and the presentation selection.
//!
//! `Compat` carries one query: which versions of a dependency are compatible
//! with the snapshot's dependents. After the engine locates the satisfiable
//! index range, `select_versions` picks what to present: latest first, yanked
//! releases filtered out unless asked for, releases beyond a requested
//! maximum rust version dropped, and the list capped at the requested count.

use vstd::prelude::*;
use vstd::string::StrSliceExecFns;

use crate::error::ConstError;
use crate::provider::{ParsedVersion, ParsedVersionModel};
use crate::utils::{all_digits, dec_val, digit_val, get_rust_version, is_digit, rust_version_of};

verus! {

/// How many versions to present: all of them, or a number.
#[derive(Debug)]
pub enum Count {
    All,
    Count(usize),
}

/// The number a count argument denotes, if any: an optional leading plus
/// sign, then at least one digit, with a value that fits the machine word.
pub open spec fn parse_count(s: Seq<char>) -> Option<usize> {
    if s.len() == 0 {
        None
    } else {
        let k: int = if s[0] == '+' {
            1
        } else {
            0
        };
        if k < s.len() && all_digits(s, k, s.len() as int) && dec_val(s, k, s.len() as int)
            <= usize::MAX {
            Some(dec_val(s, k, s.len() as int) as usize)
        } else {
            None
        }
    }
}

impl Count {
    /// Parses a count argument: the word "all", or a number of versions.
    pub fn from_str(value: &str) -> (r: Result<Count, ConstError>)
        ensures
            value@ == "all"@ ==> (r matches Ok(c) && c is All),
            value@ != "all"@ ==> match parse_count(value@) {
                Some(n) => r matches Ok(c) && c matches Count::Count(m) && m == n,
                None => r matches Err(e) && e matches ConstError::InvalidCountArgument {
                    argument,
                } && argument@ == value@,
            },
    {
        proof {
            reveal_strlit("all");
        }
        let n = value.unicode_len();
        if n == 3 && value.get_char(0) == 'a' && value.get_char(1) == 'l' && value.get_char(2)
            == 'l' {
            proof {
                assert(value@ =~= "all"@);
            }
            return Ok(Count::All);
        }
        proof {
            assert(value@ != "all"@);
        }
        if n == 0 {
            return Err(ConstError::InvalidCountArgument { argument: value.to_owned() });
        }
        let first = value.get_char(0);
        let k0: usize = if first == '+' {
            1
        } else {
            0
        };
        if k0 >= n {
            return Err(ConstError::InvalidCountArgument { argument: value.to_owned() });
        }
        let mut acc: usize = 0;
        let mut t = k0;
        while t < n
            invariant
                value@ != "all"@,
                k0 <= t <= n,
                n == value@.len(),
                0 < n,
                k0 < n,
                k0 as int == (if value@[0] == '+' {
                    1int
                } else {
                    0int
                }),
                all_digits(value@, k0 as int, t as int),
                acc == dec_val(value@, k0 as int, t as int),
            decreases n - t,
        {
            let c = value.get_char(t);
            let cu = c as u32;
            if cu < 48 || 57 < cu {
                proof {
                    assert(!is_digit(value@[t as int]));
                }
                return Err(ConstError::InvalidCountArgument { argument: value.to_owned() });
            }
            let d = (cu - 48) as usize;
            let widened = match acc.checked_mul(10) {
                Some(w) => w,
                None => {
                    proof {
                        count_overflow(value@, k0 as int, t as int, acc as int, d as int);
                    }
                    return Err(ConstError::InvalidCountArgument { argument: value.to_owned() });
                },
            };
            let next = match widened.checked_add(d) {
                Some(v) => v,
                None => {
                    proof {
                        count_overflow(value@, k0 as int, t as int, acc as int, d as int);
                    }
                    return Err(ConstError::InvalidCountArgument { argument: value.to_owned() });
                },
            };
            acc = next;
            t = t + 1;
        }
        Ok(Count::Count(acc))
    }
}

proof fn count_overflow(s: Seq<char>, k0: int, t: int, acc: int, d: int)
    requires
        0 <= k0 <= t < s.len(),
        all_digits(s, k0, t),
        acc == dec_val(s, k0, t),
        acc >= 0,
        is_digit(s[t]),
        d == digit_val(s[t]),
        acc * 10 + d > usize::MAX,
    ensures
        !(all_digits(s, k0, s.len() as int) && dec_val(s, k0, s.len() as int) <= usize::MAX),
{
    if all_digits(s, k0, s.len() as int) {
        assert(dec_val(s, k0, t + 1) == acc * 10 + d);
        crate::utils::lemma_dec_val_extend(s, k0, t + 1, s.len() as int);
    }
}

/// One compatibility query: the dependency to examine, how to read the
/// snapshot, and how to present the result.
pub struct Compat {
    /// Whether to include yanked versions.
    pub include_yanked: bool,
    /// How many versions to list.
    pub count: Count,
    /// Where the dependency snapshot lies.
    pub path: String,
    /// The maximum rust version supported, if any.
    pub max_version: Option<String>,
    /// The dependency to find the compatible versions of.
    pub dependency: String,
}

/// The release is presentable as far as yanking goes.
pub open spec fn yank_ok(p: ParsedVersionModel, include_yanked: bool) -> bool {
    include_yanked || !p.yanked
}

/// Triple `a` is no later than triple `b`, place by place.
pub open spec fn triple_le(a: (u64, u64, u64), b: (u64, u64, u64)) -> bool {
    a.0 < b.0 || (a.0 == b.0 && (a.1 < b.1 || (a.1 == b.1 && a.2 <= b.2)))
}

/// The release supports the requested maximum rust version: it names none,
/// names one that does not parse, or names one no later than the maximum.
pub open spec fn rust_ok(p: ParsedVersionModel, max: (u64, u64, u64)) -> bool {
    match p.rust_version {
        None => true,
        Some(rv) => match rust_version_of(rv) {
            None => true,
            Some(t) => triple_le(t, max),
        },
    }
}

/// The release passes every presentation filter.
pub open spec fn version_pass(
    p: ParsedVersionModel,
    include_yanked: bool,
    max: Option<(u64, u64, u64)>,
) -> bool {
    yank_ok(p, include_yanked) && match max {
        None => true,
        Some(m) => rust_ok(p, m),
    }
}

/// The indices in `[j, hi]` whose release passes the filters, latest first.
pub open spec fn selected_indices(
    vs: Seq<ParsedVersion>,
    j: int,
    hi: int,
    include_yanked: bool,
    max: Option<(u64, u64, u64)>,
) -> Seq<int>
    decreases hi - j + 1,
{
    if hi < j {
        Seq::empty()
    } else {
        let head: Seq<int> = if version_pass(vs[hi]@, include_yanked, max) {
            seq![hi]
        } else {
            Seq::empty()
        };
        head + selected_indices(vs, j, hi - 1, include_yanked, max)
    }
}

/// The first `count` entries of a selection; all of it when it is shorter.
pub open spec fn truncated(s: Seq<int>, count: int) -> Seq<int> {
    if count >= s.len() {
        s
    } else {
        s.take(count)
    }
}

/// The number of versions a count allows.
pub open spec fn count_of(c: Count) -> int {
    match c {
        Count::All => usize::MAX as int,
        Count::Count(n) => n as int,
    }
}

/// Peeling the lowest index off a selection: the selection over `[j, hi]` is
/// the one over `[j + 1, hi]` followed by index `j` when it passes.
proof fn lemma_selected_step(
    vs: Seq<ParsedVersion>,
    j: int,
    hi: int,
    include_yanked: bool,
    max: Option<(u64, u64, u64)>,
)
    requires
        j <= hi,
    ensures
        selected_indices(vs, j, hi, include_yanked, max) == selected_indices(
            vs,
            j + 1,
            hi,
            include_yanked,
            max,
        ) + (if version_pass(vs[j]@, include_yanked, max) {
            seq![j]
        } else {
            Seq::<int>::empty()
        }),
    decreases hi - j,
{
    if j == hi {
        assert(selected_indices(vs, j, hi - 1, include_yanked, max) =~= Seq::<int>::empty());
        assert(selected_indices(vs, j + 1, hi, include_yanked, max) =~= Seq::<int>::empty());
        assert(selected_indices(vs, j, hi, include_yanked, max) =~= selected_indices(
            vs,
            j + 1,
            hi,
            include_yanked,
            max,
        ) + (if version_pass(vs[j]@, include_yanked, max) {
            seq![j]
        } else {
            Seq::<int>::empty()
        }));
    } else {
        lemma_selected_step(vs, j, hi - 1, include_yanked, max);
        assert(selected_indices(vs, j, hi, include_yanked, max) =~= selected_indices(
            vs,
            j + 1,
            hi,
            include_yanked,
            max,
        ) + (if version_pass(vs[j]@, include_yanked, max) {
            seq![j]
        } else {
            Seq::<int>::empty()
        }));
    }
}

/// Splitting a selection: the part over `[m, hi]` followed by the part over
/// `[j, m - 1]`.
proof fn lemma_selected_split(
    vs: Seq<ParsedVersion>,
    j: int,
    m: int,
    hi: int,
    include_yanked: bool,
    max: Option<(u64, u64, u64)>,
)
    requires
        j <= m <= hi + 1,
    ensures
        selected_indices(vs, j, hi, include_yanked, max) == selected_indices(
            vs,
            m,
            hi,
            include_yanked,
            max,
        ) + selected_indices(vs, j, m - 1, include_yanked, max),
    decreases m - j,
{
    if m == j {
        assert(selected_indices(vs, j, m - 1, include_yanked, max) =~= Seq::<int>::empty());
        assert(selected_indices(vs, j, hi, include_yanked, max) =~= selected_indices(
            vs,
            m,
            hi,
            include_yanked,
            max,
        ) + selected_indices(vs, j, m - 1, include_yanked, max));
    } else {
        lemma_selected_split(vs, j + 1, m, hi, include_yanked, max);
        lemma_selected_step(vs, j, hi, include_yanked, max);
        lemma_selected_step(vs, j, m - 1, include_yanked, max);
        assert(selected_indices(vs, j, hi, include_yanked, max) =~= selected_indices(
            vs,
            m,
            hi,
            include_yanked,
            max,
        ) + selected_indices(vs, j, m - 1, include_yanked, max));
    }
}

fn rust_ok_exec(p: &ParsedVersion, max: (u64, u64, u64)) -> (r: bool)
    ensures
        r == rust_ok(p@, max),
{
    match &p.rust_version {
        None => true,
        Some(rv) => {
            match get_rust_version(rv.as_str()) {
                None => true,
                Some(t) => {
                    t.0 < max.0 || (t.0 == max.0 && (t.1 < max.1 || (t.1 == max.1 && t.2
                        <= max.2)))
                },
            }
        },
    }
}

impl Compat {
    /// Selects, from the located inclusive index range, the versions to
    /// present: latest first, yanked releases dropped unless asked for,
    /// releases beyond the requested maximum rust version dropped, capped at
    /// the requested count. A range left empty by the yank filter, a maximum
    /// rust version that is no version number, and a range left empty by the
    /// rust-version filter are three distinct failures.
    pub fn select_versions(&self, versions: &Vec<ParsedVersion>, low: usize, high: usize) -> (r:
        Result<Vec<usize>, ConstError>)
        requires
            low <= high < versions@.len(),
        ensures
            ({
                let vs = versions@;
                let inc = self.include_yanked;
                if forall|i: int| low <= i <= high ==> !yank_ok(#[trigger] vs[i]@, inc) {
                    r matches Err(e) && e matches ConstError::OnlyYankedVersionExistsError {
                        crate_name,
                    } && crate_name@ == self.dependency@
                } else {
                    match self.max_version {
                        None => r matches Ok(v) && v@.map_values(|u: usize| u as int) == truncated(
                            selected_indices(vs, low as int, high as int, inc, None),
                            count_of(self.count),
                        ),
                        Some(s) => match rust_version_of(s@) {
                            None => r matches Err(e) && e
                                matches ConstError::InvalidMaxRustVersionError(a) && a@ == s@,
                            Some(m) => if forall|i: int|
                                low <= i <= high ==> !(yank_ok(#[trigger] vs[i]@, inc) && rust_ok(
                                    vs[i]@,
                                    m,
                                )) {
                                r matches Err(e) && e
                                    matches ConstError::UnsatisfiableMaxRustVersionError(a) && a@
                                    == s@
                            } else {
                                r matches Ok(v) && v@.map_values(|u: usize| u as int) == truncated(
                                    selected_indices(vs, low as int, high as int, inc, Some(m)),
                                    count_of(self.count),
                                )
                            },
                        },
                    }
                }
            }),
    {
        let nv = versions.len();
        let mut any_unyanked = false;
        let mut i = low;
        while i <= high
            invariant
                low <= i <= high + 1,
                nv == versions@.len(),
                high < nv,
                any_unyanked ==> exists|k: int|
                    low <= k <= high && yank_ok(#[trigger] versions@[k]@, self.include_yanked),
                !any_unyanked ==> forall|k: int|
                    low <= k < i ==> !yank_ok(#[trigger] versions@[k]@, self.include_yanked),
            decreases high + 1 - i,
        {
            if self.include_yanked || !versions[i].yanked {
                proof {
                    assert(yank_ok(versions@[i as int]@, self.include_yanked));
                }
                any_unyanked = true;
            }
            i = i + 1;
        }
        if !any_unyanked {
            return Err(
                ConstError::OnlyYankedVersionExistsError { crate_name: self.dependency.clone() },
            );
        }
        let max: Option<(u64, u64, u64)> = match &self.max_version {
            None => None,
            Some(s) => {
                match get_rust_version(s.as_str()) {
                    None => {
                        return Err(ConstError::InvalidMaxRustVersionError(s.clone()));
                    },
                    Some(m) => {
                        let mut any_pass = false;
                        let mut k = low;
                        while k <= high
                            invariant
                                low <= k <= high + 1,
                                nv == versions@.len(),
                                high < nv,
                                any_pass ==> exists|t: int|
                                    low <= t <= high && yank_ok(
                                        #[trigger] versions@[t]@,
                                        self.include_yanked,
                                    ) && rust_ok(versions@[t]@, m),
                                !any_pass ==> forall|t: int|
                                    low <= t < k ==> !(yank_ok(
                                        #[trigger] versions@[t]@,
                                        self.include_yanked,
                                    ) && rust_ok(versions@[t]@, m)),
                            decreases high + 1 - k,
                        {
                            if (self.include_yanked || !versions[k].yanked) && rust_ok_exec(
                                &versions[k],
                                m,
                            ) {
                                proof {
                                    assert(yank_ok(versions@[k as int]@, self.include_yanked)
                                        && rust_ok(versions@[k as int]@, m));
                                }
                                any_pass = true;
                            }
                            k = k + 1;
                        }
                        if !any_pass {
                            return Err(ConstError::UnsatisfiableMaxRustVersionError(s.clone()));
                        }
                        Some(m)
                    },
                }
            },
        };
        let count: usize = match self.count {
            Count::All => usize::MAX,
            Count::Count(c) => c,
        };
        let ghost vs = versions@;
        let ghost inc = self.include_yanked;
        let mut out: Vec<usize> = Vec::new();
        let span = high - low;
        let mut k: usize = 0;
        while k <= span && out.len() < count
            invariant
                span == high - low,
                nv == versions@.len(),
                low <= high < nv,
                vs == versions@,
                inc == self.include_yanked,
                k <= span + 1,
                out@.len() <= count,
                out@.map_values(|u: usize| u as int) == selected_indices(
                    vs,
                    high - k + 1,
                    high as int,
                    inc,
                    max,
                ),
            decreases span + 1 - k,
        {
            let idx = high - k;
            proof {
                lemma_selected_step(vs, idx as int, high as int, inc, max);
            }
            let passes = (self.include_yanked || !versions[idx].yanked) && match max {
                None => true,
                Some(m) => rust_ok_exec(&versions[idx], m),
            };
            if passes {
                out.push(idx);
                proof {
                    assert(out@.map_values(|u: usize| u as int) =~= selected_indices(
                        vs,
                        idx as int,
                        high as int,
                        inc,
                        max,
                    ));
                }
            } else {
                proof {
                    assert(out@.map_values(|u: usize| u as int) =~= selected_indices(
                        vs,
                        idx as int,
                        high as int,
                        inc,
                        max,
                    ));
                }
            }
            k = k + 1;
        }
        proof {
            let full = selected_indices(vs, low as int, high as int, inc, max);
            let got = selected_indices(vs, high - k + 1, high as int, inc, max);
            lemma_selected_split(vs, low as int, high - k + 1, high as int, inc, max);
            if out@.len() < count {
                assert(k > span);
                assert(high - k + 1 <= low as int);
                assert(selected_indices(vs, low as int, high - k, inc, max) =~= Seq::<
                    int,
                >::empty());
                assert(full =~= got);
                assert(truncated(full, count as int) == full);
            } else {
                assert(full =~= got + selected_indices(vs, low as int, high - k, inc, max));
                assert(full.take(count as int) =~= got);
                assert(truncated(full, count as int) == got);
            }
        }
        Ok(out)
    }
}

} // verus!
