//! Version numbers and their precedence order.
//!
//! A version is a major/minor/patch triple plus a possibly empty sequence of
//! prerelease identifiers. Precedence compares the numeric triple first; a
//! version with prerelease identifiers precedes the same triple without any;
//! prerelease sequences compare identifier by identifier, numeric identifiers
//! before alphanumeric ones, and a shorter sequence before any extension of
//! it. Build metadata takes no part in precedence and is not represented here.

use vstd::prelude::*;

verus! {

/// One prerelease identifier: either numeric (compared by value) or
/// alphanumeric (compared lexically by ASCII byte).
#[derive(Debug)]
pub enum PreIdent {
    Num(u64),
    Alpha(Vec<u8>),
}

/// A version number: numeric triple plus prerelease identifiers.
#[derive(Debug)]
pub struct Version {
    pub major: u64,
    pub minor: u64,
    pub patch: u64,
    pub pre: Vec<PreIdent>,
}

/// Mathematical model of a prerelease identifier.
#[verifier::ext_equal]
pub enum PreIdentModel {
    Num(int),
    Alpha(Seq<u8>),
}

/// Mathematical model of a version number.
#[verifier::ext_equal]
pub struct VersionModel {
    pub major: int,
    pub minor: int,
    pub patch: int,
    pub pre: Seq<PreIdentModel>,
}

impl View for PreIdent {
    type V = PreIdentModel;

    open spec fn view(&self) -> PreIdentModel {
        match self {
            PreIdent::Num(n) => PreIdentModel::Num(*n as int),
            PreIdent::Alpha(v) => PreIdentModel::Alpha(v@),
        }
    }
}

impl View for Version {
    type V = VersionModel;

    open spec fn view(&self) -> VersionModel {
        VersionModel {
            major: self.major as int,
            minor: self.minor as int,
            patch: self.patch as int,
            pre: self.pre@.map_values(|p: PreIdent| p@),
        }
    }
}

/// Strict lexicographic order on byte sequences.
pub open spec fn lex_lt(a: Seq<u8>, b: Seq<u8>) -> bool
    decreases a.len(),
{
    if b.len() == 0 {
        false
    } else if a.len() == 0 {
        true
    } else if a[0] < b[0] {
        true
    } else if b[0] < a[0] {
        false
    } else {
        lex_lt(a.subrange(1, a.len() as int), b.subrange(1, b.len() as int))
    }
}

/// Strict order on single prerelease identifiers: numeric identifiers compare
/// by value and come before alphanumeric ones, which compare lexically.
pub open spec fn pre_ident_lt(a: PreIdentModel, b: PreIdentModel) -> bool {
    match (a, b) {
        (PreIdentModel::Num(x), PreIdentModel::Num(y)) => x < y,
        (PreIdentModel::Num(_), PreIdentModel::Alpha(_)) => true,
        (PreIdentModel::Alpha(_), PreIdentModel::Num(_)) => false,
        (PreIdentModel::Alpha(x), PreIdentModel::Alpha(y)) => lex_lt(x, y),
    }
}

/// Strict order on prerelease identifier sequences: identifier by identifier,
/// with a shorter sequence preceding any proper extension of it.
pub open spec fn pre_lt(a: Seq<PreIdentModel>, b: Seq<PreIdentModel>) -> bool
    decreases a.len(),
{
    if b.len() == 0 {
        false
    } else if a.len() == 0 {
        true
    } else if pre_ident_lt(a[0], b[0]) {
        true
    } else if pre_ident_lt(b[0], a[0]) {
        false
    } else {
        pre_lt(a.subrange(1, a.len() as int), b.subrange(1, b.len() as int))
    }
}

/// Strict precedence order on versions. `precedes(a, b)` holds when `a` is of
/// strictly lower precedence than `b`.
pub open spec fn precedes(a: VersionModel, b: VersionModel) -> bool {
    if a.major != b.major {
        a.major < b.major
    } else if a.minor != b.minor {
        a.minor < b.minor
    } else if a.patch != b.patch {
        a.patch < b.patch
    } else if a.pre.len() > 0 && b.pre.len() == 0 {
        true
    } else if a.pre.len() == 0 && b.pre.len() > 0 {
        false
    } else {
        pre_lt(a.pre, b.pre)
    }
}

pub proof fn lemma_lex_asym(a: Seq<u8>, b: Seq<u8>)
    ensures
        !(lex_lt(a, b) && lex_lt(b, a)),
    decreases a.len(),
{
    if a.len() > 0 && b.len() > 0 && a[0] == b[0] {
        lemma_lex_asym(a.subrange(1, a.len() as int), b.subrange(1, b.len() as int));
    }
}

pub proof fn lemma_lex_connected(a: Seq<u8>, b: Seq<u8>)
    ensures
        lex_lt(a, b) || lex_lt(b, a) || a == b,
    decreases a.len(),
{
    if a.len() == 0 && b.len() == 0 {
        assert(a =~= b);
    } else if a.len() > 0 && b.len() > 0 && a[0] == b[0] {
        let ta = a.subrange(1, a.len() as int);
        let tb = b.subrange(1, b.len() as int);
        lemma_lex_connected(ta, tb);
        if !lex_lt(a, b) && !lex_lt(b, a) {
            assert(ta == tb);
            assert(a =~= b) by {
                assert(a.len() == b.len());
                assert forall|i: int| 0 <= i < a.len() implies a[i] == b[i] by {
                    if i > 0 {
                        assert(a[i] == ta[i - 1]);
                        assert(b[i] == tb[i - 1]);
                    }
                }
            }
        }
    }
}

pub proof fn lemma_lex_trans(a: Seq<u8>, b: Seq<u8>, c: Seq<u8>)
    requires
        lex_lt(a, b),
        lex_lt(b, c),
    ensures
        lex_lt(a, c),
    decreases a.len(),
{
    if a.len() > 0 && b.len() > 0 && c.len() > 0 && a[0] == b[0] && b[0] == c[0] {
        lemma_lex_trans(
            a.subrange(1, a.len() as int),
            b.subrange(1, b.len() as int),
            c.subrange(1, c.len() as int),
        );
    }
}

pub proof fn lemma_pre_ident_asym(a: PreIdentModel, b: PreIdentModel)
    ensures
        !(pre_ident_lt(a, b) && pre_ident_lt(b, a)),
{
    if let (PreIdentModel::Alpha(x), PreIdentModel::Alpha(y)) = (a, b) {
        lemma_lex_asym(x, y);
    }
}

pub proof fn lemma_pre_ident_connected(a: PreIdentModel, b: PreIdentModel)
    ensures
        pre_ident_lt(a, b) || pre_ident_lt(b, a) || a == b,
{
    if let (PreIdentModel::Alpha(x), PreIdentModel::Alpha(y)) = (a, b) {
        lemma_lex_connected(x, y);
    }
}

pub proof fn lemma_pre_ident_trans(a: PreIdentModel, b: PreIdentModel, c: PreIdentModel)
    requires
        pre_ident_lt(a, b),
        pre_ident_lt(b, c),
    ensures
        pre_ident_lt(a, c),
{
    if let (PreIdentModel::Alpha(x), PreIdentModel::Alpha(y)) = (a, b) {
        if let PreIdentModel::Alpha(z) = c {
            lemma_lex_trans(x, y, z);
        }
    }
}

pub proof fn lemma_pre_asym(a: Seq<PreIdentModel>, b: Seq<PreIdentModel>)
    ensures
        !(pre_lt(a, b) && pre_lt(b, a)),
    decreases a.len(),
{
    if a.len() > 0 && b.len() > 0 {
        lemma_pre_ident_asym(a[0], b[0]);
        if !pre_ident_lt(a[0], b[0]) && !pre_ident_lt(b[0], a[0]) {
            lemma_pre_asym(a.subrange(1, a.len() as int), b.subrange(1, b.len() as int));
        }
    }
}

pub proof fn lemma_pre_connected(a: Seq<PreIdentModel>, b: Seq<PreIdentModel>)
    ensures
        pre_lt(a, b) || pre_lt(b, a) || a == b,
    decreases a.len(),
{
    if a.len() == 0 && b.len() == 0 {
        assert(a =~= b);
    } else if a.len() > 0 && b.len() > 0 {
        lemma_pre_ident_connected(a[0], b[0]);
        if !pre_ident_lt(a[0], b[0]) && !pre_ident_lt(b[0], a[0]) {
            let ta = a.subrange(1, a.len() as int);
            let tb = b.subrange(1, b.len() as int);
            lemma_pre_connected(ta, tb);
            if !pre_lt(a, b) && !pre_lt(b, a) {
                assert(ta == tb);
                assert(a =~= b) by {
                    assert(a.len() == b.len());
                    assert forall|i: int| 0 <= i < a.len() implies a[i] == b[i] by {
                        if i > 0 {
                            assert(a[i] == ta[i - 1]);
                            assert(b[i] == tb[i - 1]);
                        }
                    }
                }
            }
        }
    }
}

pub proof fn lemma_pre_trans(a: Seq<PreIdentModel>, b: Seq<PreIdentModel>, c: Seq<PreIdentModel>)
    requires
        pre_lt(a, b),
        pre_lt(b, c),
    ensures
        pre_lt(a, c),
    decreases a.len(),
{
    if a.len() > 0 && b.len() > 0 && c.len() > 0 {
        lemma_pre_ident_asym(a[0], b[0]);
        lemma_pre_ident_asym(b[0], c[0]);
        lemma_pre_ident_connected(a[0], b[0]);
        lemma_pre_ident_connected(b[0], c[0]);
        if pre_ident_lt(a[0], b[0]) && b[0] == c[0] {
        } else if a[0] == b[0] && pre_ident_lt(b[0], c[0]) {
        } else if pre_ident_lt(a[0], b[0]) && pre_ident_lt(b[0], c[0]) {
            lemma_pre_ident_trans(a[0], b[0], c[0]);
        } else {
            assert(a[0] == b[0] && b[0] == c[0]);
            lemma_pre_trans(
                a.subrange(1, a.len() as int),
                b.subrange(1, b.len() as int),
                c.subrange(1, c.len() as int),
            );
        }
    }
}

/// Precedence is irreflexive and asymmetric.
pub proof fn lemma_precedes_asym(a: VersionModel, b: VersionModel)
    ensures
        !(precedes(a, b) && precedes(b, a)),
{
    lemma_pre_asym(a.pre, b.pre);
}

/// Precedence is connected: two versions that neither precede one another are
/// equal.
pub proof fn lemma_precedes_connected(a: VersionModel, b: VersionModel)
    ensures
        precedes(a, b) || precedes(b, a) || a == b,
{
    if !precedes(a, b) && !precedes(b, a) {
        lemma_pre_connected(a.pre, b.pre);
        assert(a =~= b);
    }
}

/// Precedence is transitive.
pub proof fn lemma_precedes_trans(a: VersionModel, b: VersionModel, c: VersionModel)
    requires
        precedes(a, b),
        precedes(b, c),
    ensures
        precedes(a, c),
{
    if a.major == b.major && b.major == c.major && a.minor == b.minor && b.minor == c.minor
        && a.patch == b.patch && b.patch == c.patch {
        if a.pre.len() > 0 && b.pre.len() > 0 && c.pre.len() > 0 {
            lemma_pre_trans(a.pre, b.pre, c.pre);
        }
    }
}

/// Three-way result of a precedence comparison.
#[derive(PartialEq, Eq, Structural, Clone, Copy, Debug)]
pub enum VersionCmp {
    Less,
    Equal,
    Greater,
}

fn cmp_bytes_from(a: &Vec<u8>, b: &Vec<u8>, i: usize) -> (r: VersionCmp)
    requires
        i <= a@.len(),
        i <= b@.len(),
    ensures
        (r == VersionCmp::Less) == lex_lt(
            a@.subrange(i as int, a@.len() as int),
            b@.subrange(i as int, b@.len() as int),
        ),
        (r == VersionCmp::Greater) == lex_lt(
            b@.subrange(i as int, b@.len() as int),
            a@.subrange(i as int, a@.len() as int),
        ),
        (r == VersionCmp::Equal) == (a@.subrange(i as int, a@.len() as int) == b@.subrange(
            i as int,
            b@.len() as int,
        )),
    decreases a@.len() - i,
{
    let ghost sa = a@.subrange(i as int, a@.len() as int);
    let ghost sb = b@.subrange(i as int, b@.len() as int);
    proof {
        lemma_lex_asym(sa, sb);
        lemma_lex_connected(sa, sb);
    }
    if i == b.len() {
        if i == a.len() {
            proof {
                assert(sa =~= sb);
            }
            VersionCmp::Equal
        } else {
            proof {
                assert(sa.len() > 0);
            }
            VersionCmp::Greater
        }
    } else if i == a.len() {
        VersionCmp::Less
    } else if a[i] < b[i] {
        VersionCmp::Less
    } else if b[i] < a[i] {
        VersionCmp::Greater
    } else {
        let r = cmp_bytes_from(a, b, i + 1);
        proof {
            assert(sa[0] == a@[i as int]);
            assert(sb[0] == b@[i as int]);
            assert(a@.subrange(i + 1, a@.len() as int) =~= sa.subrange(1, sa.len() as int));
            assert(b@.subrange(i + 1, b@.len() as int) =~= sb.subrange(1, sb.len() as int));
            if r == VersionCmp::Equal {
                assert(sa =~= sb);
            }
        }
        r
    }
}

fn cmp_pre_ident(a: &PreIdent, b: &PreIdent) -> (r: VersionCmp)
    ensures
        (r == VersionCmp::Less) == pre_ident_lt(a@, b@),
        (r == VersionCmp::Greater) == pre_ident_lt(b@, a@),
        (r == VersionCmp::Equal) == (a@ == b@),
{
    match (a, b) {
        (PreIdent::Num(x), PreIdent::Num(y)) => {
            if x < y {
                VersionCmp::Less
            } else if y < x {
                VersionCmp::Greater
            } else {
                VersionCmp::Equal
            }
        },
        (PreIdent::Num(_), PreIdent::Alpha(_)) => VersionCmp::Less,
        (PreIdent::Alpha(_), PreIdent::Num(_)) => VersionCmp::Greater,
        (PreIdent::Alpha(x), PreIdent::Alpha(y)) => {
            let r = cmp_bytes_from(x, y, 0);
            proof {
                assert(x@.subrange(0, x@.len() as int) =~= x@);
                assert(y@.subrange(0, y@.len() as int) =~= y@);
            }
            r
        },
    }
}

fn cmp_pre_from(a: &Vec<PreIdent>, b: &Vec<PreIdent>, i: usize) -> (r: VersionCmp)
    requires
        i <= a@.len(),
        i <= b@.len(),
    ensures
        (r == VersionCmp::Less) == pre_lt(
            a@.map_values(|p: PreIdent| p@).subrange(i as int, a@.len() as int),
            b@.map_values(|p: PreIdent| p@).subrange(i as int, b@.len() as int),
        ),
        (r == VersionCmp::Greater) == pre_lt(
            b@.map_values(|p: PreIdent| p@).subrange(i as int, b@.len() as int),
            a@.map_values(|p: PreIdent| p@).subrange(i as int, a@.len() as int),
        ),
        (r == VersionCmp::Equal) == (a@.map_values(|p: PreIdent| p@).subrange(
            i as int,
            a@.len() as int,
        ) == b@.map_values(|p: PreIdent| p@).subrange(i as int, b@.len() as int)),
    decreases a@.len() - i,
{
    let ghost ma = a@.map_values(|p: PreIdent| p@);
    let ghost mb = b@.map_values(|p: PreIdent| p@);
    let ghost sa = ma.subrange(i as int, a@.len() as int);
    let ghost sb = mb.subrange(i as int, b@.len() as int);
    proof {
        lemma_pre_asym(sa, sb);
        lemma_pre_connected(sa, sb);
    }
    if i == b.len() {
        if i == a.len() {
            proof {
                assert(sa =~= sb);
            }
            VersionCmp::Equal
        } else {
            proof {
                assert(sa.len() > 0);
            }
            VersionCmp::Greater
        }
    } else if i == a.len() {
        VersionCmp::Less
    } else {
        let c = cmp_pre_ident(&a[i], &b[i]);
        proof {
            assert(sa[0] == ma[i as int]);
            assert(sb[0] == mb[i as int]);
            assert(ma[i as int] == a@[i as int]@);
            assert(mb[i as int] == b@[i as int]@);
        }
        match c {
            VersionCmp::Less => VersionCmp::Less,
            VersionCmp::Greater => VersionCmp::Greater,
            VersionCmp::Equal => {
                let r = cmp_pre_from(a, b, i + 1);
                proof {
                    assert(ma.subrange(i + 1, a@.len() as int) =~= sa.subrange(
                        1,
                        sa.len() as int,
                    ));
                    assert(mb.subrange(i + 1, b@.len() as int) =~= sb.subrange(
                        1,
                        sb.len() as int,
                    ));
                    if r == VersionCmp::Equal {
                        assert(sa =~= sb);
                    }
                }
                r
            },
        }
    }
}

impl Version {
    /// Compares two versions by precedence: numeric triple first, then the
    /// prerelease rule (a prerelease precedes its release counterpart).
    pub fn cmp_precedence(&self, other: &Version) -> (r: VersionCmp)
        ensures
            (r == VersionCmp::Less) == precedes(self@, other@),
            (r == VersionCmp::Greater) == precedes(other@, self@),
            (r == VersionCmp::Equal) == (self@ == other@),
    {
        proof {
            lemma_precedes_asym(self@, other@);
            lemma_precedes_connected(self@, other@);
        }
        if self.major < other.major {
            VersionCmp::Less
        } else if other.major < self.major {
            VersionCmp::Greater
        } else if self.minor < other.minor {
            VersionCmp::Less
        } else if other.minor < self.minor {
            VersionCmp::Greater
        } else if self.patch < other.patch {
            VersionCmp::Less
        } else if other.patch < self.patch {
            VersionCmp::Greater
        } else if self.pre.len() > 0 && other.pre.len() == 0 {
            VersionCmp::Less
        } else if self.pre.len() == 0 && other.pre.len() > 0 {
            VersionCmp::Greater
        } else {
            let r = cmp_pre_from(&self.pre, &other.pre, 0);
            proof {
                let ma = self.pre@.map_values(|p: PreIdent| p@);
                let mb = other.pre@.map_values(|p: PreIdent| p@);
                assert(ma.subrange(0, self.pre@.len() as int) =~= ma);
                assert(mb.subrange(0, other.pre@.len() as int) =~= mb);
                if r == VersionCmp::Equal {
                    assert(self@ =~= other@);
                }
            }
            r
        }
    }
}

impl Clone for PreIdent {
    fn clone(&self) -> (res: Self)
        ensures
            res@ == self@,
    {
        match self {
            PreIdent::Num(n) => PreIdent::Num(*n),
            PreIdent::Alpha(v) => {
                let w = v.clone();
                proof {
                    assert(w@ =~= v@);
                }
                PreIdent::Alpha(w)
            },
        }
    }
}

impl Clone for Version {
    fn clone(&self) -> (res: Self)
        ensures
            res@ == self@,
    {
        let pre = self.pre.clone();
        proof {
            assert(pre@.map_values(|p: PreIdent| p@) =~= self.pre@.map_values(
                |p: PreIdent| p@,
            )) by {
                assert forall|i: int| 0 <= i < pre@.len() implies pre@[i]@ == self.pre@[i]@ by {
                    assert(cloned(self.pre@[i], pre@[i]));
                }
            }
            assert(self@ =~= Version { pre, ..*self }@);
        }
        Version { major: self.major, minor: self.minor, patch: self.patch, pre }
    }
}

} // verus!
