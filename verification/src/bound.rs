//! Canonical version intervals and their intersection.
//!
//! A `Bound` is a lower and an upper boundary, each a version with an
//! inclusive flag. A comparator translates into exactly one bound; a
//! constraint translates by intersecting the bounds of its comparators.
//! Which of two boundaries is tighter depends on the role: as a lower
//! boundary the larger version wins, as an upper boundary the smaller one;
//! at equal versions the exclusive boundary wins in either role. The two
//! roles are kept as two distinct named operations rather than one generic
//! comparison, because at equal versions the winner depends on the role.

use vstd::prelude::*;

use crate::error::ConstError;
use crate::req::{Comparator, ComparatorModel, Constraint, ConstraintModel, Op};
use crate::version::{
    lemma_precedes_asym, lemma_precedes_connected, lemma_precedes_trans, precedes, PreIdent,
    PreIdentModel, Version, VersionCmp, VersionModel,
};

verus! {

/// One boundary of an interval: a version and whether it is included.
/// Whether it bounds from below or from above depends on its role.
#[derive(Debug)]
pub struct Range {
    pub version: Version,
    pub inclusive: bool,
}

/// Mathematical model of a boundary.
#[verifier::ext_equal]
pub struct RangeModel {
    pub version: VersionModel,
    pub inclusive: bool,
}

impl View for Range {
    type V = RangeModel;

    open spec fn view(&self) -> RangeModel {
        RangeModel { version: self.version@, inclusive: self.inclusive }
    }
}

/// A canonical version interval.
#[derive(Debug)]
pub struct Bound {
    pub upper: Range,
    pub lower: Range,
}

/// Mathematical model of an interval.
#[verifier::ext_equal]
pub struct BoundModel {
    pub upper: RangeModel,
    pub lower: RangeModel,
}

impl View for Bound {
    type V = BoundModel;

    open spec fn view(&self) -> BoundModel {
        BoundModel { upper: self.upper@, lower: self.lower@ }
    }
}

/// Outcome of a role-aware boundary comparison. A three-valued result of its
/// own rather than a generic ordering, because at equal versions the winner
/// depends on the boundary role, not on a single sign.
#[derive(PartialEq, Eq, Structural, Clone, Copy, Debug)]
pub enum Ordering {
    ContainsFromLower,
    ContainsFromUpper,
    Equal,
}

/// `b` is strictly tighter than `a` in the lower-boundary role: its version
/// is larger, or equal but exclusive against inclusive.
pub open spec fn tighter_as_lower(b: RangeModel, a: RangeModel) -> bool {
    precedes(a.version, b.version) || (a.version == b.version && a.inclusive && !b.inclusive)
}

/// `b` is strictly tighter than `a` in the upper-boundary role: its version
/// is smaller, or equal but exclusive against inclusive.
pub open spec fn tighter_as_upper(b: RangeModel, a: RangeModel) -> bool {
    precedes(b.version, a.version) || (a.version == b.version && a.inclusive && !b.inclusive)
}

/// The interval from lower boundary `l` to upper boundary `u` contains no
/// version: the upper version precedes the lower, or they are equal but not
/// both inclusive.
pub open spec fn range_empty(l: RangeModel, u: RangeModel) -> bool {
    precedes(u.version, l.version) || (l.version == u.version && !(l.inclusive && u.inclusive))
}

/// A bound is valid when its interval is non-empty.
pub open spec fn bound_valid(b: BoundModel) -> bool {
    !range_empty(b.lower, b.upper)
}

/// Version `v` satisfies the lower boundary `l`.
pub open spec fn satisfies_lower(l: RangeModel, v: VersionModel) -> bool {
    precedes(l.version, v) || (l.inclusive && v == l.version)
}

/// Version `v` satisfies the upper boundary `u`.
pub open spec fn satisfies_upper(u: RangeModel, v: VersionModel) -> bool {
    precedes(v, u.version) || (u.inclusive && v == u.version)
}

/// Version `v` lies within bound `b`.
pub open spec fn in_bound(b: BoundModel, v: VersionModel) -> bool {
    satisfies_lower(b.lower, v) && satisfies_upper(b.upper, v)
}

/// Decides which of two boundaries, both in the lower role, is tighter.
/// `ContainsFromLower` means `b` is strictly tighter, `ContainsFromUpper`
/// means `a` is.
pub fn contains_from_lower(a: &Range, b: &Range) -> (r: Ordering)
    ensures
        (r == Ordering::ContainsFromLower) == tighter_as_lower(b@, a@),
        (r == Ordering::ContainsFromUpper) == tighter_as_lower(a@, b@),
        (r == Ordering::Equal) == (a@ == b@),
{
    proof {
        lemma_precedes_asym(a.version@, b.version@);
    }
    match a.version.cmp_precedence(&b.version) {
        VersionCmp::Less => Ordering::ContainsFromLower,
        VersionCmp::Greater => Ordering::ContainsFromUpper,
        VersionCmp::Equal => {
            if !b.inclusive && a.inclusive {
                Ordering::ContainsFromLower
            } else if b.inclusive && !a.inclusive {
                Ordering::ContainsFromUpper
            } else {
                proof {
                    assert(a@ =~= b@);
                }
                Ordering::Equal
            }
        },
    }
}

/// Decides which of two boundaries, both in the upper role, is tighter.
/// `ContainsFromUpper` means `b` is strictly tighter, `ContainsFromLower`
/// means `a` is.
pub fn contains_from_upper(a: &Range, b: &Range) -> (r: Ordering)
    ensures
        (r == Ordering::ContainsFromUpper) == tighter_as_upper(b@, a@),
        (r == Ordering::ContainsFromLower) == tighter_as_upper(a@, b@),
        (r == Ordering::Equal) == (a@ == b@),
{
    proof {
        lemma_precedes_asym(a.version@, b.version@);
    }
    match a.version.cmp_precedence(&b.version) {
        VersionCmp::Less => Ordering::ContainsFromLower,
        VersionCmp::Greater => Ordering::ContainsFromUpper,
        VersionCmp::Equal => {
            if !b.inclusive && a.inclusive {
                Ordering::ContainsFromUpper
            } else if b.inclusive && !a.inclusive {
                Ordering::ContainsFromLower
            } else {
                proof {
                    assert(a@ =~= b@);
                }
                Ordering::Equal
            }
        },
    }
}

/// Tests whether the interval from `lower` to `upper` is empty.
pub fn interval_empty(lower: &Range, upper: &Range) -> (r: bool)
    ensures
        r == range_empty(lower@, upper@),
{
    match lower.version.cmp_precedence(&upper.version) {
        VersionCmp::Less => false,
        VersionCmp::Greater => true,
        VersionCmp::Equal => !(lower.inclusive && upper.inclusive),
    }
}

/// The tighter of two lower boundaries.
pub open spec fn combine_lower(a: RangeModel, b: RangeModel) -> RangeModel {
    if tighter_as_lower(b, a) {
        b
    } else {
        a
    }
}

/// The tighter of two upper boundaries.
pub open spec fn combine_upper(a: RangeModel, b: RangeModel) -> RangeModel {
    if tighter_as_upper(b, a) {
        b
    } else {
        a
    }
}

/// The intersection of two bounds, boundary by boundary, before any
/// emptiness test.
pub open spec fn combine(a: BoundModel, b: BoundModel) -> BoundModel {
    BoundModel { lower: combine_lower(a.lower, b.lower), upper: combine_upper(a.upper, b.upper) }
}

proof fn lemma_tighter_lower_trans(a: RangeModel, b: RangeModel, c: RangeModel)
    requires
        tighter_as_lower(b, a),
        tighter_as_lower(c, b),
    ensures
        tighter_as_lower(c, a),
{
    if precedes(a.version, b.version) && precedes(b.version, c.version) {
        lemma_precedes_trans(a.version, b.version, c.version);
    }
}

proof fn lemma_tighter_upper_trans(a: RangeModel, b: RangeModel, c: RangeModel)
    requires
        tighter_as_upper(b, a),
        tighter_as_upper(c, b),
    ensures
        tighter_as_upper(c, a),
{
    if precedes(c.version, b.version) && precedes(b.version, a.version) {
        lemma_precedes_trans(c.version, b.version, a.version);
    }
}

proof fn lemma_range_eq(a: RangeModel, b: RangeModel)
    requires
        !tighter_as_lower(b, a),
        !tighter_as_lower(a, b),
    ensures
        a == b,
{
    lemma_precedes_connected(a.version, b.version);
    assert(a =~= b);
}

proof fn lemma_range_eq_upper(a: RangeModel, b: RangeModel)
    requires
        !tighter_as_upper(b, a),
        !tighter_as_upper(a, b),
    ensures
        a == b,
{
    lemma_precedes_connected(a.version, b.version);
    assert(a =~= b);
}

/// Intersection does not depend on the order of its arguments: the resulting
/// interval is identical; only which argument is reported as responsible for
/// a boundary may differ at a fold above this operation.
pub proof fn lemma_combine_commutative(a: BoundModel, b: BoundModel)
    ensures
        combine(a, b) == combine(b, a),
{
    lemma_precedes_asym(a.lower.version, b.lower.version);
    lemma_precedes_asym(a.upper.version, b.upper.version);
    if !tighter_as_lower(b.lower, a.lower) && !tighter_as_lower(a.lower, b.lower) {
        lemma_range_eq(a.lower, b.lower);
    }
    if !tighter_as_upper(b.upper, a.upper) && !tighter_as_upper(a.upper, b.upper) {
        lemma_range_eq_upper(a.upper, b.upper);
    }
    assert(combine(a, b) =~= combine(b, a));
}

proof fn lemma_tighter_lower_total(a: RangeModel, b: RangeModel)
    ensures
        tighter_as_lower(a, b) || tighter_as_lower(b, a) || a == b,
{
    if !tighter_as_lower(a, b) && !tighter_as_lower(b, a) {
        lemma_range_eq(a, b);
    }
}

proof fn lemma_tighter_upper_total(a: RangeModel, b: RangeModel)
    ensures
        tighter_as_upper(a, b) || tighter_as_upper(b, a) || a == b,
{
    if !tighter_as_upper(a, b) && !tighter_as_upper(b, a) {
        lemma_range_eq_upper(a, b);
    }
}

proof fn lemma_combine_lower_assoc(x: RangeModel, y: RangeModel, z: RangeModel)
    ensures
        combine_lower(combine_lower(x, y), z) == combine_lower(x, combine_lower(y, z)),
{
    if tighter_as_lower(y, x) && tighter_as_lower(z, y) {
        lemma_tighter_lower_trans(x, y, z);
    }
    if !tighter_as_lower(y, x) && tighter_as_lower(z, x) && !tighter_as_lower(z, y) {
        lemma_tighter_lower_total(x, y);
        if tighter_as_lower(x, y) {
            lemma_tighter_lower_trans(y, x, z);
        }
        assert(false);
    }
    assert(combine_lower(combine_lower(x, y), z) =~= combine_lower(x, combine_lower(y, z)));
}

proof fn lemma_combine_upper_assoc(x: RangeModel, y: RangeModel, z: RangeModel)
    ensures
        combine_upper(combine_upper(x, y), z) == combine_upper(x, combine_upper(y, z)),
{
    if tighter_as_upper(y, x) && tighter_as_upper(z, y) {
        lemma_tighter_upper_trans(x, y, z);
    }
    if !tighter_as_upper(y, x) && tighter_as_upper(z, x) && !tighter_as_upper(z, y) {
        lemma_tighter_upper_total(x, y);
        if tighter_as_upper(x, y) {
            lemma_tighter_upper_trans(y, x, z);
        }
        assert(false);
    }
    assert(combine_upper(combine_upper(x, y), z) =~= combine_upper(x, combine_upper(y, z)));
}

/// Intersection is associative: folding bounds in any grouping yields the
/// identical interval, and therefore also the identical emptiness verdict.
pub proof fn lemma_combine_associative(a: BoundModel, b: BoundModel, c: BoundModel)
    ensures
        combine(combine(a, b), c) == combine(a, combine(b, c)),
{
    lemma_combine_lower_assoc(a.lower, b.lower, c.lower);
    lemma_combine_upper_assoc(a.upper, b.upper, c.upper);
    assert(combine(combine(a, b), c) =~= combine(a, combine(b, c)));
}

/// Intersecting a bound with itself changes nothing; in particular a valid
/// bound intersected with itself is that bound, still valid.
pub proof fn lemma_combine_idempotent(b: BoundModel)
    ensures
        combine(b, b) == b,
        bound_valid(b) ==> bound_valid(combine(b, b)),
{
    lemma_precedes_asym(b.lower.version, b.lower.version);
    lemma_precedes_asym(b.upper.version, b.upper.version);
    assert(combine(b, b) =~= b);
}

impl Clone for Range {
    fn clone(&self) -> (res: Self)
        ensures
            res@ == self@,
    {
        let res = Range { version: self.version.clone(), inclusive: self.inclusive };
        proof {
            assert(res@ =~= self@);
        }
        res
    }
}

impl Clone for Bound {
    fn clone(&self) -> (res: Self)
        ensures
            res@ == self@,
    {
        let res = Bound { upper: self.upper.clone(), lower: self.lower.clone() };
        proof {
            assert(res@ =~= self@);
        }
        res
    }
}

/// Intersects two bounds. Returns the intersection when it is non-empty and
/// nothing when the two bounds do not overlap.
pub fn combine_bounds(a: &Bound, b: &Bound) -> (r: Option<Bound>)
    ensures
        r is Some <==> bound_valid(combine(a@, b@)),
        r matches Some(c) ==> c@ == combine(a@, b@),
{
    let lower = if contains_from_lower(&a.lower, &b.lower) == Ordering::ContainsFromLower {
        b.lower.clone()
    } else {
        a.lower.clone()
    };
    let upper = if contains_from_upper(&a.upper, &b.upper) == Ordering::ContainsFromUpper {
        b.upper.clone()
    } else {
        a.upper.clone()
    };
    if interval_empty(&lower, &upper) {
        None
    } else {
        let c = Bound { upper, lower };
        proof {
            assert(c@ =~= combine(a@, b@));
        }
        Some(c)
    }
}

/// The smallest version: zero triple, no prerelease.
pub open spec fn min_version_model() -> VersionModel {
    VersionModel { major: 0, minor: 0, patch: 0, pre: Seq::empty() }
}

/// The largest representable version: maximal triple, no prerelease.
pub open spec fn max_version_model() -> VersionModel {
    VersionModel {
        major: u64::MAX as int,
        minor: u64::MAX as int,
        patch: u64::MAX as int,
        pre: Seq::empty(),
    }
}

/// The minor or patch place of a comparator, defaulting to zero when absent.
pub open spec fn place_or_zero(place: Option<int>) -> int {
    match place {
        Some(v) => v,
        None => 0,
    }
}

/// The version a comparator names, with absent places defaulted to zero and
/// prerelease identifiers carried through verbatim.
pub open spec fn comparator_version(c: ComparatorModel) -> VersionModel {
    VersionModel {
        major: c.major,
        minor: place_or_zero(c.minor),
        patch: place_or_zero(c.patch),
        pre: c.pre,
    }
}

/// Whether an operator belongs to the supported closed set.
pub open spec fn supported_op(op: Op) -> bool {
    op != Op::Unknown
}

/// A comparator whose translation stays within the version number range:
/// the caret bump of the major place and the tilde bump of the minor place
/// must fit in the machine word that holds them.
pub open spec fn comparator_wf(c: ComparatorModel) -> bool {
    &&& (c.op == Op::Caret ==> c.major + 1 <= u64::MAX)
    &&& (c.op == Op::Tilde ==> place_or_zero(c.minor) + 1 <= u64::MAX)
}

/// The translation table: the bound a single supported comparator denotes.
pub open spec fn translate_table(c: ComparatorModel) -> BoundModel {
    let v = comparator_version(c);
    match c.op {
        Op::Caret => BoundModel {
            lower: RangeModel { version: v, inclusive: true },
            upper: RangeModel {
                version: VersionModel { major: c.major + 1, minor: 0, patch: 0, pre: Seq::empty() },
                inclusive: false,
            },
        },
        Op::Tilde => BoundModel {
            lower: RangeModel { version: v, inclusive: true },
            upper: RangeModel {
                version: VersionModel {
                    major: c.major,
                    minor: place_or_zero(c.minor) + 1,
                    patch: 0,
                    pre: Seq::empty(),
                },
                inclusive: false,
            },
        },
        Op::Exact => BoundModel {
            lower: RangeModel { version: v, inclusive: true },
            upper: RangeModel { version: v, inclusive: true },
        },
        Op::Greater => BoundModel {
            lower: RangeModel { version: v, inclusive: false },
            upper: RangeModel { version: max_version_model(), inclusive: true },
        },
        Op::GreaterEq => BoundModel {
            lower: RangeModel { version: v, inclusive: true },
            upper: RangeModel { version: max_version_model(), inclusive: true },
        },
        Op::Less => BoundModel {
            lower: RangeModel { version: min_version_model(), inclusive: true },
            upper: RangeModel { version: v, inclusive: false },
        },
        Op::LessEq => BoundModel {
            lower: RangeModel { version: min_version_model(), inclusive: true },
            upper: RangeModel { version: v, inclusive: true },
        },
        Op::Wildcard => BoundModel {
            lower: RangeModel { version: min_version_model(), inclusive: true },
            upper: RangeModel { version: max_version_model(), inclusive: true },
        },
        Op::Unknown => BoundModel {
            lower: RangeModel { version: min_version_model(), inclusive: true },
            upper: RangeModel { version: max_version_model(), inclusive: true },
        },
    }
}

/// Outcome of translating a constraint.
#[verifier::ext_equal]
pub enum TransResult {
    /// A comparator uses an operator outside the supported set.
    Unsupported(ComparatorModel),
    /// The constraint declares zero comparators.
    Empty,
    /// The comparators of the one constraint leave an empty interval.
    NonOverlapping,
    /// The constraint denotes this non-empty interval.
    Translated(BoundModel),
}

/// Folds the comparators of a constraint from index `i` into the accumulated
/// bound, failing on the first unsupported operator or empty intersection.
pub open spec fn translate_fold(cs: Seq<ComparatorModel>, i: int, acc: BoundModel) -> TransResult
    decreases cs.len() - i,
{
    if i < 0 || i >= cs.len() {
        TransResult::Translated(acc)
    } else if !supported_op(cs[i].op) {
        TransResult::Unsupported(cs[i])
    } else {
        let merged = combine(acc, translate_table(cs[i]));
        if !bound_valid(merged) {
            TransResult::NonOverlapping
        } else {
            translate_fold(cs, i + 1, merged)
        }
    }
}

/// Translation of a whole constraint: the first comparator seeds the bound,
/// the rest are intersected in; an empty comparator list and a fold that
/// becomes empty are distinct failures.
pub open spec fn translate_constraint(c: ConstraintModel) -> TransResult {
    if c.comparators.len() == 0 {
        TransResult::Empty
    } else if !supported_op(c.comparators[0].op) {
        TransResult::Unsupported(c.comparators[0])
    } else {
        let seed = translate_table(c.comparators[0]);
        if !bound_valid(seed) {
            TransResult::NonOverlapping
        } else {
            translate_fold(c.comparators, 1, seed)
        }
    }
}

/// A translated constraint always denotes a valid (non-empty) bound.
pub proof fn lemma_translate_fold_valid(cs: Seq<ComparatorModel>, i: int, acc: BoundModel)
    requires
        bound_valid(acc),
        translate_fold(cs, i, acc) matches TransResult::Translated(b),
    ensures
        translate_fold(cs, i, acc) matches TransResult::Translated(b) && bound_valid(b),
    decreases cs.len() - i,
{
    if 0 <= i < cs.len() && supported_op(cs[i].op) {
        let merged = combine(acc, translate_table(cs[i]));
        if bound_valid(merged) {
            lemma_translate_fold_valid(cs, i + 1, merged);
        }
    }
}

/// A constraint that translates denotes a valid bound.
pub proof fn lemma_translate_valid(c: ConstraintModel)
    requires
        translate_constraint(c) matches TransResult::Translated(b),
    ensures
        translate_constraint(c) matches TransResult::Translated(b) && bound_valid(b),
{
    if c.comparators.len() > 0 && supported_op(c.comparators[0].op) {
        let seed = translate_table(c.comparators[0]);
        if bound_valid(seed) {
            lemma_translate_fold_valid(c.comparators, 1, seed);
        }
    }
}

/// Every constraint model of well-formed comparators.
pub open spec fn constraint_wf(c: ConstraintModel) -> bool {
    forall|i: int| 0 <= i < c.comparators.len() ==> comparator_wf(#[trigger] c.comparators[i])
}

fn clone_pre(pre: &Vec<PreIdent>) -> (r: Vec<PreIdent>)
    ensures
        r@.map_values(|p: PreIdent| p@) == pre@.map_values(|p: PreIdent| p@),
{
    let r = pre.clone();
    proof {
        assert(r@.map_values(|p: PreIdent| p@) =~= pre@.map_values(|p: PreIdent| p@)) by {
            assert forall|i: int| 0 <= i < r@.len() implies r@[i]@ == pre@[i]@ by {
                assert(cloned(pre@[i], r@[i]));
            }
        }
    }
    r
}

fn min_version() -> (v: Version)
    ensures
        v@ == min_version_model(),
{
    let v = Version { major: 0, minor: 0, patch: 0, pre: Vec::new() };
    proof {
        assert(v@ =~= min_version_model());
    }
    v
}

fn max_version() -> (v: Version)
    ensures
        v@ == max_version_model(),
{
    let v = Version { major: u64::MAX, minor: u64::MAX, patch: u64::MAX, pre: Vec::new() };
    proof {
        assert(v@ =~= max_version_model());
    }
    v
}

impl Bound {
    /// The bound one comparator denotes, by the translation table; a
    /// comparator with an operator outside the supported set is rejected.
    pub fn from_comparator(comparator: &Comparator) -> (r: Result<Bound, ConstError>)
        requires
            comparator_wf(comparator@),
        ensures
            r is Ok <==> supported_op(comparator@.op),
            r matches Ok(b) ==> b@ == translate_table(comparator@),
            r matches Err(e) ==> e matches ConstError::VersionError(cc, vv, msg) && cc@
                == comparator@ && vv@ == Seq::<char>::empty() && msg@
                == "Unsupported semver operator"@,
    {
        let minor = match comparator.minor {
            Some(m) => m,
            None => 0,
        };
        let patch = match comparator.patch {
            Some(p) => p,
            None => 0,
        };
        match comparator.op {
            Op::Caret => {
                let lower_version = Version {
                    major: comparator.major,
                    minor,
                    patch,
                    pre: clone_pre(&comparator.pre),
                };
                let upper_version = Version {
                    major: comparator.major + 1,
                    minor: 0,
                    patch: 0,
                    pre: Vec::new(),
                };
                let b = Bound {
                    lower: Range { version: lower_version, inclusive: true },
                    upper: Range { version: upper_version, inclusive: false },
                };
                proof {
                    assert(b@ =~~= translate_table(comparator@));
                }
                Ok(b)
            },
            Op::Tilde => {
                let lower_version = Version {
                    major: comparator.major,
                    minor,
                    patch,
                    pre: clone_pre(&comparator.pre),
                };
                let upper_version = Version {
                    major: comparator.major,
                    minor: minor + 1,
                    patch: 0,
                    pre: Vec::new(),
                };
                let b = Bound {
                    lower: Range { version: lower_version, inclusive: true },
                    upper: Range { version: upper_version, inclusive: false },
                };
                proof {
                    assert(b@ =~~= translate_table(comparator@));
                }
                Ok(b)
            },
            Op::Exact => {
                let lower_version = Version {
                    major: comparator.major,
                    minor,
                    patch,
                    pre: clone_pre(&comparator.pre),
                };
                let upper_version = Version {
                    major: comparator.major,
                    minor,
                    patch,
                    pre: clone_pre(&comparator.pre),
                };
                let b = Bound {
                    lower: Range { version: lower_version, inclusive: true },
                    upper: Range { version: upper_version, inclusive: true },
                };
                proof {
                    assert(b@ =~~= translate_table(comparator@));
                }
                Ok(b)
            },
            Op::Greater => {
                let lower_version = Version {
                    major: comparator.major,
                    minor,
                    patch,
                    pre: clone_pre(&comparator.pre),
                };
                let b = Bound {
                    lower: Range { version: lower_version, inclusive: false },
                    upper: Range { version: max_version(), inclusive: true },
                };
                proof {
                    assert(b@ =~~= translate_table(comparator@));
                }
                Ok(b)
            },
            Op::GreaterEq => {
                let lower_version = Version {
                    major: comparator.major,
                    minor,
                    patch,
                    pre: clone_pre(&comparator.pre),
                };
                let b = Bound {
                    lower: Range { version: lower_version, inclusive: true },
                    upper: Range { version: max_version(), inclusive: true },
                };
                proof {
                    assert(b@ =~~= translate_table(comparator@));
                }
                Ok(b)
            },
            Op::Less => {
                let upper_version = Version {
                    major: comparator.major,
                    minor,
                    patch,
                    pre: clone_pre(&comparator.pre),
                };
                let b = Bound {
                    lower: Range { version: min_version(), inclusive: true },
                    upper: Range { version: upper_version, inclusive: false },
                };
                proof {
                    assert(b@ =~~= translate_table(comparator@));
                }
                Ok(b)
            },
            Op::LessEq => {
                let upper_version = Version {
                    major: comparator.major,
                    minor,
                    patch,
                    pre: clone_pre(&comparator.pre),
                };
                let b = Bound {
                    lower: Range { version: min_version(), inclusive: true },
                    upper: Range { version: upper_version, inclusive: true },
                };
                proof {
                    assert(b@ =~~= translate_table(comparator@));
                }
                Ok(b)
            },
            Op::Wildcard => {
                let b = Bound {
                    lower: Range { version: min_version(), inclusive: true },
                    upper: Range { version: max_version(), inclusive: true },
                };
                proof {
                    assert(b@ =~~= translate_table(comparator@));
                }
                Ok(b)
            },
            Op::Unknown => Err(
                ConstError::VersionError(
                    comparator.clone(),
                    String::new(),
                    "Unsupported semver operator".to_owned(),
                ),
            ),
        }
    }

    /// Translates a whole constraint into the single bound its comparators
    /// conjointly denote: the first comparator seeds the bound and each
    /// further one is intersected in, with the fold stopping at the first
    /// failure.
    pub fn try_from(constraint: &Constraint) -> (r: Result<Bound, ConstError>)
        requires
            constraint_wf(constraint@),
        ensures
            match translate_constraint(constraint@) {
                TransResult::Translated(bm) => r matches Ok(b) && b@ == bm && bound_valid(bm),
                TransResult::Empty => r matches Err(e) && e
                    matches ConstError::EmptyVersionReqError { crate_name, crate_version }
                    && crate_name@ == Seq::<char>::empty() && crate_version@
                    == Seq::<char>::empty(),
                TransResult::Unsupported(cm) => r matches Err(e) && e
                    matches ConstError::VersionError(cc, vv, msg) && cc@ == cm && vv@
                    == Seq::<char>::empty() && msg@ == "Unsupported semver operator"@,
                TransResult::NonOverlapping => r matches Err(e) && e
                    matches ConstError::NonOverlappingBoundsError {
                        version_req,
                        crate_name,
                        crate_version,
                    } && version_req@ == constraint@.text && crate_name@ == Seq::<char>::empty()
                    && crate_version@ == Seq::<char>::empty(),
            },
    {
        let n = constraint.comparators.len();
        if n == 0 {
            return Err(
                ConstError::EmptyVersionReqError {
                    crate_name: String::new(),
                    crate_version: String::new(),
                },
            );
        }
        let mut acc = match Bound::from_comparator(&constraint.comparators[0]) {
            Ok(b) => b,
            Err(e) => {
                return Err(e);
            },
        };
        if interval_empty(&acc.lower, &acc.upper) {
            return Err(
                ConstError::NonOverlappingBoundsError {
                    version_req: constraint.text.clone(),
                    crate_name: String::new(),
                    crate_version: String::new(),
                },
            );
        }
        let mut i: usize = 1;
        while i < n
            invariant
                1 <= i <= n,
                n == constraint.comparators@.len(),
                constraint_wf(constraint@),
                bound_valid(acc@),
                translate_constraint(constraint@) == translate_fold(
                    constraint@.comparators,
                    i as int,
                    acc@,
                ),
            decreases n - i,
        {
            proof {
                assert(constraint@.comparators[i as int] == constraint.comparators@[i as int]@);
            }
            let next = match Bound::from_comparator(&constraint.comparators[i]) {
                Ok(b) => b,
                Err(e) => {
                    return Err(e);
                },
            };
            match combine_bounds(&acc, &next) {
                Some(merged) => {
                    acc = merged;
                },
                None => {
                    return Err(
                        ConstError::NonOverlappingBoundsError {
                            version_req: constraint.text.clone(),
                            crate_name: String::new(),
                            crate_version: String::new(),
                        },
                    );
                },
            }
            i = i + 1;
        }
        Ok(acc)
    }
}

} // verus!
