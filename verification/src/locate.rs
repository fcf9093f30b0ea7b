//! Mapping an abstract interval onto concrete published versions.
//!
//! Given a bound and the list of published versions sorted ascending by
//! precedence, the locator returns the inclusive index range of the releases
//! whose version lies within the bound, or nothing when no release does.
//! Each boundary is found by binary search over the sorted list.

use vstd::prelude::*;

use crate::bound::{in_bound, satisfies_lower, satisfies_upper, Bound, BoundModel, Range, RangeModel};
use crate::provider::ParsedVersion;
use crate::version::{
    lemma_precedes_asym, lemma_precedes_connected, lemma_precedes_trans, precedes, Version,
    VersionCmp, VersionModel,
};

verus! {

/// `a` is of no higher precedence than `b`.
pub open spec fn version_le(a: VersionModel, b: VersionModel) -> bool {
    !precedes(b, a)
}

/// The published list is sorted ascending by version precedence.
pub open spec fn sorted_by_num(vs: Seq<ParsedVersion>) -> bool {
    forall|i: int, j: int|
        0 <= i <= j < vs.len() ==> #[trigger] version_le(vs[i]@.num, vs[j]@.num)
}

/// A version at least as high as one satisfying a lower boundary satisfies it
/// too.
proof fn lemma_satisfies_lower_mono(l: RangeModel, a: VersionModel, b: VersionModel)
    requires
        satisfies_lower(l, a),
        version_le(a, b),
    ensures
        satisfies_lower(l, b),
{
    lemma_precedes_connected(a, b);
    if precedes(l.version, a) && precedes(a, b) {
        lemma_precedes_trans(l.version, a, b);
    }
}

/// A version no higher than one satisfying an upper boundary satisfies it
/// too.
proof fn lemma_satisfies_upper_mono(u: RangeModel, a: VersionModel, b: VersionModel)
    requires
        satisfies_upper(u, a),
        version_le(b, a),
    ensures
        satisfies_upper(u, b),
{
    lemma_precedes_connected(b, a);
    if precedes(b, a) && precedes(a, u.version) {
        lemma_precedes_trans(b, a, u.version);
    }
}

fn satisfies_lower_exec(l: &Range, v: &Version) -> (r: bool)
    ensures
        r == satisfies_lower(l@, v@),
{
    match l.version.cmp_precedence(v) {
        VersionCmp::Less => true,
        VersionCmp::Equal => l.inclusive,
        VersionCmp::Greater => false,
    }
}

fn satisfies_upper_exec(u: &Range, v: &Version) -> (r: bool)
    ensures
        r == satisfies_upper(u@, v@),
{
    match v.cmp_precedence(&u.version) {
        VersionCmp::Less => true,
        VersionCmp::Equal => u.inclusive,
        VersionCmp::Greater => false,
    }
}

/// Binary search for the first index whose version satisfies the lower
/// boundary; the list length when none does.
fn first_satisfying_lower(l: &Range, versions: &Vec<ParsedVersion>) -> (r: usize)
    requires
        sorted_by_num(versions@),
    ensures
        r <= versions@.len(),
        forall|i: int| 0 <= i < r ==> !satisfies_lower(l@, #[trigger] versions@[i]@.num),
        forall|i: int|
            r <= i < versions@.len() ==> satisfies_lower(l@, #[trigger] versions@[i]@.num),
{
    let mut lo: usize = 0;
    let mut hi: usize = versions.len();
    while lo < hi
        invariant
            lo <= hi <= versions@.len(),
            sorted_by_num(versions@),
            forall|i: int| 0 <= i < lo ==> !satisfies_lower(l@, #[trigger] versions@[i]@.num),
            forall|i: int|
                hi <= i < versions@.len() ==> satisfies_lower(l@, #[trigger] versions@[i]@.num),
        decreases hi - lo,
    {
        let mid = lo + (hi - lo) / 2;
        if satisfies_lower_exec(l, &versions[mid].num) {
            proof {
                assert forall|i: int| mid <= i < versions@.len() implies satisfies_lower(
                    l@,
                    #[trigger] versions@[i]@.num,
                ) by {
                    assert(version_le(versions@[mid as int]@.num, versions@[i]@.num));
                    lemma_satisfies_lower_mono(l@, versions@[mid as int]@.num, versions@[i]@.num);
                }
            }
            hi = mid;
        } else {
            proof {
                assert forall|i: int| 0 <= i <= mid implies !satisfies_lower(
                    l@,
                    #[trigger] versions@[i]@.num,
                ) by {
                    if satisfies_lower(l@, versions@[i]@.num) {
                        assert(version_le(versions@[i]@.num, versions@[mid as int]@.num));
                        lemma_satisfies_lower_mono(
                            l@,
                            versions@[i]@.num,
                            versions@[mid as int]@.num,
                        );
                    }
                }
            }
            lo = mid + 1;
        }
    }
    lo
}

/// Binary search for the first index whose version no longer satisfies the
/// upper boundary; the list length when all do.
fn first_violating_upper(u: &Range, versions: &Vec<ParsedVersion>) -> (r: usize)
    requires
        sorted_by_num(versions@),
    ensures
        r <= versions@.len(),
        forall|i: int| 0 <= i < r ==> satisfies_upper(u@, #[trigger] versions@[i]@.num),
        forall|i: int|
            r <= i < versions@.len() ==> !satisfies_upper(u@, #[trigger] versions@[i]@.num),
{
    let mut lo: usize = 0;
    let mut hi: usize = versions.len();
    while lo < hi
        invariant
            lo <= hi <= versions@.len(),
            sorted_by_num(versions@),
            forall|i: int| 0 <= i < lo ==> satisfies_upper(u@, #[trigger] versions@[i]@.num),
            forall|i: int|
                hi <= i < versions@.len() ==> !satisfies_upper(u@, #[trigger] versions@[i]@.num),
        decreases hi - lo,
    {
        let mid = lo + (hi - lo) / 2;
        if satisfies_upper_exec(u, &versions[mid].num) {
            proof {
                assert forall|i: int| 0 <= i <= mid implies satisfies_upper(
                    u@,
                    #[trigger] versions@[i]@.num,
                ) by {
                    assert(version_le(versions@[i]@.num, versions@[mid as int]@.num));
                    lemma_satisfies_upper_mono(u@, versions@[mid as int]@.num, versions@[i]@.num);
                }
            }
            lo = mid + 1;
        } else {
            proof {
                assert forall|i: int| mid <= i < versions@.len() implies !satisfies_upper(
                    u@,
                    #[trigger] versions@[i]@.num,
                ) by {
                    if satisfies_upper(u@, versions@[i]@.num) {
                        assert(version_le(versions@[mid as int]@.num, versions@[i]@.num));
                        lemma_satisfies_upper_mono(
                            u@,
                            versions@[i]@.num,
                            versions@[mid as int]@.num,
                        );
                    }
                }
            }
            hi = mid;
        }
    }
    lo
}

/// Maps a bound onto the published-version list: the inclusive index range
/// of exactly the releases whose version lies within the bound, or nothing
/// when no release does.
pub fn locate_versions(bound: &Bound, versions: &Vec<ParsedVersion>) -> (r: Option<(usize, usize)>)
    requires
        sorted_by_num(versions@),
    ensures
        r is Some <==> exists|i: int|
            0 <= i < versions@.len() && in_bound(bound@, #[trigger] versions@[i]@.num),
        r matches Some((lo, hi)) ==> lo <= hi < versions@.len() && forall|i: int|
            0 <= i < versions@.len() ==> (in_bound(bound@, #[trigger] versions@[i]@.num) <==> lo
                <= i <= hi),
{
    let lo = first_satisfying_lower(&bound.lower, versions);
    let k = first_violating_upper(&bound.upper, versions);
    if lo < k {
        proof {
            assert(in_bound(bound@, versions@[lo as int]@.num));
        }
        Some((lo, k - 1))
    } else {
        proof {
            assert forall|i: int| 0 <= i < versions@.len() implies !in_bound(
                bound@,
                #[trigger] versions@[i]@.num,
            ) by {
                if i >= lo {
                    assert(!satisfies_upper(bound@.upper, versions@[i]@.num));
                }
            }
        }
        None
    }
}

/// A bound that names exactly one published version, inclusively on both
/// sides, locates exactly that version's position: any inclusive index range
/// holding exactly the in-bound releases is that single position.
pub proof fn lemma_locate_exact_match(
    b: BoundModel,
    vs: Seq<ParsedVersion>,
    p: int,
    lo: int,
    hi: int,
)
    requires
        0 <= p < vs.len(),
        b.lower.version == vs[p]@.num,
        b.upper.version == vs[p]@.num,
        b.lower.inclusive,
        b.upper.inclusive,
        forall|j: int| 0 <= j < vs.len() && j != p ==> #[trigger] vs[j]@.num != vs[p]@.num,
        0 <= lo <= hi < vs.len(),
        forall|i: int| 0 <= i < vs.len() ==> (in_bound(b, #[trigger] vs[i]@.num) <==> lo <= i <= hi),
    ensures
        lo == p && hi == p,
{
    assert(in_bound(b, vs[p]@.num));
    assert forall|i: int| 0 <= i < vs.len() && i != p implies !in_bound(b, #[trigger] vs[i]@.num) by {
        if in_bound(b, vs[i]@.num) {
            lemma_precedes_asym(vs[p]@.num, vs[i]@.num);
            assert(vs[i]@.num != vs[p]@.num);
            assert(precedes(vs[p]@.num, vs[i]@.num));
            assert(precedes(vs[i]@.num, vs[p]@.num));
        }
    }
    assert(lo <= p <= hi);
    if lo < p {
        assert(in_bound(b, vs[lo]@.num));
    }
    if hi > p {
        assert(in_bound(b, vs[hi]@.num));
    }
}

/// When the lower boundary names a published version exclusively, the located
/// range starts one past that version's position.
pub proof fn lemma_locate_exclusive_lower(
    b: BoundModel,
    vs: Seq<ParsedVersion>,
    p: int,
    lo: int,
    hi: int,
)
    requires
        sorted_by_num(vs),
        0 <= p < vs.len(),
        b.lower.version == vs[p]@.num,
        !b.lower.inclusive,
        forall|j: int| 0 <= j < vs.len() && j != p ==> #[trigger] vs[j]@.num != vs[p]@.num,
        0 <= lo <= hi < vs.len(),
        forall|i: int| 0 <= i < vs.len() ==> (in_bound(b, #[trigger] vs[i]@.num) <==> lo <= i <= hi),
    ensures
        lo == p + 1,
{
    assert(in_bound(b, vs[lo]@.num));
    assert(precedes(vs[p]@.num, vs[lo]@.num));
    if lo <= p {
        assert(version_le(vs[lo]@.num, vs[p]@.num));
        lemma_precedes_asym(vs[p]@.num, vs[lo]@.num);
        lemma_precedes_connected(vs[lo]@.num, vs[p]@.num);
        assert(false);
    }
    assert(lo >= p + 1);
    if lo > p + 1 {
        assert(version_le(vs[p]@.num, vs[p + 1]@.num));
        lemma_precedes_connected(vs[p]@.num, vs[p + 1]@.num);
        assert(vs[p + 1]@.num != vs[p]@.num);
        assert(precedes(vs[p]@.num, vs[p + 1]@.num));
        assert(satisfies_lower(b.lower, vs[p + 1]@.num));
        assert(version_le(vs[p + 1]@.num, vs[lo]@.num));
        assert(satisfies_upper(b.upper, vs[lo]@.num));
        lemma_satisfies_upper_mono(b.upper, vs[lo]@.num, vs[p + 1]@.num);
        assert(in_bound(b, vs[p + 1]@.num));
        assert(false);
    }
}

} // verus!
