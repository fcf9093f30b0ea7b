//! Folding dependents' bounds and attributing conflicts.
//!
//! Given every dependent of the target package with its constraint, the fold
//! translates each constraint into a bound, intersects them in order while
//! tracking which dependent last tightened each boundary, and stops at the
//! first dependent whose bound empties the accumulated interval. Every
//! unsatisfiable outcome names the implicated dependents with their full
//! identity and original constraint text.

use vstd::prelude::*;

use crate::bound::{
    bound_valid, combine, constraint_wf, contains_from_lower, contains_from_upper, in_bound,
    interval_empty, lemma_translate_valid, range_empty, tighter_as_lower, tighter_as_upper,
    translate_constraint, Bound, BoundModel, Ordering, TransResult,
};
use crate::error::{ConstError, DependentRef};
use crate::locate::{locate_versions, sorted_by_num};
use crate::provider::{ParsedCrateDependency, ParsedVersion};
use crate::req::{Constraint, ConstraintModel};
use crate::utils::CRATE_NAME;

verus! {

/// One package of the dependency snapshot, reduced to what the engine reads:
/// its identity and the names of its declared dependencies.
pub struct Package {
    pub name: String,
    pub version: String,
    pub dependencies: Vec<String>,
}

/// Mathematical model of a snapshot package.
#[verifier::ext_equal]
pub struct PackageModel {
    pub name: Seq<char>,
    pub version: Seq<char>,
    pub dependencies: Seq<Seq<char>>,
}

impl View for Package {
    type V = PackageModel;

    open spec fn view(&self) -> PackageModel {
        PackageModel {
            name: self.name@,
            version: self.version@,
            dependencies: self.dependencies@.map_values(|d: String| d@),
        }
    }
}

/// A dependent of the target package: its identity and its constraint on the
/// target.
pub struct Dependent {
    pub crate_name: String,
    pub crate_version: String,
    pub constraint: Constraint,
}

/// Mathematical model of a dependent.
#[verifier::ext_equal]
pub struct DependentModel {
    pub crate_name: Seq<char>,
    pub crate_version: Seq<char>,
    pub constraint: ConstraintModel,
}

impl View for Dependent {
    type V = DependentModel;

    open spec fn view(&self) -> DependentModel {
        DependentModel {
            crate_name: self.crate_name@,
            crate_version: self.crate_version@,
            constraint: self.constraint@,
        }
    }
}

/// The name this tool itself goes by in a snapshot; it is never counted among
/// the dependents of the target.
pub open spec fn own_package_name() -> Seq<char> {
    CRATE_NAME@
}

/// Package `p` declares a dependency on `target`.
pub open spec fn depends_on(p: PackageModel, target: Seq<char>) -> bool {
    exists|k: int| 0 <= k < p.dependencies.len() && p.dependencies[k] == target
}

/// Package `p` counts as a dependent of `target`.
pub open spec fn is_dependent(p: PackageModel, target: Seq<char>) -> bool {
    depends_on(p, target) && p.name != own_package_name()
}

/// The identities, in snapshot order, of the packages that depend on the
/// target.
pub open spec fn dependents_spec(pkgs: Seq<Package>, target: Seq<char>) -> Seq<
    (Seq<char>, Seq<char>),
>
    decreases pkgs.len(),
{
    if pkgs.len() == 0 {
        Seq::empty()
    } else {
        let rest = dependents_spec(pkgs.drop_last(), target);
        if is_dependent(pkgs.last()@, target) {
            rest.push((pkgs.last()@.name, pkgs.last()@.version))
        } else {
            rest
        }
    }
}

fn package_depends_on(p: &Package, target: &String) -> (r: bool)
    ensures
        r == depends_on(p@, target@),
{
    let n = p.dependencies.len();
    let mut k: usize = 0;
    while k < n
        invariant
            k <= n,
            n == p.dependencies@.len(),
            forall|j: int| 0 <= j < k ==> p@.dependencies[j] != target@,
        decreases n - k,
    {
        if p.dependencies[k] == *target {
            proof {
                assert(p@.dependencies[k as int] == target@);
            }
            return true;
        }
        k = k + 1;
    }
    false
}

/// Picks out of the snapshot every package that depends on the target,
/// keeping its name and version, in snapshot order; the tool's own package
/// is not counted.
pub fn find_dependents(packages: &Vec<Package>, target: &str) -> (r: Vec<(String, String)>)
    ensures
        r@.map_values(|t: (String, String)| (t.0@, t.1@)) == dependents_spec(packages@, target@),
{
    let target_string = target.to_owned();
    let own_name = CRATE_NAME.to_owned();
    let n = packages.len();
    let mut r: Vec<(String, String)> = Vec::new();
    let mut i: usize = 0;
    while i < n
        invariant
            i <= n,
            n == packages@.len(),
            target_string@ == target@,
            own_name@ == own_package_name(),
            r@.map_values(|t: (String, String)| (t.0@, t.1@)) == dependents_spec(
                packages@.subrange(0, i as int),
                target@,
            ),
        decreases n - i,
    {
        let ghost prefix = packages@.subrange(0, i as int);
        let ghost next_prefix = packages@.subrange(0, i + 1);
        proof {
            assert(next_prefix.drop_last() =~= prefix);
            assert(next_prefix.last() == packages@[i as int]);
        }
        let p = &packages[i];
        if package_depends_on(p, &target_string) && !(p.name == own_name) {
            let name = p.name.clone();
            let version = p.version.clone();
            r.push((name, version));
            proof {
                assert(r@.map_values(|t: (String, String)| (t.0@, t.1@)) =~= dependents_spec(
                    next_prefix,
                    target@,
                ));
            }
        } else {
            proof {
                assert(r@.map_values(|t: (String, String)| (t.0@, t.1@)) =~= dependents_spec(
                    next_prefix,
                    target@,
                ));
            }
        }
        i = i + 1;
    }
    proof {
        assert(packages@.subrange(0, n as int) =~= packages@);
    }
    r
}

/// Finds, among the fetched dependencies of one dependent, the requirement it
/// puts on the target: the first entry naming the target, or the mismatch
/// error when the snapshot's claimed edge is not corroborated.
pub fn find_dependency(
    parsed: &ParsedCrateDependency,
    target: &str,
    crate_name: &str,
    crate_version: &str,
) -> (r: Result<usize, ConstError>)
    ensures
        r matches Ok(i) ==> i < parsed@.len() && parsed@[i as int].crate_id == target@ && forall|
            j: int,
        | 0 <= j < i ==> parsed@[j].crate_id != target@,
        r is Err <==> forall|j: int| 0 <= j < parsed@.len() ==> parsed@[j].crate_id != target@,
        r matches Err(e) ==> e matches ConstError::DependencyMismatchFromCargoLock {
            crate_name: cn,
            crate_version: cv,
            dependency: d,
        } && cn@ == crate_name@ && cv@ == crate_version@ && d@ == target@,
{
    let target_string = target.to_owned();
    let n = parsed.dependencies.len();
    let mut i: usize = 0;
    while i < n
        invariant
            i <= n,
            n == parsed.dependencies@.len(),
            target_string@ == target@,
            forall|j: int| 0 <= j < i ==> parsed@[j].crate_id != target@,
        decreases n - i,
    {
        if parsed.dependencies[i].crate_id == target_string {
            proof {
                assert(parsed@[i as int].crate_id == target@);
            }
            return Ok(i);
        }
        proof {
            assert(parsed@[i as int].crate_id != target@);
        }
        i = i + 1;
    }
    Err(
        ConstError::DependencyMismatchFromCargoLock {
            crate_name: crate_name.to_owned(),
            crate_version: crate_version.to_owned(),
            dependency: target.to_owned(),
        },
    )
}

/// The constraint of dependent `d` translates into a bound.
pub open spec fn dep_translates(d: DependentModel) -> bool {
    translate_constraint(d.constraint) is Translated
}

/// The bound dependent `d`'s constraint translates into.
pub open spec fn dep_bound(d: DependentModel) -> BoundModel {
    translate_constraint(d.constraint)->Translated_0
}

/// The first index at or after `i` whose dependent fails to translate; the
/// length when all translate.
pub open spec fn first_untranslatable(deps: Seq<DependentModel>, i: int) -> int
    decreases deps.len() - i,
{
    if i < 0 || i >= deps.len() {
        i
    } else if !dep_translates(deps[i]) {
        i
    } else {
        first_untranslatable(deps, i + 1)
    }
}

/// Outcome of folding the dependents' bounds.
#[verifier::ext_equal]
pub enum FoldResult {
    /// The dependent at this index emptied the accumulated interval.
    Conflict(int),
    /// The combined bound, with the indices of the dependents that last
    /// tightened the lower and the upper boundary.
    Folded(BoundModel, int, int),
}

/// Folds the bounds of the dependents from index `i` onward into the
/// accumulator, tracking the owner of each boundary and stopping at the first
/// dependent that empties the interval.
pub open spec fn fold_deps(
    deps: Seq<DependentModel>,
    i: int,
    acc: BoundModel,
    li: int,
    ui: int,
) -> FoldResult
    decreases deps.len() - i,
{
    if i < 0 || i >= deps.len() {
        FoldResult::Folded(acc, li, ui)
    } else {
        let b = dep_bound(deps[i]);
        let nb = combine(acc, b);
        let nli = if tighter_as_lower(b.lower, acc.lower) {
            i
        } else {
            li
        };
        let nui = if tighter_as_upper(b.upper, acc.upper) {
            i
        } else {
            ui
        };
        if !bound_valid(nb) {
            FoldResult::Conflict(i)
        } else {
            fold_deps(deps, i + 1, nb, nli, nui)
        }
    }
}

/// The fold over all dependents, seeded from the first dependent's bound,
/// which then owns both boundaries.
pub open spec fn combined_spec(deps: Seq<DependentModel>) -> FoldResult {
    fold_deps(deps, 1, dep_bound(deps[0]), 0, 0)
}

/// Every dependent's constraint is well-formed.
pub open spec fn deps_wf(deps: Seq<DependentModel>) -> bool {
    forall|i: int| 0 <= i < deps.len() ==> constraint_wf(#[trigger] deps[i].constraint)
}

/// The bounds of two dependents admit no common version: one's lower boundary
/// empties against the other's upper.
pub open spec fn conflicts_with(a: BoundModel, b: BoundModel) -> bool {
    range_empty(a.lower, b.upper) || range_empty(b.lower, a.upper)
}

/// A dependent as named in a diagnostic.
pub open spec fn dep_ref(d: DependentModel) -> ((Seq<char>, Seq<char>), Seq<char>) {
    ((d.crate_name, d.crate_version), d.constraint.text)
}

/// The view of an exec diagnostic entry.
pub open spec fn dep_ref_view(t: DependentRef) -> ((Seq<char>, Seq<char>), Seq<char>) {
    ((t.0.0@, t.0.1@), t.1@)
}

/// The dependents among the first `m`, in order, whose bound conflicts with
/// that of the dependent at `k`.
pub open spec fn conflict_set(deps: Seq<DependentModel>, k: int, m: int) -> Seq<
    ((Seq<char>, Seq<char>), Seq<char>),
>
    decreases m,
{
    if m <= 0 {
        Seq::empty()
    } else {
        let rest = conflict_set(deps, k, m - 1);
        if conflicts_with(dep_bound(deps[m - 1]), dep_bound(deps[k])) {
            rest.push(dep_ref(deps[m - 1]))
        } else {
            rest
        }
    }
}

/// The error a failed translation of dependent `d` carries: the failure kind
/// of the translation, with `d`'s identity filled in where the taxonomy
/// names the dependent.
pub open spec fn translate_error_for(e: ConstError, d: DependentModel) -> bool {
    match translate_constraint(d.constraint) {
        TransResult::Empty => e matches ConstError::EmptyVersionReqError {
            crate_name,
            crate_version,
        } && crate_name@ == d.crate_name && crate_version@ == d.crate_version,
        TransResult::Unsupported(cm) => e matches ConstError::VersionError(cc, vv, msg) && cc@
            == cm && vv@ == Seq::<char>::empty() && msg@ == "Unsupported semver operator"@,
        TransResult::NonOverlapping => e matches ConstError::NonOverlappingBoundsError {
            version_req,
            crate_name,
            crate_version,
        } && version_req@ == d.constraint.text && crate_name@ == d.crate_name && crate_version@
            == d.crate_version,
        TransResult::Translated(_) => false,
    }
}

/// The error a fold-time conflict at dependent `k` carries: the target, that
/// dependent, and every earlier dependent whose boundary it empties.
pub open spec fn multi_error_for(
    e: ConstError,
    deps: Seq<DependentModel>,
    k: int,
    target: Seq<char>,
) -> bool {
    e matches ConstError::UnsatisfiableMultipleDependentsError {
        crate_name,
        dependent,
        dependents,
    } && crate_name@ == target && dep_ref_view(dependent) == dep_ref(deps[k])
        && dependents@.map_values(|t: DependentRef| dep_ref_view(t)) == conflict_set(deps, k, k)
}

/// While the fold runs, each boundary of the accumulator is owned by the
/// tracked dependent: the boundary equals that dependent's own, and the
/// indices stay within the dependents seen.
pub proof fn lemma_fold_attribution(
    deps: Seq<DependentModel>,
    i: int,
    acc: BoundModel,
    li: int,
    ui: int,
)
    requires
        0 <= li < deps.len(),
        0 <= ui < deps.len(),
        acc.lower == dep_bound(deps[li]).lower,
        acc.upper == dep_bound(deps[ui]).upper,
    ensures
        ({
            let f = fold_deps(deps, i, acc, li, ui);
            f matches FoldResult::Folded(b, l, u) ==> 0 <= l < deps.len() && 0 <= u < deps.len()
                && b.lower == dep_bound(deps[l]).lower && b.upper == dep_bound(deps[u]).upper
        }),
    decreases deps.len() - i,
{
    if 0 <= i < deps.len() {
        let b = dep_bound(deps[i]);
        let nb = combine(acc, b);
        let nli = if tighter_as_lower(b.lower, acc.lower) {
            i
        } else {
            li
        };
        let nui = if tighter_as_upper(b.upper, acc.upper) {
            i
        } else {
            ui
        };
        if bound_valid(nb) {
            lemma_fold_attribution(deps, i + 1, nb, nli, nui);
        }
    }
}

/// The combined bound's boundaries are owned by the reported dependents: the
/// surviving lower boundary is the one declared by the dependent reported for
/// it, and likewise for the upper.
pub proof fn lemma_combined_attribution(deps: Seq<DependentModel>)
    requires
        deps.len() > 0,
        dep_translates(deps[0]),
    ensures
        ({
            let f = combined_spec(deps);
            f matches FoldResult::Folded(b, l, u) ==> 0 <= l < deps.len() && 0 <= u < deps.len()
                && b.lower == dep_bound(deps[l]).lower && b.upper == dep_bound(deps[u]).upper
        }),
{
    lemma_fold_attribution(deps, 1, dep_bound(deps[0]), 0, 0);
}

/// The plain intersection of the dependents' bounds from index `i` onward,
/// with no attribution tracking and no emptiness test.
pub open spec fn combine_all(deps: Seq<DependentModel>, i: int, acc: BoundModel) -> BoundModel
    decreases deps.len() - i,
{
    if i < 0 || i >= deps.len() {
        acc
    } else {
        combine_all(deps, i + 1, combine(acc, dep_bound(deps[i])))
    }
}

/// The interval a successful fold returns is the plain intersection of every
/// dependent's bound: the attribution tracking changes nothing about it, so
/// the resulting interval is governed by the commutativity and associativity
/// of intersection alone, and only the attribution indices depend on the fold
/// order.
pub proof fn lemma_fold_bound_is_plain_intersection(
    deps: Seq<DependentModel>,
    i: int,
    acc: BoundModel,
    li: int,
    ui: int,
)
    requires
        fold_deps(deps, i, acc, li, ui) matches FoldResult::Folded(b, l, u),
    ensures
        ({
            let f = fold_deps(deps, i, acc, li, ui);
            f matches FoldResult::Folded(b, l, u) ==> b == combine_all(deps, i, acc)
        }),
    decreases deps.len() - i,
{
    if 0 <= i < deps.len() {
        let nb = combine(acc, dep_bound(deps[i]));
        let nli = if tighter_as_lower(dep_bound(deps[i]).lower, acc.lower) {
            i
        } else {
            li
        };
        let nui = if tighter_as_upper(dep_bound(deps[i]).upper, acc.upper) {
            i
        } else {
            ui
        };
        if bound_valid(nb) {
            lemma_fold_bound_is_plain_intersection(deps, i + 1, nb, nli, nui);
        }
    }
}

/// Translates every dependent's constraint and folds the bounds in order:
/// the combined bound with the owner index of each boundary, or the first
/// translation failure, or the fold-time conflict with every implicated
/// dependent collected.
pub fn compute_combined_bound(deps: &Vec<Dependent>, target: &str) -> (r: Result<
    (Bound, usize, usize),
    ConstError,
>)
    requires
        deps@.len() > 0,
        deps_wf(deps@.map_values(|d: Dependent| d@)),
    ensures
        ({
            let dm = deps@.map_values(|d: Dependent| d@);
            let fu = first_untranslatable(dm, 0);
            if fu < dm.len() {
                r matches Err(e) && translate_error_for(e, dm[fu])
            } else {
                match combined_spec(dm) {
                    FoldResult::Conflict(k) => r matches Err(e) && multi_error_for(
                        e,
                        dm,
                        k,
                        target@,
                    ),
                    FoldResult::Folded(b, li, ui) => r matches Ok(t) && t.0@ == b && t.1 == li
                        && t.2 == ui && li < deps@.len() && ui < deps@.len() && bound_valid(b),
                }
            }
        }),
{
    let ghost dm = deps@.map_values(|d: Dependent| d@);
    let n = deps.len();
    let mut bounds: Vec<Bound> = Vec::new();
    let mut j: usize = 0;
    while j < n
        invariant
            j <= n,
            n == deps@.len(),
            dm == deps@.map_values(|d: Dependent| d@),
            deps_wf(dm),
            bounds@.len() == j,
            forall|t: int| 0 <= t < j ==> dep_translates(#[trigger] dm[t]),
            forall|t: int| 0 <= t < j ==> (#[trigger] bounds@[t])@ == dep_bound(dm[t]),
            first_untranslatable(dm, 0) == first_untranslatable(dm, j as int),
        decreases n - j,
    {
        proof {
            assert(dm[j as int] == deps@[j as int]@);
            assert(constraint_wf(dm[j as int].constraint));
        }
        match Bound::try_from(&deps[j].constraint) {
            Ok(b) => {
                bounds.push(b);
            },
            Err(e) => {
                proof {
                    assert(first_untranslatable(dm, 0) == j as int);
                }
                match e {
                    ConstError::EmptyVersionReqError { .. } => {
                        return Err(
                            ConstError::EmptyVersionReqError {
                                crate_name: deps[j].crate_name.clone(),
                                crate_version: deps[j].crate_version.clone(),
                            },
                        );
                    },
                    ConstError::NonOverlappingBoundsError { version_req, .. } => {
                        return Err(
                            ConstError::NonOverlappingBoundsError {
                                version_req,
                                crate_name: deps[j].crate_name.clone(),
                                crate_version: deps[j].crate_version.clone(),
                            },
                        );
                    },
                    other => {
                        return Err(other);
                    },
                }
            },
        }
        j = j + 1;
    }
    proof {
        assert(first_untranslatable(dm, 0) == n as int);
        lemma_translate_valid(dm[0].constraint);
    }
    let first = &bounds[0];
    let mut acc = first.clone();
    let mut li: usize = 0;
    let mut ui: usize = 0;
    let mut i: usize = 1;
    while i < n
        invariant
            1 <= i <= n,
            n == deps@.len(),
            dm == deps@.map_values(|d: Dependent| d@),
            bounds@.len() == n,
            first_untranslatable(dm, 0) == n as int,
            forall|t: int| 0 <= t < n ==> dep_translates(#[trigger] dm[t]),
            forall|t: int| 0 <= t < n ==> (#[trigger] bounds@[t])@ == dep_bound(dm[t]),
            li < i,
            ui < i,
            bound_valid(acc@),
            combined_spec(dm) == fold_deps(dm, i as int, acc@, li as int, ui as int),
        decreases n - i,
    {
        let ghost old_li = li as int;
        let ghost old_ui = ui as int;
        let ghost old_acc = acc@;
        let ghost b = dep_bound(dm[i as int]);
        let ghost nb = combine(old_acc, b);
        let lower_cmp = contains_from_lower(&acc.lower, &bounds[i].lower);
        let upper_cmp = contains_from_upper(&acc.upper, &bounds[i].upper);
        let Bound { lower: acc_lower, upper: acc_upper } = acc;
        let new_lower = if lower_cmp == Ordering::ContainsFromLower {
            bounds[i].lower.clone()
        } else {
            acc_lower
        };
        let new_upper = if upper_cmp == Ordering::ContainsFromUpper {
            bounds[i].upper.clone()
        } else {
            acc_upper
        };
        if lower_cmp == Ordering::ContainsFromLower {
            li = i;
        }
        if upper_cmp == Ordering::ContainsFromUpper {
            ui = i;
        }
        proof {
            assert(bounds@[i as int]@ == b);
            assert(new_lower@ == nb.lower);
            assert(new_upper@ == nb.upper);
        }
        if interval_empty(&new_lower, &new_upper) {
            proof {
                assert(!bound_valid(nb));
                assert(fold_deps(dm, i as int, old_acc, old_li, old_ui)
                    == FoldResult::Conflict(i as int));
            }
            let mut unmet: Vec<DependentRef> = Vec::new();
            let mut t: usize = 0;
            while t < i
                invariant
                    t <= i < n,
                    n == deps@.len(),
                    dm == deps@.map_values(|d: Dependent| d@),
                    bounds@.len() == n,
                    first_untranslatable(dm, 0) == n as int,
                    combined_spec(dm) == FoldResult::Conflict(i as int),
                    forall|s: int| 0 <= s < n ==> (#[trigger] bounds@[s])@ == dep_bound(dm[s]),
                    unmet@.map_values(|x: DependentRef| dep_ref_view(x)) == conflict_set(
                        dm,
                        i as int,
                        t as int,
                    ),
                decreases i - t,
            {
                if interval_empty(&bounds[t].lower, &bounds[i].upper) || interval_empty(
                    &bounds[i].lower,
                    &bounds[t].upper,
                ) {
                    let entry = (
                        (deps[t].crate_name.clone(), deps[t].crate_version.clone()),
                        deps[t].constraint.text.clone(),
                    );
                    unmet.push(entry);
                    proof {
                        assert(unmet@.map_values(|x: DependentRef| dep_ref_view(x)) =~= conflict_set(
                            dm,
                            i as int,
                            t + 1,
                        ));
                    }
                } else {
                    proof {
                        assert(unmet@.map_values(|x: DependentRef| dep_ref_view(x)) =~= conflict_set(
                            dm,
                            i as int,
                            t + 1,
                        ));
                    }
                }
                t = t + 1;
            }
            return Err(
                ConstError::UnsatisfiableMultipleDependentsError {
                    crate_name: target.to_owned(),
                    dependent: (
                        (deps[i].crate_name.clone(), deps[i].crate_version.clone()),
                        deps[i].constraint.text.clone(),
                    ),
                    dependents: unmet,
                },
            );
        }
        acc = Bound { lower: new_lower, upper: new_upper };
        proof {
            assert(acc@ =~= nb);
        }
        i = i + 1;
    }
    Ok((acc, li, ui))
}

/// The engine, end to end: given every dependent of the target package with
/// its constraint, and the target's published versions sorted ascending by
/// precedence, returns the inclusive index range of the versions that satisfy
/// every dependent — or the attributed reason none does: no dependent at all,
/// a constraint that does not translate, a fold-time conflict naming every
/// implicated dependent, or a valid interval that no published release
/// populates, attributed to the dependent(s) owning its boundaries.
pub fn find_packed_bound(
    deps: &Vec<Dependent>,
    versions: &Vec<ParsedVersion>,
    crate_to_find: &str,
) -> (r: Result<(usize, usize), ConstError>)
    requires
        sorted_by_num(versions@),
        deps_wf(deps@.map_values(|d: Dependent| d@)),
    ensures
        ({
            let dm = deps@.map_values(|d: Dependent| d@);
            let fu = first_untranslatable(dm, 0);
            if dm.len() == 0 {
                r matches Err(e) && e matches ConstError::NoMatchingDependentError(c) && c@
                    == crate_to_find@
            } else if fu < dm.len() {
                r matches Err(e) && translate_error_for(e, dm[fu])
            } else {
                match combined_spec(dm) {
                    FoldResult::Conflict(k) => r matches Err(e) && multi_error_for(
                        e,
                        dm,
                        k,
                        crate_to_find@,
                    ),
                    FoldResult::Folded(b, li, ui) => {
                        if exists|i: int|
                            0 <= i < versions@.len() && in_bound(
                                b,
                                #[trigger] versions@[i]@.num,
                            ) {
                            r matches Ok(t) && t.0 <= t.1 < versions@.len() && forall|i: int|
                                0 <= i < versions@.len() ==> (in_bound(
                                    b,
                                    #[trigger] versions@[i]@.num,
                                ) <==> t.0 <= i <= t.1)
                        } else if li == ui {
                            r matches Err(e) && e
                                matches ConstError::UnsatisfiableSingleDependentError {
                                    crate_name,
                                    dependent,
                                } && crate_name@ == crate_to_find@ && dep_ref_view(dependent)
                                == dep_ref(dm[li])
                        } else {
                            r matches Err(e) && e
                                matches ConstError::UnsatisfiableBoundDependentsError {
                                    crate_name,
                                    lower,
                                    upper,
                                } && crate_name@ == crate_to_find@ && dep_ref_view(lower)
                                == dep_ref(dm[li]) && dep_ref_view(upper) == dep_ref(dm[ui])
                        }
                    },
                }
            }
        }),
{
    if deps.len() == 0 {
        return Err(ConstError::NoMatchingDependentError(crate_to_find.to_owned()));
    }
    let (bound, li, ui) = match compute_combined_bound(deps, crate_to_find) {
        Ok(t) => t,
        Err(e) => {
            return Err(e);
        },
    };
    match locate_versions(&bound, versions) {
        Some((lo, hi)) => Ok((lo, hi)),
        None => {
            if li == ui {
                Err(
                    ConstError::UnsatisfiableSingleDependentError {
                        crate_name: crate_to_find.to_owned(),
                        dependent: (
                            (deps[li].crate_name.clone(), deps[li].crate_version.clone()),
                            deps[li].constraint.text.clone(),
                        ),
                    },
                )
            } else {
                Err(
                    ConstError::UnsatisfiableBoundDependentsError {
                        crate_name: crate_to_find.to_owned(),
                        lower: (
                            (deps[li].crate_name.clone(), deps[li].crate_version.clone()),
                            deps[li].constraint.text.clone(),
                        ),
                        upper: (
                            (deps[ui].crate_name.clone(), deps[ui].crate_version.clone()),
                            deps[ui].constraint.text.clone(),
                        ),
                    },
                )
            }
        },
    }
}

} // verus!
