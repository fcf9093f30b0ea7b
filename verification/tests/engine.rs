use cargo_compat::bound::{Bound, Range};
use cargo_compat::compat::{Compat, Count};
use cargo_compat::error::ConstError;
use cargo_compat::locate::locate_versions;
use cargo_compat::provider::{ParsedCrateDependency, ParsedDependency, ParsedVersion};
use cargo_compat::req::{Comparator, Constraint, Op};
use cargo_compat::resolve::{compute_combined_bound, find_dependents, find_dependency, find_packed_bound, Dependent, Package};
use cargo_compat::version::{Version, VersionCmp};

fn v(major: u64, minor: u64, patch: u64) -> Version {
    Version { major, minor, patch, pre: Vec::new() }
}

fn comp(op: Op, major: u64, minor: Option<u64>, patch: Option<u64>) -> Comparator {
    Comparator { op, major, minor, patch, pre: Vec::new() }
}

fn constraint(text: &str, comparators: Vec<Comparator>) -> Constraint {
    Constraint { comparators, text: text.to_owned() }
}

fn dependent(name: &str, version: &str, c: Constraint) -> Dependent {
    Dependent {
        crate_name: name.to_owned(),
        crate_version: version.to_owned(),
        constraint: c,
    }
}

fn published(nums: &[(u64, u64, u64)]) -> Vec<ParsedVersion> {
    nums.iter()
        .map(|&(a, b, c)| ParsedVersion { yanked: false, num: v(a, b, c), rust_version: None })
        .collect()
}

fn assert_version_eq(a: &Version, b: &Version) {
    assert!(matches!(a.cmp_precedence(b), VersionCmp::Equal));
}

#[test]
fn scenario_caret_and_tilde_combine_to_the_tighter_window() {
    // A requires ^1.2.0, B requires ~1.3.0; the combination is
    // [1.3.0 incl, 1.4.0 excl), which covers 1.3.0 and 1.3.5.
    let deps = vec![
        dependent("a", "0.1.0", constraint("^1.2.0", vec![comp(Op::Caret, 1, Some(2), Some(0))])),
        dependent("b", "0.1.0", constraint("~1.3.0", vec![comp(Op::Tilde, 1, Some(3), Some(0))])),
    ];
    let versions = published(&[(1, 2, 0), (1, 3, 0), (1, 3, 5), (1, 4, 0), (2, 0, 0)]);
    let r = find_packed_bound(&deps, &versions, "target").unwrap();
    assert_eq!(r, (1, 2));
}

#[test]
fn scenario_combined_bound_fields() {
    let deps = vec![
        dependent("a", "0.1.0", constraint("^1.2.0", vec![comp(Op::Caret, 1, Some(2), Some(0))])),
        dependent("b", "0.1.0", constraint("~1.3.0", vec![comp(Op::Tilde, 1, Some(3), Some(0))])),
    ];
    let (bound, li, ui) = compute_combined_bound(&deps, "target").unwrap();
    assert_version_eq(&bound.lower.version, &v(1, 3, 0));
    assert!(bound.lower.inclusive);
    assert_version_eq(&bound.upper.version, &v(1, 4, 0));
    assert!(!bound.upper.inclusive);
    // B owns both surviving boundaries.
    assert_eq!((li, ui), (1, 1));
}

#[test]
fn scenario_disjoint_dependents_are_reported_together() {
    // A requires >=2.0.0, B requires <1.0.0: B's bound empties the interval
    // accumulated from A, so the conflict names B against A.
    let deps = vec![
        dependent("a", "0.1.0", constraint(">=2.0.0", vec![comp(Op::GreaterEq, 2, Some(0), Some(0))])),
        dependent("b", "0.2.0", constraint("<1.0.0", vec![comp(Op::Less, 1, Some(0), Some(0))])),
    ];
    let versions = published(&[(1, 5, 0)]);
    match find_packed_bound(&deps, &versions, "target") {
        Err(ConstError::UnsatisfiableMultipleDependentsError { crate_name, dependent, dependents }) => {
            assert_eq!(crate_name, "target");
            assert_eq!(dependent.0 .0, "b");
            assert_eq!(dependent.0 .1, "0.2.0");
            assert_eq!(dependent.1, "<1.0.0");
            assert_eq!(dependents.len(), 1);
            assert_eq!(dependents[0].0 .0, "a");
            assert_eq!(dependents[0].1, ">=2.0.0");
        }
        _ => panic!("expected the conflict to name both dependents"),
    }
}

#[test]
fn scenario_self_contradictory_constraint_fails_at_translation() {
    // A single dependent requiring >1.0.0, <1.0.0 fails before any fold
    // across dependents.
    let c = constraint(
        ">1.0.0, <1.0.0",
        vec![comp(Op::Greater, 1, Some(0), Some(0)), comp(Op::Less, 1, Some(0), Some(0))],
    );
    match Bound::try_from(&c) {
        Err(ConstError::NonOverlappingBoundsError { version_req, .. }) => {
            assert_eq!(version_req, ">1.0.0, <1.0.0");
        }
        _ => panic!("expected non-overlapping bounds"),
    }
    // Through the fold, the same failure carries the dependent's identity.
    let deps = vec![dependent(
        "a",
        "0.1.0",
        constraint(
            ">1.0.0, <1.0.0",
            vec![comp(Op::Greater, 1, Some(0), Some(0)), comp(Op::Less, 1, Some(0), Some(0))],
        ),
    )];
    let versions = published(&[(1, 0, 0)]);
    match find_packed_bound(&deps, &versions, "target") {
        Err(ConstError::NonOverlappingBoundsError { version_req, crate_name, crate_version }) => {
            assert_eq!(version_req, ">1.0.0, <1.0.0");
            assert_eq!(crate_name, "a");
            assert_eq!(crate_version, "0.1.0");
        }
        _ => panic!("expected non-overlapping bounds with identity"),
    }
}

#[test]
fn scenario_valid_bound_with_no_release_single_dependent() {
    // One dependent owns both boundaries of [1.0.0 incl, 2.0.0 excl) and no
    // published release falls inside it.
    let deps = vec![dependent(
        "a",
        "0.1.0",
        constraint(
            ">=1.0.0, <2.0.0",
            vec![comp(Op::GreaterEq, 1, Some(0), Some(0)), comp(Op::Less, 2, Some(0), Some(0))],
        ),
    )];
    let versions = published(&[(0, 9, 0), (2, 0, 0), (2, 1, 0)]);
    match find_packed_bound(&deps, &versions, "target") {
        Err(ConstError::UnsatisfiableSingleDependentError { crate_name, dependent }) => {
            assert_eq!(crate_name, "target");
            assert_eq!(dependent.0 .0, "a");
            assert_eq!(dependent.1, ">=1.0.0, <2.0.0");
        }
        _ => panic!("expected the single-dependent attribution"),
    }
}

#[test]
fn scenario_valid_bound_with_no_release_two_dependents() {
    // A owns the surviving lower boundary, B the upper; nothing is published
    // between them.
    let deps = vec![
        dependent("a", "0.1.0", constraint(">=1.0.0", vec![comp(Op::GreaterEq, 1, Some(0), Some(0))])),
        dependent("b", "0.2.0", constraint("<2.0.0", vec![comp(Op::Less, 2, Some(0), Some(0))])),
    ];
    let versions = published(&[(0, 9, 0), (2, 0, 0), (2, 1, 0)]);
    match find_packed_bound(&deps, &versions, "target") {
        Err(ConstError::UnsatisfiableBoundDependentsError { crate_name, lower, upper }) => {
            assert_eq!(crate_name, "target");
            assert_eq!(lower.0 .0, "a");
            assert_eq!(lower.1, ">=1.0.0");
            assert_eq!(upper.0 .0, "b");
            assert_eq!(upper.1, "<2.0.0");
        }
        _ => panic!("expected the pairwise attribution"),
    }
}

#[test]
fn locate_exact_inclusive_match_returns_that_position() {
    let versions = published(&[(1, 2, 0), (1, 3, 0), (1, 4, 0)]);
    let bound = Bound {
        lower: Range { version: v(1, 3, 0), inclusive: true },
        upper: Range { version: v(1, 3, 0), inclusive: true },
    };
    assert_eq!(locate_versions(&bound, &versions), Some((1, 1)));
}

#[test]
fn locate_exclusive_lower_starts_one_past_the_match() {
    let versions = published(&[(1, 2, 0), (1, 3, 0), (1, 4, 0)]);
    let bound = Bound {
        lower: Range { version: v(1, 3, 0), inclusive: false },
        upper: Range { version: v(9, 0, 0), inclusive: true },
    };
    assert_eq!(locate_versions(&bound, &versions), Some((2, 2)));
}

#[test]
fn locate_finds_nothing_outside_the_interval() {
    let versions = published(&[(0, 9, 0), (2, 0, 0), (2, 1, 0)]);
    let bound = Bound {
        lower: Range { version: v(1, 0, 0), inclusive: true },
        upper: Range { version: v(2, 0, 0), inclusive: false },
    };
    assert_eq!(locate_versions(&bound, &versions), None);
}

#[test]
fn no_dependent_at_all_is_its_own_error() {
    let deps: Vec<Dependent> = Vec::new();
    let versions = published(&[(1, 0, 0)]);
    match find_packed_bound(&deps, &versions, "target") {
        Err(ConstError::NoMatchingDependentError(name)) => assert_eq!(name, "target"),
        _ => panic!("expected the no-dependent error"),
    }
}

#[test]
fn empty_requirement_is_attributed_to_its_dependent() {
    let deps = vec![dependent("a", "0.1.0", constraint("", Vec::new()))];
    let versions = published(&[(1, 0, 0)]);
    match find_packed_bound(&deps, &versions, "target") {
        Err(ConstError::EmptyVersionReqError { crate_name, crate_version }) => {
            assert_eq!(crate_name, "a");
            assert_eq!(crate_version, "0.1.0");
        }
        _ => panic!("expected the empty-requirement error"),
    }
}

#[test]
fn find_dependents_filters_by_dependency_name() {
    let packages = vec![
        Package {
            name: "uses_target".to_owned(),
            version: "0.1.0".to_owned(),
            dependencies: vec!["target".to_owned(), "other".to_owned()],
        },
        Package {
            name: "unrelated".to_owned(),
            version: "0.2.0".to_owned(),
            dependencies: vec!["other".to_owned()],
        },
        Package {
            name: "cargo_compat".to_owned(),
            version: "0.3.0".to_owned(),
            dependencies: vec!["target".to_owned()],
        },
        Package {
            name: "also_uses_target".to_owned(),
            version: "0.4.0".to_owned(),
            dependencies: vec!["target".to_owned()],
        },
    ];
    let r = find_dependents(&packages, "target");
    assert_eq!(r.len(), 2);
    assert_eq!(r[0].0, "uses_target");
    assert_eq!(r[0].1, "0.1.0");
    assert_eq!(r[1].0, "also_uses_target");
}

#[test]
fn find_dependency_returns_first_match_or_mismatch() {
    let parsed = ParsedCrateDependency {
        dependencies: vec![
            ParsedDependency { crate_id: "other".to_owned(), version_req: constraint("*", vec![comp(Op::Wildcard, 0, None, None)]) },
            ParsedDependency { crate_id: "target".to_owned(), version_req: constraint("^1", vec![comp(Op::Caret, 1, None, None)]) },
        ],
    };
    assert_eq!(find_dependency(&parsed, "target", "a", "0.1.0").unwrap(), 1);
    match find_dependency(&parsed, "absent", "a", "0.1.0") {
        Err(ConstError::DependencyMismatchFromCargoLock { crate_name, crate_version, dependency }) => {
            assert_eq!(crate_name, "a");
            assert_eq!(crate_version, "0.1.0");
            assert_eq!(dependency, "absent");
        }
        _ => panic!("expected the mismatch error"),
    }
}

fn compat(include_yanked: bool, count: Count, max_version: Option<&str>) -> Compat {
    Compat {
        include_yanked,
        count,
        path: "Cargo.lock".to_owned(),
        max_version: max_version.map(|s| s.to_owned()),
        dependency: "target".to_owned(),
    }
}

#[test]
fn select_versions_lists_latest_first_and_caps_the_count() {
    let versions = published(&[(1, 0, 0), (1, 1, 0), (1, 2, 0), (1, 3, 0)]);
    let c = compat(false, Count::Count(2), None);
    let r = c.select_versions(&versions, 0, 3).unwrap();
    assert_eq!(r, vec![3, 2]);
    let all = compat(false, Count::All, None);
    assert_eq!(all.select_versions(&versions, 1, 3).unwrap(), vec![3, 2, 1]);
}

#[test]
fn select_versions_skips_yanked_unless_asked() {
    let mut versions = published(&[(1, 0, 0), (1, 1, 0), (1, 2, 0)]);
    versions[2].yanked = true;
    let c = compat(false, Count::All, None);
    assert_eq!(c.select_versions(&versions, 0, 2).unwrap(), vec![1, 0]);
    let with_yanked = compat(true, Count::All, None);
    assert_eq!(with_yanked.select_versions(&versions, 0, 2).unwrap(), vec![2, 1, 0]);
}

#[test]
fn select_versions_reports_only_yanked() {
    let mut versions = published(&[(1, 0, 0), (1, 1, 0)]);
    versions[0].yanked = true;
    versions[1].yanked = true;
    let c = compat(false, Count::All, None);
    match c.select_versions(&versions, 0, 1) {
        Err(ConstError::OnlyYankedVersionExistsError { crate_name }) => {
            assert_eq!(crate_name, "target");
        }
        _ => panic!("expected the only-yanked error"),
    }
}

#[test]
fn select_versions_rejects_a_bad_max_rust_version() {
    let versions = published(&[(1, 0, 0)]);
    let c = compat(false, Count::All, Some("not-a-version"));
    match c.select_versions(&versions, 0, 0) {
        Err(ConstError::InvalidMaxRustVersionError(s)) => assert_eq!(s, "not-a-version"),
        _ => panic!("expected the invalid-max-rust-version error"),
    }
}

#[test]
fn select_versions_filters_by_max_rust_version() {
    let mut versions = published(&[(1, 0, 0), (1, 1, 0), (1, 2, 0)]);
    versions[1].rust_version = Some("1.60".to_owned());
    versions[2].rust_version = Some("1.75.0".to_owned());
    let c = compat(false, Count::All, Some("1.70"));
    // 1.2.0 needs rust 1.75.0, above the requested maximum; the others stay.
    assert_eq!(c.select_versions(&versions, 0, 2).unwrap(), vec![1, 0]);
}

#[test]
fn select_versions_reports_an_unsatisfiable_max_rust_version() {
    let mut versions = published(&[(1, 0, 0)]);
    versions[0].rust_version = Some("1.75.0".to_owned());
    let c = compat(false, Count::All, Some("1.60"));
    match c.select_versions(&versions, 0, 0) {
        Err(ConstError::UnsatisfiableMaxRustVersionError(s)) => assert_eq!(s, "1.60"),
        _ => panic!("expected the unsatisfiable-max-rust-version error"),
    }
}

#[test]
fn prerelease_bounds_flow_through_the_engine() {
    // A dependent pinning a prerelease exactly locates just that release.
    let pre = Version {
        major: 1,
        minor: 0,
        patch: 0,
        pre: vec![cargo_compat::version::PreIdent::Alpha(b"alpha".to_vec())],
    };
    let versions = vec![
        ParsedVersion { yanked: false, num: pre, rust_version: None },
        ParsedVersion { yanked: false, num: v(1, 0, 0), rust_version: None },
        ParsedVersion { yanked: false, num: v(1, 1, 0), rust_version: None },
    ];
    let deps = vec![dependent(
        "a",
        "0.1.0",
        constraint(
            "=1.0.0-alpha",
            vec![Comparator {
                op: Op::Exact,
                major: 1,
                minor: Some(0),
                patch: Some(0),
                pre: vec![cargo_compat::version::PreIdent::Alpha(b"alpha".to_vec())],
            }],
        ),
    )];
    assert_eq!(find_packed_bound(&deps, &versions, "target").unwrap(), (0, 0));
}
