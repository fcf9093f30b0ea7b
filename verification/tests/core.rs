use cargo_compat::bound::{combine_bounds, Bound, Ordering};
use cargo_compat::compat::Count;
use cargo_compat::error::ConstError;
use cargo_compat::req::{Comparator, Op};
use cargo_compat::utils::get_rust_version;
use cargo_compat::version::{PreIdent, Version, VersionCmp};

fn v(major: u64, minor: u64, patch: u64) -> Version {
    Version { major, minor, patch, pre: Vec::new() }
}

fn v_pre(major: u64, minor: u64, patch: u64, pre: Vec<PreIdent>) -> Version {
    Version { major, minor, patch, pre }
}

fn comp(op: Op, major: u64, minor: Option<u64>, patch: Option<u64>) -> Comparator {
    Comparator { op, major, minor, patch, pre: Vec::new() }
}

fn assert_version_eq(a: &Version, b: &Version) {
    assert!(matches!(a.cmp_precedence(b), VersionCmp::Equal));
}

fn semver_pre_to_idents(pre: &semver::Prerelease) -> Vec<PreIdent> {
    if pre.is_empty() {
        return Vec::new();
    }
    pre.as_str()
        .split('.')
        .map(|part| {
            if !part.is_empty() && part.bytes().all(|b| b.is_ascii_digit()) {
                PreIdent::Num(part.parse().unwrap())
            } else {
                PreIdent::Alpha(part.as_bytes().to_vec())
            }
        })
        .collect()
}

fn from_semver(s: &str) -> Version {
    let sv = semver::Version::parse(s).unwrap();
    Version {
        major: sv.major,
        minor: sv.minor,
        patch: sv.patch,
        pre: semver_pre_to_idents(&sv.pre),
    }
}

#[test]
fn precedence_matches_semver_on_prerelease_chain() {
    let chain = [
        "1.0.0-alpha",
        "1.0.0-alpha.1",
        "1.0.0-alpha.beta",
        "1.0.0-beta",
        "1.0.0-beta.2",
        "1.0.0-beta.11",
        "1.0.0-rc.1",
        "1.0.0",
        "1.0.1",
        "1.1.0",
        "2.0.0-0",
        "2.0.0",
    ];
    for (i, a) in chain.iter().enumerate() {
        for (j, b) in chain.iter().enumerate() {
            let mine = from_semver(a).cmp_precedence(&from_semver(b));
            let sa = semver::Version::parse(a).unwrap();
            let sb = semver::Version::parse(b).unwrap();
            let theirs = sa.cmp_precedence(&sb);
            let expected = match theirs {
                std::cmp::Ordering::Less => VersionCmp::Less,
                std::cmp::Ordering::Equal => VersionCmp::Equal,
                std::cmp::Ordering::Greater => VersionCmp::Greater,
            };
            assert_eq!(mine, expected, "mismatch at {} vs {} ({} {})", a, b, i, j);
        }
    }
}

#[test]
fn build_metadata_is_excluded_from_precedence() {
    let a = from_semver("1.2.3+build.7");
    let b = from_semver("1.2.3");
    assert_eq!(a.cmp_precedence(&b), VersionCmp::Equal);
}

#[test]
fn translate_caret_bumps_major() {
    let b = Bound::from_comparator(&comp(Op::Caret, 1, Some(2), Some(0))).unwrap();
    assert_version_eq(&b.lower.version, &v(1, 2, 0));
    assert!(b.lower.inclusive);
    assert_version_eq(&b.upper.version, &v(2, 0, 0));
    assert!(!b.upper.inclusive);
}

#[test]
fn translate_tilde_bumps_minor_and_resets_patch() {
    let b = Bound::from_comparator(&comp(Op::Tilde, 1, Some(3), Some(2))).unwrap();
    assert_version_eq(&b.lower.version, &v(1, 3, 2));
    assert!(b.lower.inclusive);
    assert_version_eq(&b.upper.version, &v(1, 4, 0));
    assert!(!b.upper.inclusive);
}

#[test]
fn translate_defaults_missing_places_to_zero() {
    let b = Bound::from_comparator(&comp(Op::Caret, 1, None, None)).unwrap();
    assert_version_eq(&b.lower.version, &v(1, 0, 0));
    assert_version_eq(&b.upper.version, &v(2, 0, 0));
    let t = Bound::from_comparator(&comp(Op::Tilde, 1, None, None)).unwrap();
    assert_version_eq(&t.upper.version, &v(1, 1, 0));
}

#[test]
fn translate_exact_is_inclusive_on_both_sides() {
    let b = Bound::from_comparator(&comp(Op::Exact, 1, Some(2), Some(3))).unwrap();
    assert_version_eq(&b.lower.version, &v(1, 2, 3));
    assert_version_eq(&b.upper.version, &v(1, 2, 3));
    assert!(b.lower.inclusive && b.upper.inclusive);
}

#[test]
fn translate_greater_is_exclusive_below_and_open_above() {
    let b = Bound::from_comparator(&comp(Op::Greater, 1, Some(0), Some(0))).unwrap();
    assert!(!b.lower.inclusive);
    assert_version_eq(&b.upper.version, &v(u64::MAX, u64::MAX, u64::MAX));
    assert!(b.upper.inclusive);
    let ge = Bound::from_comparator(&comp(Op::GreaterEq, 1, Some(0), Some(0))).unwrap();
    assert!(ge.lower.inclusive);
}

#[test]
fn translate_less_is_open_below_and_exclusive_above() {
    let b = Bound::from_comparator(&comp(Op::Less, 1, Some(0), Some(0))).unwrap();
    assert_version_eq(&b.lower.version, &v(0, 0, 0));
    assert!(b.lower.inclusive);
    assert!(!b.upper.inclusive);
    let le = Bound::from_comparator(&comp(Op::LessEq, 1, Some(0), Some(0))).unwrap();
    assert!(le.upper.inclusive);
}

#[test]
fn translate_wildcard_spans_everything() {
    let b = Bound::from_comparator(&comp(Op::Wildcard, 0, None, None)).unwrap();
    assert_version_eq(&b.lower.version, &v(0, 0, 0));
    assert_version_eq(&b.upper.version, &v(u64::MAX, u64::MAX, u64::MAX));
}

#[test]
fn translate_carries_prerelease_verbatim() {
    let c = Comparator {
        op: Op::Caret,
        major: 1,
        minor: Some(0),
        patch: Some(0),
        pre: vec![PreIdent::Alpha(b"alpha".to_vec()), PreIdent::Num(1)],
    };
    let b = Bound::from_comparator(&c).unwrap();
    let expected = v_pre(1, 0, 0, vec![PreIdent::Alpha(b"alpha".to_vec()), PreIdent::Num(1)]);
    assert_version_eq(&b.lower.version, &expected);
    assert!(b.upper.version.pre.is_empty());
}

#[test]
fn translate_rejects_unknown_operator() {
    let r = Bound::from_comparator(&comp(Op::Unknown, 1, None, None));
    match r {
        Err(ConstError::VersionError(c, _, msg)) => {
            assert!(matches!(c.op, Op::Unknown));
            assert_eq!(msg, "Unsupported semver operator");
        }
        _ => panic!("expected an unsupported-operator error"),
    }
}

fn bound(lo: Version, lo_inc: bool, hi: Version, hi_inc: bool) -> Bound {
    Bound {
        lower: cargo_compat::bound::Range { version: lo, inclusive: lo_inc },
        upper: cargo_compat::bound::Range { version: hi, inclusive: hi_inc },
    }
}

fn bounds_equal(a: &Bound, b: &Bound) -> bool {
    matches!(a.lower.version.cmp_precedence(&b.lower.version), VersionCmp::Equal)
        && a.lower.inclusive == b.lower.inclusive
        && matches!(a.upper.version.cmp_precedence(&b.upper.version), VersionCmp::Equal)
        && a.upper.inclusive == b.upper.inclusive
}

#[test]
fn combine_is_idempotent_on_a_valid_bound() {
    let b = bound(v(1, 2, 0), true, v(2, 0, 0), false);
    let combined = combine_bounds(&b, &b).unwrap();
    assert!(bounds_equal(&combined, &b));
}

#[test]
fn combine_is_commutative_on_samples() {
    let samples = [
        (bound(v(1, 2, 0), true, v(2, 0, 0), false), bound(v(1, 3, 0), true, v(1, 4, 0), false)),
        (bound(v(0, 1, 0), false, v(3, 0, 0), true), bound(v(0, 2, 0), true, v(2, 9, 9), false)),
        (bound(v(1, 0, 0), true, v(1, 0, 0), true), bound(v(1, 0, 0), false, v(2, 0, 0), true)),
    ];
    for (a, b) in samples.iter() {
        match (combine_bounds(a, b), combine_bounds(b, a)) {
            (Some(x), Some(y)) => assert!(bounds_equal(&x, &y)),
            (None, None) => {}
            _ => panic!("combination order changed the outcome"),
        }
    }
}

#[test]
fn combine_is_associative_on_a_sample() {
    let a = bound(v(1, 0, 0), true, v(3, 0, 0), true);
    let b = bound(v(1, 5, 0), true, v(2, 5, 0), false);
    let c = bound(v(1, 2, 0), false, v(2, 0, 0), true);
    let left = combine_bounds(&combine_bounds(&a, &b).unwrap(), &c).unwrap();
    let right = combine_bounds(&a, &combine_bounds(&b, &c).unwrap()).unwrap();
    assert!(bounds_equal(&left, &right));
}

#[test]
fn combine_detects_disjoint_bounds() {
    let a = bound(v(2, 0, 0), true, v(3, 0, 0), true);
    let b = bound(v(0, 0, 0), true, v(1, 0, 0), false);
    assert!(combine_bounds(&a, &b).is_none());
}

#[test]
fn combine_equal_versions_exclusive_wins() {
    // [1.0.0, 2.0.0 incl] against [0.5.0, 2.0.0 excl): the exclusive upper is
    // the tighter one.
    let a = bound(v(1, 0, 0), true, v(2, 0, 0), true);
    let b = bound(v(0, 5, 0), true, v(2, 0, 0), false);
    let c = combine_bounds(&a, &b).unwrap();
    assert!(!c.upper.inclusive);
    assert_version_eq(&c.upper.version, &v(2, 0, 0));
}

#[test]
fn contains_from_lower_prefers_larger_version() {
    let a = cargo_compat::bound::Range { version: v(1, 0, 0), inclusive: true };
    let b = cargo_compat::bound::Range { version: v(1, 5, 0), inclusive: true };
    assert_eq!(cargo_compat::bound::contains_from_lower(&a, &b), Ordering::ContainsFromLower);
    assert_eq!(cargo_compat::bound::contains_from_lower(&b, &a), Ordering::ContainsFromUpper);
}

#[test]
fn contains_from_upper_prefers_smaller_version() {
    let a = cargo_compat::bound::Range { version: v(1, 0, 0), inclusive: true };
    let b = cargo_compat::bound::Range { version: v(1, 5, 0), inclusive: true };
    assert_eq!(cargo_compat::bound::contains_from_upper(&a, &b), Ordering::ContainsFromLower);
    assert_eq!(cargo_compat::bound::contains_from_upper(&b, &a), Ordering::ContainsFromUpper);
}

#[test]
fn role_aware_comparison_differs_at_equal_versions() {
    // At equal versions the exclusive boundary is tighter in either role, so
    // the two roles answer in opposite directions.
    let incl = cargo_compat::bound::Range { version: v(1, 0, 0), inclusive: true };
    let excl = cargo_compat::bound::Range { version: v(1, 0, 0), inclusive: false };
    assert_eq!(cargo_compat::bound::contains_from_lower(&incl, &excl), Ordering::ContainsFromLower);
    assert_eq!(cargo_compat::bound::contains_from_upper(&incl, &excl), Ordering::ContainsFromUpper);
    assert_eq!(cargo_compat::bound::contains_from_lower(&incl, &incl), Ordering::Equal);
}

#[test]
fn empty_constraint_is_rejected() {
    let c = cargo_compat::req::Constraint { comparators: Vec::new(), text: String::new() };
    assert!(matches!(
        Bound::try_from(&c),
        Err(ConstError::EmptyVersionReqError { .. })
    ));
}

#[test]
fn get_rust_version_parses_full_triples() {
    assert_eq!(get_rust_version("1.70.3"), Some((1, 70, 3)));
    assert_eq!(get_rust_version("0.9.0"), Some((0, 9, 0)));
}

#[test]
fn get_rust_version_defaults_missing_places() {
    assert_eq!(get_rust_version("1.70"), Some((1, 70, 0)));
    assert_eq!(get_rust_version("1"), Some((1, 0, 0)));
}

#[test]
fn get_rust_version_rejects_non_numbers() {
    assert_eq!(get_rust_version(""), None);
    assert_eq!(get_rust_version("abc"), None);
    assert_eq!(get_rust_version("1..2"), None);
    assert_eq!(get_rust_version("1.x"), None);
    assert_eq!(get_rust_version("1."), None);
}

#[test]
fn get_rust_version_ignores_places_past_the_third() {
    assert_eq!(get_rust_version("1.2.3.junk"), Some((1, 2, 3)));
}

#[test]
fn get_rust_version_rejects_overflow() {
    assert_eq!(get_rust_version("99999999999999999999999"), None);
}

#[test]
fn count_parses_all_and_numbers() {
    assert!(matches!(Count::from_str("all"), Ok(Count::All)));
    assert!(matches!(Count::from_str("5"), Ok(Count::Count(5))));
    assert!(matches!(Count::from_str("0"), Ok(Count::Count(0))));
}

#[test]
fn count_rejects_other_words() {
    match Count::from_str("many") {
        Err(ConstError::InvalidCountArgument { argument }) => assert_eq!(argument, "many"),
        _ => panic!("expected an invalid-count error"),
    }
}

#[test]
fn now_as_secs_runs() {
    // Nothing is promised of the clock; the call must simply work.
    let _ = cargo_compat::utils::now_as_secs();
}

#[test]
fn count_accepts_a_leading_plus_sign() {
    assert!(matches!(Count::from_str("+7"), Ok(Count::Count(7))));
}

#[test]
fn count_rejects_overflowing_numbers() {
    assert!(matches!(
        Count::from_str("99999999999999999999999"),
        Err(ConstError::InvalidCountArgument { .. })
    ));
}
