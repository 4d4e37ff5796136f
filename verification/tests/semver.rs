use nsis_tauri_utils::semver_compare::{
    compare_versions, parse_semver, semver_compare, InvalidVersion, Order, Version,
};

#[test]
fn it_works() {
    for (v1, v2, ret) in [
        ("1.2.1", "1.2.0", 1),
        ("1.2.0", "1.2.1", -1),
        ("1.2.1", "1.2.1", 0),
        ("1.2.1-alpha.1", "1.2.1-beta.5", -1),
        ("1.2.1-rc.1", "1.2.1-beta.1", 1),
        ("1.2.1-alpha.1", "1.2.1-alpha.1", 0),
        ("1.2qe2.1-alpha.1", "1.2.1-alpha.1", -1),
        ("1.2.1-alpha.1", "-q1.2.1-alpha.1", 1),
        ("1.2.saf1-alpha.1", "-q1.2.1-alpha.1", 0),
        ("1.0.0-aluc.0", "1.0.0", -1),
        (" 1.0.0-aluc.1", "1.0.0-bdfsf.0", -1),
        ("1.2.1-fffasd.1", "1.2.1-dasdqwe.1", 1),
        ("1.2.1-gasfdlkj.1", "1.2.1-calskjd.1", 1),
    ] {
        assert_eq!(semver_compare(v1, v2), ret);
    }
}

#[test]
fn numbers_are_compared_numerically() {
    assert_eq!(semver_compare("1.10.0", "1.9.0"), 1);
    assert_eq!(semver_compare("2.0.0", "10.0.0"), -1);
    assert_eq!(semver_compare("0.0.2", "0.0.10"), -1);
}

#[test]
fn prerelease_identifiers_follow_semver_precedence() {
    assert_eq!(semver_compare("1.0.0-beta.2", "1.0.0-beta.11"), -1);
    assert_eq!(semver_compare("1.0.0-alpha", "1.0.0-alpha.1"), -1);
    assert_eq!(semver_compare("1.0.0-alpha.1", "1.0.0-alpha.beta"), -1);
    assert_eq!(semver_compare("1.0.0-rc.1", "1.0.0"), -1);
}

#[test]
fn build_metadata_takes_part_in_the_order() {
    assert_eq!(semver_compare("1.20.0+bc17664", "1.20.0+c144a98"), -1);
    assert_eq!(semver_compare("1.20.0", "1.20.0+bc17664"), -1);
    assert_eq!(semver_compare("1.0.0+build.5", "1.0.0+build.5"), 0);
}

#[test]
fn unparsable_texts() {
    assert_eq!(semver_compare("1.0", "1.0.0"), -1);
    assert_eq!(semver_compare("1.0.0", "1.0.01"), 1);
    assert_eq!(semver_compare("1.0.0-", "abc"), 0);
    assert_eq!(semver_compare("", ""), 0);
}

#[test]
fn comparison_is_antisymmetric_and_reflexive() {
    let texts = ["1.0.0", "1.0.0-alpha", "1.0.0+x", "bad", "0.9.9", "1.0.0-alpha.1"];
    for a in texts {
        assert_eq!(semver_compare(a, a), 0);
        for b in texts {
            assert_eq!(semver_compare(a, b), -semver_compare(b, a));
        }
    }
}

#[test]
fn compare_versions_on_parsed_values() {
    let a = Version { major: 1, minor: 2, patch: 3, pre: "alpha.1".to_string(), build: String::new() };
    let b = Version { major: 1, minor: 2, patch: 3, pre: String::new(), build: String::new() };
    assert_eq!(compare_versions(&a, &b), Order::Less);
    assert_eq!(compare_versions(&b, &a), Order::Greater);
    assert_eq!(compare_versions(&b, &b), Order::Equal);
    let c = Version { major: 1, minor: 3, patch: 0, pre: String::new(), build: String::new() };
    assert_eq!(compare_versions(&c, &b), Order::Greater);
}

#[test]
fn parse_semver_splits_the_parts() {
    let v = parse_semver("1.2.3-rc.1+build.7").ok().unwrap();
    assert_eq!((v.major, v.minor, v.patch), (1, 2, 3));
    assert_eq!(v.pre, "rc.1");
    assert_eq!(v.build, "build.7");
    let plain = parse_semver("0.10.0").ok().unwrap();
    assert_eq!((plain.major, plain.minor, plain.patch), (0, 10, 0));
    assert!(plain.pre.is_empty() && plain.build.is_empty());
    assert_eq!(parse_semver("1.2").err(), Some(InvalidVersion));
    assert_eq!(parse_semver(" 1.2.3").err(), Some(InvalidVersion));
    let a = parse_semver("1.0.0-alpha.1").ok().unwrap();
    let b = parse_semver("1.0.0-alpha.beta").ok().unwrap();
    assert_eq!(compare_versions(&a, &b), Order::Less);
}

#[test]
fn comparison_is_transitive() {
    let texts = [
        "1.0.0-alpha", "1.0.0-alpha.1", "1.0.0-alpha.beta", "1.0.0-beta.2", "1.0.0-beta.11",
        "1.0.0", "1.0.0+b", "1.0.1", "garbage", "2.0.0-rc.1",
    ];
    for a in texts {
        for b in texts {
            for c in texts {
                let (ab, bc, ac) = (semver_compare(a, b), semver_compare(b, c), semver_compare(a, c));
                if ab >= 0 && bc >= 0 {
                    assert!(ac >= 0);
                    if ab == 1 || bc == 1 {
                        assert_eq!(ac, 1);
                    }
                }
            }
        }
    }
}
