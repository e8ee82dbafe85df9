use cave::errors::CaveError;
use cave::version::{parse_version, Alias, Version, VersionIdentifier};

fn concrete(raw: &str) -> Version {
    match parse_version(raw) {
        Ok(VersionIdentifier::Concrete(v)) => v,
        other => panic!("expected concrete version for {:?}, got {:?}", raw, other),
    }
}

fn invalid(raw: &str) {
    match parse_version(raw) {
        Err(CaveError::InvalidFormat(s)) => assert_eq!(s, raw),
        other => panic!("expected InvalidFormat for {:?}, got {:?}", raw, other),
    }
}

#[test]
fn parses_three_component_versions() {
    assert_eq!(concrete("1.2.3"), Version { major: 1, minor: 2, patch: 3 });
    assert_eq!(concrete("17.3.1"), Version { major: 17, minor: 3, patch: 1 });
    assert_eq!(concrete("99.99.99"), Version { major: 99, minor: 99, patch: 99 });
    assert_eq!(concrete("0.0.0"), Version { major: 0, minor: 0, patch: 0 });
    assert_eq!(concrete("00.0.09"), Version { major: 0, minor: 0, patch: 9 });
    assert_eq!(concrete("10.20.30"), Version { major: 10, minor: 20, patch: 30 });
    assert_eq!(concrete("1.22.3"), Version { major: 1, minor: 22, patch: 3 });
}

#[test]
fn parses_aliases() {
    assert_eq!(
        parse_version("stable").unwrap(),
        VersionIdentifier::Alias(Alias::Stable)
    );
    assert_eq!(
        parse_version("testing").unwrap(),
        VersionIdentifier::Alias(Alias::Testing)
    );
}

#[test]
fn rejects_malformed_requests() {
    invalid("");
    invalid("1");
    invalid("1.2");
    invalid("1.2.");
    invalid(".1.2");
    invalid("1..2");
    invalid("1.2.3.4");
    invalid("111.1.1");
    invalid("1.111.1");
    invalid("1.1.111");
    invalid("a.b.c");
    invalid("1.2.x");
    invalid(" 1.2.3");
    invalid("1.2.3 ");
    invalid("1,2,3");
    invalid("stable ");
    invalid("Stable");
    invalid("latest");
}

#[test]
fn version_order_is_lexicographic() {
    let a = Version { major: 1, minor: 2, patch: 3 };
    let b = Version { major: 1, minor: 2, patch: 4 };
    let c = Version { major: 1, minor: 3, patch: 0 };
    let d = Version { major: 2, minor: 0, patch: 0 };
    assert!(a.lt(&b));
    assert!(b.lt(&c));
    assert!(c.lt(&d));
    assert!(!d.lt(&a));
    assert!(!a.lt(&a));
}
