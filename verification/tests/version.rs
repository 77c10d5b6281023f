use pulse::version::{Version, PROTOCOL_MAJOR, PROTOCOL_MINOR};

#[test]
fn test_version_compatibility() {
    let v1_0 = Version::new(1, 0);
    let v1_1 = Version::new(1, 1);
    let v2_0 = Version::new(2, 0);

    assert!(v1_0.is_compatible_with(&v1_1));
    assert!(v1_1.is_compatible_with(&v1_0));
    assert!(!v1_0.is_compatible_with(&v2_0));
}

#[test]
fn test_version_display() {
    let v = Version::new(1, 2);
    assert_eq!(v.to_string(), "1.2");
}

#[test]
fn version_text_has_no_leading_zeros() {
    assert_eq!(Version::new(0, 0).to_string(), "0.0");
    assert_eq!(Version::new(10, 9).to_string(), "10.9");
    assert_eq!(Version::new(255, 100).to_string(), "255.100");
}

#[test]
fn current_version_is_one_zero() {
    assert_eq!(PROTOCOL_MAJOR, 1);
    assert_eq!(PROTOCOL_MINOR, 0);
    assert_eq!(Version::current(), Version::new(1, 0));
    assert_eq!(Version::default(), Version::new(1, 0));
}

#[test]
fn compatibility_ignores_the_minor_part() {
    for minor_a in [0u8, 7, 255] {
        for minor_b in [0u8, 3, 255] {
            assert!(Version::new(4, minor_a).is_compatible_with(&Version::new(4, minor_b)));
            assert!(!Version::new(4, minor_a).is_compatible_with(&Version::new(5, minor_b)));
        }
    }
}
