use mimalloc_redirect::{MiMalloc, ModelHeap, Version, VersionEncoding};

#[test]
fn decode_digits_scheme() {
    let v = Version::decode(202, VersionEncoding::Digits);
    assert_eq!(v, Version { major: 2, minor: 0, patch: 2 });
}

#[test]
fn decode_digits_scheme_all_components() {
    let v = Version::decode(212, VersionEncoding::Digits);
    assert_eq!(v, Version { major: 2, minor: 1, patch: 2 });
}

#[test]
fn decode_thousands_scheme() {
    let v = Version::decode(3208, VersionEncoding::Thousands);
    assert_eq!(v, Version { major: 3, minor: 2, patch: 8 });
}

#[test]
fn decode_thousands_scheme_wide_patch() {
    let v = Version::decode(1099, VersionEncoding::Thousands);
    assert_eq!(v, Version { major: 1, minor: 0, patch: 99 });
}

#[test]
fn schemes_disagree_on_the_same_raw_value() {
    // The correctness trap: the same raw integer means different
    // versions under the two encodings, so they must not be conflated.
    let digits = Version::decode(3208, VersionEncoding::Digits);
    let thousands = Version::decode(3208, VersionEncoding::Thousands);
    assert_eq!(digits, Version { major: 2, minor: 0, patch: 8 });
    assert_ne!(digits, thousands);
}

#[test]
fn get_version_matches_the_model_primitive() {
    let h = ModelHeap::new();
    let v = MiMalloc::get_version(&h);
    assert_eq!(v, Version { major: 2, minor: 0, patch: 2 });
}
