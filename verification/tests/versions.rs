use rzup::text::{decode_hex, safe_name, same_bytes, same_text};
use rzup::version::Version;

fn v(major: u64, minor: u64, patch: u64) -> Version {
    Version { major, minor, patch }
}

#[test]
fn well_formed_versions_parse() {
    assert_eq!(Version::parse("1.2.0"), Some(v(1, 2, 0)));
    assert_eq!(Version::parse("0.0.0"), Some(v(0, 0, 0)));
    assert_eq!(Version::parse("10.20.30"), Some(v(10, 20, 30)));
    assert_eq!(Version::parse("1.0.100"), Some(v(1, 0, 100)));
}

#[test]
fn largest_numbers_parse() {
    assert_eq!(
        Version::parse("18446744073709551615.0.18446744073709551615"),
        Some(v(u64::MAX, 0, u64::MAX))
    );
}

#[test]
fn numbers_beyond_64_bits_are_no_version() {
    assert_eq!(Version::parse("18446744073709551616.0.0"), None);
    assert_eq!(Version::parse("0.99999999999999999999.0"), None);
    assert_eq!(Version::parse("0.0.184467440737095516150"), None);
}

#[test]
fn leading_zeros_are_no_version() {
    assert_eq!(Version::parse("01.2.3"), None);
    assert_eq!(Version::parse("1.02.3"), None);
    assert_eq!(Version::parse("1.2.00"), None);
}

#[test]
fn other_shapes_are_no_version() {
    for text in [
        "", ".", "..", "1", "1.2", "1.2.", ".1.2", "1..2", "1.2.3.4", "1.2.3 ", " 1.2.3", "v1.2.3",
        "1.2.x", "1.2.3-rc1", "+1.2.3", "-1.2.3", "1,2,3", "abcdef1", "١.٢.٣",
    ] {
        assert_eq!(Version::parse(text), None, "{:?}", text);
    }
}

#[test]
fn order_is_by_major_then_minor_then_patch() {
    assert!(v(1, 0, 0).older_than(&v(2, 0, 0)));
    assert!(v(1, 9, 9).older_than(&v(2, 0, 0)));
    assert!(v(1, 1, 0).older_than(&v(1, 2, 0)));
    assert!(v(1, 1, 9).older_than(&v(1, 2, 0)));
    assert!(v(1, 1, 1).older_than(&v(1, 1, 2)));
    assert!(!v(1, 1, 1).older_than(&v(1, 1, 1)));
    assert!(!v(2, 0, 0).older_than(&v(1, 9, 9)));
    assert!(!v(1, 2, 0).older_than(&v(1, 1, 9)));
    assert!(v(1, 9, 0).older_than(&v(1, 10, 0)));
}

#[test]
fn order_is_total_on_samples() {
    let samples = [v(0, 0, 0), v(0, 0, 1), v(0, 1, 0), v(1, 0, 0), v(1, 2, 3), v(3, 2, 1)];
    for a in samples {
        for b in samples {
            let lt = a.older_than(&b);
            let gt = b.older_than(&a);
            assert_eq!(!lt && !gt, a == b);
            assert!(!(lt && gt));
        }
    }
}

#[test]
fn texts_compare_by_content() {
    assert!(same_text("rust", "rust"));
    assert!(!same_text("rust", "rusT"));
    assert!(!same_text("rust", "rus"));
    assert!(same_text("", ""));
    assert!(same_text("héllo", "héllo"));
    assert!(!same_text("héllo", "hello"));
    assert!(same_bytes(&[1, 2, 3], &[1, 2, 3]));
    assert!(!same_bytes(&[1, 2, 3], &[1, 2, 4]));
    assert!(!same_bytes(&[1, 2, 3], &[1, 2]));
    assert!(same_bytes(&[], &[]));
}

#[test]
fn safe_names_name_one_directory_entry() {
    for name in ["1.2.0", "abcdef1", "r0.1.79", "a", "...", "nightly-2024", ".hidden", "ü"] {
        assert!(safe_name(name), "{:?}", name);
    }
    for name in ["", ".", "..", "a/b", "/", "../x", "a\\b", "a\0b", "x/"] {
        assert!(!safe_name(name), "{:?}", name);
    }
}

#[test]
fn checksums_are_read_from_hexadecimal() {
    assert_eq!(decode_hex(""), Some(vec![]));
    assert_eq!(decode_hex("00"), Some(vec![0]));
    assert_eq!(decode_hex("ff"), Some(vec![255]));
    assert_eq!(decode_hex("FF"), Some(vec![255]));
    assert_eq!(decode_hex("0a1B9f"), Some(vec![0x0a, 0x1b, 0x9f]));
    assert_eq!(decode_hex("deadbeef"), Some(vec![0xde, 0xad, 0xbe, 0xef]));
    assert_eq!(decode_hex("10"), Some(vec![16]));
    assert_eq!(decode_hex("01"), Some(vec![1]));
    for text in ["0", "abc", "0g", "g0", " 00", "00 ", "0x00", "é0"] {
        assert_eq!(decode_hex(text), None, "{:?}", text);
    }
}
