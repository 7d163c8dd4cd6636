use platform_intrinsics::doc::{lookup, Node};
use platform_intrinsics::mono::mangle;
use platform_intrinsics::num::{is_pow2, parse_width};

#[test]
fn parse_width_accepts_plain_decimals() {
    assert_eq!(parse_width("64"), Some(64));
    assert_eq!(parse_width("0"), Some(0));
    assert_eq!(parse_width("064"), Some(64));
    assert_eq!(parse_width("18446744073709551615"), Some(u64::MAX));
}

#[test]
fn parse_width_rejects_non_decimals() {
    assert_eq!(parse_width(""), None);
    assert_eq!(parse_width("+64"), None);
    assert_eq!(parse_width("64 "), None);
    assert_eq!(parse_width("0x40"), None);
    assert_eq!(parse_width("18446744073709551616"), None);
}

#[test]
fn power_of_two_test_matches_arithmetic() {
    assert!(is_pow2(1));
    assert!(is_pow2(2));
    assert!(is_pow2(64));
    assert!(is_pow2(1u64 << 63));
    assert!(!is_pow2(0));
    assert!(!is_pow2(6));
    assert!(!is_pow2(u64::MAX));
}

#[test]
fn mangle_appends_decimal_width() {
    assert_eq!(mangle("vadd", 128), "vadd128");
    assert_eq!(mangle("x", 0), "x0");
}

#[test]
fn lookup_finds_first_match() {
    let entries = vec![
        ("k".to_string(), Node::UInt(1)),
        ("k".to_string(), Node::UInt(2)),
    ];
    match lookup(&entries, "k") {
        Some(Node::UInt(v)) => assert_eq!(*v, 1),
        other => panic!("expected the first entry, got {:?}", other),
    }
    assert!(lookup(&entries, "missing").is_none());
}
