use lsm_tpm::text::{decimal_string, has_prefix};

#[test]
fn numbers_are_written_in_decimal() {
    for n in [0u32, 7, 9, 10, 99, 100, 4096, 4_294_967_295] {
        assert_eq!(decimal_string(n), format!("{}", n));
    }
}

#[test]
fn prefixes_are_compared_by_character() {
    assert!(has_prefix("/dev/pts/3", "/dev/"));
    assert!(has_prefix("/dev/", "/dev/"));
    assert!(has_prefix("anything", ""));
    assert!(!has_prefix("/dev", "/dev/"));
    assert!(!has_prefix("/tmp/x", "/dev/"));
    assert!(has_prefix("\u{e9}t\u{e9}", "\u{e9}"));
}
