use flac_builder::tags::{decimal_text, has_nul, signed_decimal_text, to_c_text};

#[test]
fn nul_is_found_wherever_it_is() {
    assert!(!has_nul(""));
    assert!(!has_nul("plain"));
    assert!(has_nul("\0"));
    assert!(has_nul("\0front"));
    assert!(has_nul("mid\0dle"));
    assert!(has_nul("back\0"));
    assert!(!has_nul("zero 0 is no NUL"));
    assert!(!has_nul("ünïcödé ♫"));
    assert!(has_nul("ünïcödé\0♫"));
}

#[test]
fn text_with_nul_stands_for_nothing() {
    assert_eq!(to_c_text("Artist"), "Artist");
    assert_eq!(to_c_text(""), "");
    assert_eq!(to_c_text("a\0b"), "");
    assert_eq!(to_c_text("♫ tune"), "♫ tune");
}

#[test]
fn decimal_of_small_and_large_numbers() {
    assert_eq!(decimal_text(0), "0");
    assert_eq!(decimal_text(7), "7");
    assert_eq!(decimal_text(10), "10");
    assert_eq!(decimal_text(1999), "1999");
    assert_eq!(decimal_text(100_000), "100000");
    assert_eq!(decimal_text(u32::MAX as u64), "4294967295");
    assert_eq!(decimal_text(u64::MAX), "18446744073709551615");
}

#[test]
fn decimal_agrees_with_the_standard_formatting() {
    let mut n: u64 = 1;
    for _ in 0..64 {
        assert_eq!(decimal_text(n), n.to_string());
        assert_eq!(decimal_text(n - 1), (n - 1).to_string());
        n = n.wrapping_mul(3).wrapping_add(1);
    }
}

#[test]
fn signed_decimal_has_a_minus_sign_for_negatives_only() {
    assert_eq!(signed_decimal_text(0), "0");
    assert_eq!(signed_decimal_text(12), "12");
    assert_eq!(signed_decimal_text(-1), "-1");
    assert_eq!(signed_decimal_text(-120), "-120");
    assert_eq!(signed_decimal_text(i32::MAX), "2147483647");
    assert_eq!(signed_decimal_text(i32::MIN), "-2147483648");
}
