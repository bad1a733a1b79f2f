use casa::text::{append_decimal, append_signed_decimal, append_zero_padded, is_whitespace, same_text, trim};

#[test]
fn trim_removes_ascii_whitespace_on_both_sides() {
    assert_eq!(trim("  hola mundo \t\n"), "hola mundo");
}

#[test]
fn trim_keeps_inner_whitespace_and_plain_text() {
    assert_eq!(trim("a  b"), "a  b");
    assert_eq!(trim("x"), "x");
}

#[test]
fn trim_of_blank_text_is_empty() {
    assert_eq!(trim(""), "");
    assert_eq!(trim(" \t\r\n "), "");
}

#[test]
fn trim_removes_unicode_whitespace_like_std() {
    let samples = [
        "\u{3000}nombre\u{00A0}",
        "\u{2009}\u{2028}a\u{202F}",
        "\u{0085}b\u{1680}",
        "\u{200B}c",
        "ñandú  ",
    ];
    for s in samples {
        assert_eq!(trim(s), s.trim());
    }
}

#[test]
fn trim_is_idempotent_on_examples() {
    for s in ["  a ", "\u{3000}b c\t", "", "   "] {
        let once = trim(s);
        assert_eq!(trim(&once), once);
    }
}

#[test]
fn whitespace_matches_char_is_whitespace() {
    for u in 0u32..0x3100 {
        if let Some(c) = char::from_u32(u) {
            assert_eq!(is_whitespace(c), c.is_whitespace(), "code point {u:#x}");
        }
    }
}

#[test]
fn decimal_rendering() {
    let mut s = String::new();
    append_decimal(&mut s, 0);
    assert_eq!(s, "0");
    let mut s = String::from("n=");
    append_decimal(&mut s, 1234567890);
    assert_eq!(s, "n=1234567890");
    let mut s = String::new();
    append_decimal(&mut s, u64::MAX);
    assert_eq!(s, u64::MAX.to_string());
}

#[test]
fn signed_decimal_rendering() {
    for n in [0i64, 7, -7, 42, -120, i64::MAX, i64::MIN] {
        let mut s = String::new();
        append_signed_decimal(&mut s, n);
        assert_eq!(s, n.to_string());
    }
}

#[test]
fn zero_padded_rendering() {
    let mut s = String::new();
    append_zero_padded(&mut s, 5, 4);
    assert_eq!(s, "0005");
    let mut s = String::new();
    append_zero_padded(&mut s, 123456, 4);
    assert_eq!(s, "123456");
    let mut s = String::new();
    append_zero_padded(&mut s, 0, 2);
    assert_eq!(s, "00");
}

#[test]
fn same_text_compares_contents() {
    assert!(same_text("/login", "/login"));
    assert!(!same_text("/login", "/login/"));
    assert!(!same_text("", " "));
}
