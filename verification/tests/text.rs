use hc_caseta::text::{decimal, is_white_space, same, trim};

#[test]
fn white_space_is_what_unicode_says() {
    for c in '\0'..=char::MAX {
        assert_eq!(is_white_space(c), c.is_whitespace(), "{:?}", c);
    }
}

#[test]
fn trimming_takes_both_ends() {
    for text in [
        "",
        " ",
        " \t\r\n ",
        "a",
        " a",
        "a ",
        "  a b  ",
        "\u{a0}é\u{2003}",
        "\u{200b}x",
        "{ }",
    ] {
        assert_eq!(trim(text), text.trim());
        assert_eq!(trim(trim(text)), trim(text));
        assert_eq!(trim(&format!(" \n\u{3000}{text}\t\u{a0}")), trim(text));
    }
}

#[test]
fn numbers_are_written_in_decimal() {
    for n in [0, 1, 9, 10, 11, 99, 100, 1234567890, u64::MAX] {
        assert_eq!(decimal(n), n.to_string());
    }
}

#[test]
fn texts_are_compared_whole() {
    assert!(same("", ""));
    assert!(same("off", "off"));
    assert!(!same("off", "of"));
    assert!(!same("off", "Off"));
}
