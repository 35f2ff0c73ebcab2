use weii_joins::text::{
    after_last, before_first, contains_text, find_char, parse_number, to_lowercase, trim,
};

#[test]
fn finds_text_in_text() {
    assert!(contains_text("[BloxstrapRPC] {}", "BloxstrapRPC"));
    assert!(!contains_text("[bloxstraprpc] {}", "BloxstrapRPC"));
    assert!(contains_text("abc", ""));
    assert!(!contains_text("", "a"));
    assert!(contains_text("aé{b", "é{"));
}

#[test]
fn takes_what_follows_the_last_separator() {
    assert_eq!(after_last("a=b=c", "="), "c");
    assert_eq!(after_last("abc", "="), "abc");
    assert_eq!(after_last("abc=", "="), "");
    assert_eq!(after_last("xLinkCode=1LinkCode=2", "LinkCode="), "2");
    assert_eq!(after_last("é=ü", "="), "ü");
}

#[test]
fn takes_what_precedes_the_first_character() {
    assert_eq!(before_first("a&b&c", '&'), "a");
    assert_eq!(before_first("abc", '&'), "abc");
    assert_eq!(before_first("&abc", '&'), "");
}

#[test]
fn counts_positions_in_characters() {
    assert_eq!(find_char("éé{x", '{'), Some(2));
    assert_eq!(find_char("abc", '{'), None);
}

#[test]
fn reads_numbers_as_the_standard_library_does() {
    for text in [
        "0", "1282542323590496277", "18446744073709551615", "18446744073709551616", "+7", "-7", "", "+", "00012",
        "12a", " 12", "99999999999999999999999999", "++1", "1+",
    ] {
        assert_eq!(parse_number(text), text.parse::<u64>().ok(), "{}", text);
    }
}

#[test]
fn lower_case_follows_unicode() {
    assert_eq!(to_lowercase("TrUe"), "true");
    assert_eq!(to_lowercase("ÄÖ{"), "äö{");
    assert_eq!(to_lowercase(""), "");
}

#[test]
fn trims_as_the_standard_library_does() {
    for text in ["", " ", "a", " a b ", "\t\r\n{x}\u{b}\u{c}", "\u{a0}\u{3000}a\u{2029}\u{85}", "\u{200b}a\u{180e}"] {
        assert_eq!(trim(text), text.trim());
    }
    for n in 0..0x11000u32 {
        if let Some(c) = char::from_u32(n) {
            let text = format!("{}x{}", c, c);
            assert_eq!(trim(&text), text.trim(), "{:x}", n);
        }
    }
}
