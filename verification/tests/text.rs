use dbsc_hello::text::{
    bool_word, cat2, cat3, cat4, cat5, chars_of, debug, decimal, is_white_space, join, same_text,
    split, string_of, strip_prefix, trim,
};

#[test]
fn decimal_numerals() {
    for n in [0, 7, 9, 10, 99, 100, 4096, 2_592_000, u64::MAX - 1, u64::MAX] {
        assert_eq!(decimal(n), n.to_string());
    }
    assert_eq!(decimal(u64::MAX), "18446744073709551615");
}

#[test]
fn white_space_is_that_of_unicode() {
    for code in 0..=0x10ffff_u32 {
        if let Some(c) = char::from_u32(code) {
            assert_eq!(is_white_space(c), c.is_whitespace());
        }
    }
}

#[test]
fn trimming_takes_both_ends() {
    for s in ["", " ", "\t \n", "a", " a", "a ", " \t a b \u{3000}\n", "\u{a0}x\u{2028}"] {
        assert_eq!(trim(s), s.trim());
    }
    assert_eq!(trim(" \t a b \u{3000}\n"), "a b");
}

#[test]
fn splitting_keeps_empty_pieces() {
    for s in ["", ".", "..", "a", "a.b", ".a.", "a..b", "é.ü"] {
        let expected: Vec<&str> = s.split('.').collect();
        assert_eq!(split(s, '.'), expected);
        assert_eq!(join(&split(s, '.'), "."), s);
    }
    assert_eq!(split("a=1; b=2", ';'), vec!["a=1", " b=2"]);
}

#[test]
fn joining_puts_the_separator_between() {
    assert_eq!(join(&vec![], "; "), "");
    assert_eq!(join(&vec!["a".to_string()], "; "), "a");
    assert_eq!(join(&vec!["a".to_string(), "".to_string(), "b".to_string()], "; "), "a; ; b");
}

#[test]
fn prefixes_are_stripped_once() {
    assert_eq!(strip_prefix("a=a=b", "a="), Some("a=b".to_string()));
    assert_eq!(strip_prefix("a=", "a="), Some(String::new()));
    assert_eq!(strip_prefix("a", "a="), None);
    assert_eq!(strip_prefix("b=1", "a="), None);
    assert_eq!(strip_prefix("", ""), Some(String::new()));
}

#[test]
fn pieces_are_put_together() {
    assert_eq!(cat2("a", "é"), "aé");
    assert_eq!(cat3("a", "", "c"), "ac");
    assert_eq!(cat4("a", "b", "c", "d"), "abcd");
    assert_eq!(cat5("a", "b", "c", "d", "e"), "abcde");
    assert_eq!(string_of(&chars_of("häuser"), 1, 3), "äu");
}

#[test]
fn same_text_compares_every_character() {
    assert!(same_text("", ""));
    assert!(same_text("chal1", "chal1"));
    assert!(!same_text("chal1", "chal12"));
    assert!(!same_text("chal1", "Chal1"));
    assert!(!same_text("a", "b"));
}

#[test]
fn optional_text_is_shown_as_debug_shows_it() {
    assert_eq!(debug(&None), "None");
    for s in ["", "login2", "a\"b", "back\\slash", "tab\there", "it's", "a b=c~"] {
        let s = Some(s.to_string());
        assert_eq!(debug(&s), format!("{s:?}"));
    }
    assert_eq!(bool_word(true), "true");
    assert_eq!(bool_word(false), "false");
}
