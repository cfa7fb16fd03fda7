use botox::text::{
    byte_length, chars_of, copy_of_texts, has_prefix, replace_text, rest_after_space, same_text,
    string_of, words,
};

#[test]
fn chars_and_back() {
    assert_eq!(chars_of("héllo"), vec!['h', 'é', 'l', 'l', 'o']);
    assert_eq!(chars_of(""), Vec::<char>::new());
    assert_eq!(string_of(&vec!['a', 'ß', 'c']), "aßc");
    assert_eq!(string_of(&vec![]), "");
}

#[test]
fn words_are_the_stretches_between_white_space() {
    assert_eq!(words("one two  three"), vec!["one", "two", "three"]);
    assert_eq!(words("  lead and trail \t\n"), vec!["lead", "and", "trail"]);
    assert_eq!(words("single"), vec!["single"]);
    assert_eq!(words(""), Vec::<String>::new());
    assert_eq!(words(" \t "), Vec::<String>::new());
    assert_eq!(words("a\u{00A0}b\u{3000}c"), vec!["a", "b", "c"]);
}

#[test]
fn byte_length_counts_utf8_bytes() {
    assert_eq!(byte_length(""), 0);
    assert_eq!(byte_length("abc"), 3);
    assert_eq!(byte_length("é"), 2);
    assert_eq!(byte_length("€uro"), 6);
}

#[test]
fn same_text_compares_characters() {
    assert!(same_text("PING", "PING"));
    assert!(same_text("", ""));
    assert!(!same_text("PING", "PONG"));
    assert!(!same_text("PING", "PIN"));
    assert!(!same_text("ping", "PING"));
}

#[test]
fn prefix_test() {
    assert!(has_prefix("!help", "!"));
    assert!(has_prefix("abc", ""));
    assert!(has_prefix("abc", "abc"));
    assert!(!has_prefix("abc", "abcd"));
    assert!(!has_prefix("help!", "!"));
    assert!(!has_prefix("", "!"));
}

#[test]
fn copy_of_texts_copies() {
    let texts = vec!["a".to_string(), "bc".to_string()];
    assert_eq!(copy_of_texts(&texts), texts);
    assert_eq!(copy_of_texts(&Vec::new()), Vec::<String>::new());
}

#[test]
fn replace_every_occurrence_left_to_right() {
    assert_eq!(replace_text("Hi {SENDER}!", "{SENDER}", "bob"), "Hi bob!");
    assert_eq!(replace_text("{ARG} and {ARG}", "{ARG}", "x y"), "x y and x y");
    assert_eq!(replace_text("aaa", "aa", "b"), "ba");
    assert_eq!(replace_text("abc", "x", "y"), "abc");
    assert_eq!(replace_text("abc", "", "y"), "abc");
    assert_eq!(replace_text("", "a", "y"), "");
    assert_eq!(replace_text("abab", "ab", ""), "");
    assert_eq!(replace_text("xab", "ab", "abab"), "xabab");
}

#[test]
fn rest_after_the_first_space() {
    assert_eq!(rest_after_space("!cmd arg one"), Some("arg one".to_string()));
    assert_eq!(rest_after_space("!cmd "), Some("".to_string()));
    assert_eq!(rest_after_space(" x"), Some("x".to_string()));
    assert_eq!(rest_after_space("!cmd"), None);
    assert_eq!(rest_after_space(""), None);
    assert_eq!(rest_after_space("a\tb"), None);
}

#[test]
fn white_space_is_the_unicode_property() {
    let mut white = 0;
    for code in 0..=0x10FFFFu32 {
        if let Some(ch) = char::from_u32(code) {
            let listed = matches!(
                code,
                0x0009..=0x000D
                    | 0x0020
                    | 0x0085
                    | 0x00A0
                    | 0x1680
                    | 0x2000..=0x200A
                    | 0x2028
                    | 0x2029
                    | 0x202F
                    | 0x205F
                    | 0x3000
            );
            assert_eq!(ch.is_whitespace(), listed, "U+{:04X}", code);
            if listed {
                white += 1;
                assert_eq!(words(&format!("a{}b", ch)), vec!["a", "b"], "U+{:04X}", code);
            }
        }
    }
    assert_eq!(white, 25);
    assert_eq!(words("a!b\u{200B}c"), vec!["a!b\u{200B}c"]);
}
