use outpost::text::{
    contains, from_chars, join, parse_i64, same_text, show_i64, show_u128, split_on, take_up_to,
    take_word, text_contains, to_chars, trim, trim_end_char,
};

#[test]
fn text_is_made_of_characters() {
    assert_eq!(to_chars("aé"), vec!['a', 'é']);
    assert_eq!(from_chars(&['a', 'é']), "aé");
    assert!(same_text("abc", "abc"));
    assert!(!same_text("abc", "abd"));
    assert!(!same_text("abc", "ab"));
}

#[test]
fn white_space_is_trimmed() {
    assert_eq!(trim(&to_chars(" \t a b\u{a0}\u{3000} ")), to_chars("a b"));
    assert!(trim(&to_chars(" \r\n ")).is_empty());
    assert_eq!(trim_end_char(&to_chars("a//"), '/'), &['a']);
}

#[test]
fn pieces_and_prefixes() {
    assert_eq!(
        split_on(&to_chars("a;;b"), ';'),
        vec![vec!['a'], vec![], vec!['b']]
    );
    assert_eq!(take_up_to(&to_chars("name: value"), ':'), to_chars("name"));
    assert_eq!(take_up_to(&to_chars("name"), ':'), to_chars("name"));
    assert_eq!(take_word(&to_chars("one\ttwo")), to_chars("one"));
    assert!(take_word(&to_chars(" one")).is_empty());
    assert_eq!(
        join(&vec!["a".to_string(), String::new(), "b".to_string()], ';'),
        "a;;b"
    );
    assert_eq!(join(&vec![], ';'), "");
}

#[test]
fn texts_are_found_in_texts() {
    assert!(text_contains("default-src; frame-ancestors", "frame-ancestors"));
    assert!(text_contains("anything", ""));
    assert!(!text_contains("ab", "abc"));
    assert!(contains(&['a', 'b', 'a', 'c'], &['a', 'c']));
}

#[test]
fn numbers_read_back() {
    for n in [0, 7, -1, 15_552_000, i64::MAX, i64::MIN] {
        assert_eq!(show_i64(n), format!("{n}"));
        assert_eq!(parse_i64(&to_chars(&show_i64(n))), Some(n));
    }
    assert_eq!(show_u128(u128::MAX), format!("{}", u128::MAX));
    for bad in ["", "+", "-", "1 ", "a", "--1", "9223372036854775808"] {
        assert_eq!(parse_i64(&to_chars(bad)), None);
    }
    assert_eq!(parse_i64(&to_chars("+007")), Some(7));
}
