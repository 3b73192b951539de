use password_store::records::{chars_of, find_colon, is_separator, word_end};

#[test]
fn separators_are_the_whitespace_characters() {
    for code in 0..=0x10ffffu32 {
        if let Some(c) = char::from_u32(code) {
            assert_eq!(is_separator(c), c.is_whitespace(), "U+{:04X}", code);
        }
    }
}

#[test]
fn common_separators() {
    assert!(is_separator(' '));
    assert!(is_separator('\t'));
    assert!(is_separator('\n'));
    assert!(is_separator('\r'));
    assert!(is_separator('\u{a0}'));
    assert!(is_separator('\u{3000}'));
    assert!(!is_separator(':'));
    assert!(!is_separator('a'));
    assert!(!is_separator('\u{200b}'));
}

#[test]
fn chars_are_decoded_in_order() {
    assert_eq!(chars_of(""), Vec::<char>::new());
    assert_eq!(chars_of("a:b"), vec!['a', ':', 'b']);
    assert_eq!(chars_of("\u{e4}\u{1f511} x"), vec!['\u{e4}', '\u{1f511}', ' ', 'x']);
}

#[test]
fn word_ends_at_whitespace_or_at_the_end() {
    let chars = chars_of("ab:c  d");
    assert_eq!(word_end(&chars, 0), 4);
    assert_eq!(word_end(&chars, 2), 4);
    assert_eq!(word_end(&chars, 4), 4);
    assert_eq!(word_end(&chars, 6), 7);
    assert_eq!(word_end(&chars, 7), 7);
}

#[test]
fn first_colon_is_found() {
    let chars = chars_of("ab:c:d e");
    assert_eq!(find_colon(&chars, 0, 6), Some(2));
    assert_eq!(find_colon(&chars, 3, 6), Some(4));
    assert_eq!(find_colon(&chars, 5, 6), None);
    assert_eq!(find_colon(&chars, 0, 2), None);
    assert_eq!(find_colon(&chars, 2, 2), None);
    assert_eq!(find_colon(&chars, 7, 8), None);
}
