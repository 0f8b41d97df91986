use phrase_warden::text::{
    contains_piece, find_char, find_text, has_whitespace, list_has, rem_first_and_last, same_text, split_once,
    unescape_slashes,
};

#[test]
fn parting_at_the_first_space() {
    assert_eq!(split_once("MSG {\"a\": 1}"), ("MSG", "{\"a\": 1}"));
    assert_eq!(split_once(" x"), ("", "x"));
    assert_eq!(split_once("x "), ("x", ""));
    assert_eq!(split_once("ä ö ü"), ("ä", "ö ü"));
}

#[test]
fn joined_texts_part_again() {
    assert_eq!(split_once(&format!("{} {}", "one", "two three")), ("one", "two three"));
}

#[test]
fn without_first_and_last() {
    assert_eq!(rem_first_and_last("/abc/"), "abc");
    assert_eq!(rem_first_and_last("éaé"), "a");
    assert_eq!(rem_first_and_last("ab"), "");
    assert_eq!(rem_first_and_last("a"), "");
    assert_eq!(rem_first_and_last(""), "");
}

#[test]
fn escaped_slashes() {
    for text in ["", "\\", "/", "\\/", "a\\/b\\/", "\\\\/", "\\/\\", "a\\b/", "\\\\//\\/", "ü\\/ü"] {
        assert_eq!(unescape_slashes(text), text.replace("\\/", "/"));
    }
}

#[test]
fn white_space() {
    assert!(has_whitespace("a b"));
    assert!(has_whitespace("a\u{3000}b"));
    assert!(has_whitespace("\n"));
    assert!(!has_whitespace("a_b"));
    assert!(!has_whitespace(""));
    for c in (0..0x11_0000u32).filter_map(char::from_u32) {
        let white = matches!(c, '\u{9}'..='\u{d}' | ' ' | '\u{85}' | '\u{a0}' | '\u{1680}'
            | '\u{2000}'..='\u{200a}' | '\u{2028}' | '\u{2029}' | '\u{202f}' | '\u{205f}'
            | '\u{3000}');
        assert_eq!(has_whitespace(c.encode_utf8(&mut [0; 4])), white);
    }
}

#[test]
fn finding() {
    assert_eq!(find_char("äb c d", ' '), Some(2));
    assert_eq!(find_char("abc", ' '), None);
    let list = vec!["a".to_string(), "b".to_string(), "b".to_string()];
    assert_eq!(find_text(&list, "b"), Some(1));
    assert_eq!(find_text(&list, "c"), None);
    assert!(list_has(&list, "a"));
    assert!(!list_has(&list, "A"));
    assert!(same_text("x", "x"));
    assert!(!same_text("x", "xx"));
}

#[test]
fn pieces_of_texts() {
    let texts = ["", "a", "aab", "aaab", "ä\u{1f600}b", "baab"];
    for text in texts {
        for piece in ["", "a", "aab", "b", "\u{1f600}", "ab", "ba", "aabb"] {
            assert_eq!(contains_piece(text, piece), text.contains(piece));
        }
    }
}
