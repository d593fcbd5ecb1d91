use zero2prod::domain::text::{
    char_is_control, char_is_whitespace, chars_of, code_point_of, compare_text, trim,
};

#[test]
fn trim_drops_whitespace_at_both_ends_only() {
    assert_eq!(trim("  a b  "), "a b");
    assert_eq!(trim("a b"), "a b");
    assert_eq!(trim(""), "");
    assert_eq!(trim(" \t\n"), "");
    assert_eq!(trim("\u{2000}x\u{200a}"), "x");
    assert_eq!(trim("\u{200b}x\u{200b}"), "\u{200b}x\u{200b}");
}

#[test]
fn trim_agrees_with_the_standard_library() {
    for s in ["", " ", " a", "a ", " a b ", "\u{85}a\u{1680}", "\u{feff}a", "é \u{3000}", "\u{1c}a\u{1f}"] {
        assert_eq!(trim(s), s.trim());
    }
}

#[test]
fn whitespace_is_the_unicode_property() {
    let mut c = '\u{0}';
    loop {
        assert_eq!(char_is_whitespace(c), c.is_whitespace());
        assert_eq!(char_is_control(c), c.is_control());
        if c as u32 >= 0x3100 {
            break;
        }
        c = char::from_u32(c as u32 + 1).unwrap();
    }
}

#[test]
fn chars_of_gives_the_characters_in_order() {
    assert_eq!(chars_of("aé🇷🇺"), vec!['a', 'é', '🇷', '🇺']);
    assert_eq!(chars_of(""), Vec::<char>::new());
}

#[test]
fn code_points_are_numbered_as_unicode_does() {
    assert_eq!(code_point_of('A'), 65);
    assert_eq!(code_point_of('\u{10ffff}'), 0x10ffff);
}

#[test]
fn texts_compare_lexicographically() {
    assert_eq!(compare_text("", ""), 0);
    assert_eq!(compare_text("", "a"), -1);
    assert_eq!(compare_text("a", ""), 1);
    assert_eq!(compare_text("abc", "abd"), -1);
    assert_eq!(compare_text("abd", "abc"), 1);
    assert_eq!(compare_text("ab", "abc"), -1);
    assert_eq!(compare_text("abc", "abc"), 0);
    assert_eq!(compare_text("Z", "a"), -1);
    assert_eq!(compare_text("z", "é"), -1);
}
