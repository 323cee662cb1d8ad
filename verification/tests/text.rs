use clipboardwire::text::{
    chars_of, drop_final_dots, find, find_last, is_control, is_white_space, same_text, starts_with,
    text_of, to_ascii_lower, to_decimal, trim,
};

fn chars(s: &str) -> Vec<char> {
    s.chars().collect()
}

#[test]
fn character_classes_are_those_of_unicode() {
    for c in '\0'..=char::MAX {
        assert_eq!(is_white_space(c), c.is_whitespace(), "{:?}", c);
        assert_eq!(is_control(c), c.is_control(), "{:?}", c);
    }
}

#[test]
fn trimming() {
    for s in ["", " ", "a", " a ", "\u{2003}x y\u{85}\n", "\tno"] {
        assert_eq!(text_of(&trim(&chars(s))), s.trim());
    }
    let mut v = chars("a.b..");
    drop_final_dots(&mut v);
    assert_eq!(v, chars("a.b"));
}

#[test]
fn searching() {
    let hay = chars("abcabc");
    assert_eq!(find(&hay, &chars("bc"), 0), Some(1));
    assert_eq!(find(&hay, &chars("bc"), 2), Some(4));
    assert_eq!(find(&hay, &chars("bc"), 5), None);
    assert_eq!(find(&hay, &chars("abcabcd"), 0), None);
    assert_eq!(find(&hay, &chars(""), 6), Some(6));
    assert_eq!(find(&hay, &chars(""), 7), None);
    assert_eq!(find_last(&hay, 'a'), Some(3));
    assert_eq!(find_last(&hay, 'x'), None);
}

#[test]
fn comparing_and_writing() {
    assert_eq!(chars_of("añ"), vec!['a', 'ñ']);
    assert!(same_text("añ", "añ"));
    assert!(!same_text("a", "A"));
    assert!(starts_with("abc", "ab"));
    assert!(starts_with("abc", ""));
    assert!(!starts_with("ab", "abc"));
    assert_eq!(to_ascii_lower(&chars("AZaz09Ü")), "azaz09Ü");
    for n in [0u32, 9, 10, 1234, 9999, u32::MAX] {
        assert_eq!(to_decimal(n), n.to_string());
    }
}
