use mail_classifier::text::casing::{
    fold_case_of, has_prefix_ignoring_ascii_case, to_ascii_lower, to_lower,
};
use mail_classifier::text::chars::{chars_of, same_chars, string_of};
use mail_classifier::text::classes::{strip_slice, trim_str, CharClass};
use mail_classifier::text::search::{contains_slice, find_char, remove_char, rfind_char};
use mail_classifier::text::words::first_word_with;

fn chars(s: &str) -> Vec<char> {
    s.chars().collect()
}

#[test]
fn whitespace_class_is_the_unicode_property() {
    let mut code: u32 = 0;
    while code <= 0x10ffff {
        if let Some(c) = char::from_u32(code) {
            assert_eq!(CharClass::Whitespace.contains(c), c.is_whitespace(), "U+{:04X}", code);
        }
        code += 1;
    }
}

#[test]
fn wrapping_class_holds_eight_characters() {
    let mut members = String::new();
    let mut code: u32 = 0;
    while code <= 0x10ffff {
        if let Some(c) = char::from_u32(code) {
            if CharClass::Wrapping.contains(c) {
                members.push(c);
            }
        }
        code += 1;
    }
    assert_eq!(members, "\"'(),;<>");
}

#[test]
fn line_break_class_holds_line_feed_and_carriage_return() {
    let mut members = String::new();
    let mut code: u32 = 0;
    while code <= 0x10ffff {
        if let Some(c) = char::from_u32(code) {
            if CharClass::LineBreak.contains(c) {
                members.push(c);
            }
        }
        code += 1;
    }
    assert_eq!(members, "\n\r");
}

#[test]
fn chars_and_string_round_trip() {
    let text = "a\u{e4}\u{4e2d}\u{1f600} z";
    let v = chars_of(text);
    assert_eq!(v, vec!['a', '\u{e4}', '\u{4e2d}', '\u{1f600}', ' ', 'z']);
    assert_eq!(string_of(&v), text);
    assert_eq!(chars_of(""), Vec::<char>::new());
    assert_eq!(string_of(&[]), "");
}

#[test]
fn ascii_lower_changes_capital_letters_only() {
    let mut code: u32 = 0;
    while code <= 0x10ffff {
        if let Some(c) = char::from_u32(code) {
            assert_eq!(to_ascii_lower(c), c.to_ascii_lowercase());
        }
        code += 1;
    }
    assert_eq!(to_ascii_lower('A'), 'a');
    assert_eq!(to_ascii_lower('Z'), 'z');
    assert_eq!(to_ascii_lower('@'), '@');
    assert_eq!(to_ascii_lower('['), '[');
}

#[test]
fn to_lower_maps_each_character_as_std_does() {
    let mut code: u32 = 0;
    while code <= 0x10ffff {
        if let Some(c) = char::from_u32(code) {
            let expected: String = c.to_lowercase().collect();
            assert_eq!(to_lower(&c.to_string()), expected, "U+{:04X}", code);
        }
        code += 1;
    }
}

#[test]
fn to_lower_on_text() {
    assert_eq!(to_lower("JOHN@Example.COM"), "john@example.com");
    assert_eq!(to_lower("\u{c4}RGER"), "\u{e4}rger");
    assert_eq!(to_lower("\u{130}"), "i\u{307}");
    assert_eq!(to_lower("\u{3a3}\u{391}\u{3a3}"), "\u{3c3}\u{3b1}\u{3c3}");
    assert_eq!(to_lower(""), "");
    assert_eq!(string_of(&fold_case_of(&chars("MiXeD 123"))), "mixed 123");
}

#[test]
fn trim_agrees_with_std() {
    let samples = [
        "",
        " ",
        "  a  ",
        "\t\r\n x y \u{a0}\u{3000}",
        "\u{2003}wide\u{2003}",
        "no-space",
        "\u{200b}zero width stays\u{200b}",
        " \u{85}next line\u{85} ",
    ];
    for s in samples {
        assert_eq!(trim_str(s), s.trim(), "{:?}", s);
    }
    assert_eq!(trim_str("  a  b  "), "a  b");
}

#[test]
fn strip_takes_off_both_ends_only() {
    let v = chars("\"'(a,b)';");
    assert_eq!(string_of(strip_slice(&v, CharClass::Wrapping)), "a,b");
    let all = chars("<<>>");
    assert_eq!(string_of(strip_slice(&all, CharClass::Wrapping)), "");
    let none = chars("abc");
    assert_eq!(string_of(strip_slice(&none, CharClass::Wrapping)), "abc");
    let samples = ["", ",", ",a", "a,", "<a@b.c>", "(x) (y)", "';a;'"];
    for s in samples {
        let expected = s.trim_matches(|c: char| ",;\"'()<>".contains(c));
        assert_eq!(string_of(strip_slice(&chars(s), CharClass::Wrapping)), expected, "{:?}", s);
    }
}

#[test]
fn find_gives_first_and_last_index() {
    let v = chars("a@b@c");
    assert_eq!(find_char(&v, '@'), Some(1));
    assert_eq!(rfind_char(&v, '@'), Some(3));
    assert_eq!(find_char(&v, 'x'), None);
    assert_eq!(rfind_char(&v, 'x'), None);
    assert_eq!(find_char(&[], '@'), None);
    assert_eq!(rfind_char(&[], '@'), None);
    assert_eq!(find_char(&chars("@"), '@'), Some(0));
    assert_eq!(rfind_char(&chars("@"), '@'), Some(0));
}

#[test]
fn remove_char_drops_every_occurrence() {
    assert_eq!(string_of(&remove_char(&chars("%in%voice%"), '%')), "invoice");
    assert_eq!(string_of(&remove_char(&chars("%%"), '%')), "");
    assert_eq!(string_of(&remove_char(&chars("abc"), '%')), "abc");
    assert_eq!(string_of(&remove_char(&[], '%')), "");
}

#[test]
fn same_chars_is_equality() {
    assert!(same_chars(&chars("abc"), &chars("abc")));
    assert!(!same_chars(&chars("abc"), &chars("abd")));
    assert!(!same_chars(&chars("abc"), &chars("ab")));
    assert!(same_chars(&[], &[]));
}

#[test]
fn contains_slice_agrees_with_std() {
    let hays = ["", "a", "invoice", "re: your invoice #123", "aaab", "abab"];
    let needles = ["", "a", "b", "ab", "invoice", "aab", "bab", "abc", "re: your invoice #1234"];
    for h in hays {
        for n in needles {
            assert_eq!(contains_slice(&chars(h), &chars(n)), h.contains(n), "{:?} in {:?}", n, h);
        }
    }
}

#[test]
fn prefix_ignores_ascii_case_only() {
    assert!(has_prefix_ignoring_ascii_case(&chars("From: x"), &chars("from:")));
    assert!(has_prefix_ignoring_ascii_case(&chars("FROM:"), &chars("from:")));
    assert!(has_prefix_ignoring_ascii_case(&chars("fRoM:x"), &chars("from:")));
    assert!(!has_prefix_ignoring_ascii_case(&chars("From"), &chars("from:")));
    assert!(!has_prefix_ignoring_ascii_case(&chars(" From:"), &chars("from:")));
    assert!(!has_prefix_ignoring_ascii_case(&chars("Frum: x"), &chars("from:")));
    assert!(has_prefix_ignoring_ascii_case(&chars("anything"), &[]));
    assert!(!has_prefix_ignoring_ascii_case(&chars("\u{c4}b"), &chars("\u{e4}")));
}

#[test]
fn first_word_with_agrees_with_std() {
    let samples = [
        "",
        "   ",
        "no address here",
        "random text john@example.com trailer,",
        "  a@b  c@d ",
        "x\ty@z\nw",
        "@",
        "tail@",
        "one\u{a0}two@three\u{3000}four",
    ];
    for s in samples {
        let v = chars(s);
        let found = first_word_with(&v, '@').map(|w| string_of(w));
        let expected = s.split_whitespace().find(|t| t.contains('@')).map(|t| t.to_string());
        assert_eq!(found, expected, "{:?}", s);
    }
    let v = chars("  a@b  c@d ");
    assert_eq!(first_word_with(&v, '@').map(|w| string_of(w)), Some("a@b".to_string()));
}
