use mail_classifier::address::{extract_email, normalize};

/// The same extraction written with std's string methods.
fn with_std(from_line: &str) -> Option<String> {
    let lower = |s: &str| -> String { s.chars().flat_map(|c| c.to_lowercase()).collect() };
    let s = from_line.trim();
    if let (Some(l), Some(r)) = (s.find('<'), s.find('>')) {
        if r > l + 1 {
            return Some(lower(&s[l + 1..r]));
        }
    }
    s.split_whitespace()
        .find(|t| t.contains('@'))
        .map(|t| lower(t.trim_matches(|c: char| ",;\"'()<>".contains(c))))
}

#[test]
fn normalize_takes_the_bracketed_address() {
    assert_eq!(normalize("Foo Bar <JOHN@EXAMPLE.COM>"), "john@example.com");
}

#[test]
fn normalize_takes_the_first_word_with_an_at() {
    assert_eq!(normalize("random text john@example.com trailer,"), "john@example.com");
}

#[test]
fn normalize_gives_empty_without_address() {
    assert_eq!(normalize("no address here"), "");
    assert_eq!(extract_email("no address here"), None);
    assert_eq!(normalize(""), "");
    assert_eq!(extract_email(""), None);
    assert_eq!(extract_email("   \t "), None);
}

#[test]
fn name_and_whitespace_do_not_matter() {
    let lines = [
        "Name <a@b.com>",
        "NAME <a@b.com>",
        "name <a@b.com>",
        "   Name    <a@b.com>",
        "Name\t<a@b.com>   ",
        "Some Longer Name<a@b.com>",
        "<a@b.com>",
        "  <a@b.com>\r\n",
        "From: Name <a@b.com>",
    ];
    for line in lines {
        assert_eq!(normalize(line), "a@b.com", "{:?}", line);
        assert_eq!(extract_email(line), Some("a@b.com".to_string()), "{:?}", line);
    }
}

#[test]
fn short_or_reversed_brackets_fall_through() {
    assert_eq!(extract_email("<>"), None);
    assert_eq!(extract_email("x <> y@z.com"), Some("y@z.com".to_string()));
    assert_eq!(extract_email("a> <b@c>"), Some("b@c".to_string()));
    assert_eq!(extract_email("> a@b <"), Some("a@b".to_string()));
    assert_eq!(extract_email("<x>"), Some("x".to_string()));
    assert_eq!(extract_email("only < here a@b"), Some("a@b".to_string()));
}

#[test]
fn bracketed_part_is_passed_through_as_it_is() {
    assert_eq!(extract_email("< A B >"), Some(" a b ".to_string()));
    assert_eq!(extract_email("<<a@b>>"), Some("<a@b".to_string()));
    assert_eq!(extract_email("n <not an address>"), Some("not an address".to_string()));
}

#[test]
fn wrapping_punctuation_is_taken_off_a_word() {
    assert_eq!(extract_email("\"John\" (work) 'j@x.org';"), Some("j@x.org".to_string()));
    assert_eq!(extract_email("to: (a@b),"), Some("a@b".to_string()));
    assert_eq!(extract_email("a,b@c;d e@f"), Some("a,b@c;d".to_string()));
    assert_eq!(extract_email("@"), Some("@".to_string()));
}

#[test]
fn case_folding_is_unicode() {
    assert_eq!(normalize("\u{dc}n\u{ef} <\u{c4}B@EXAMPLE.COM>"), "\u{e4}b@example.com");
    assert_eq!(normalize("\u{130}@X.ORG"), "i\u{307}@x.org");
}

#[test]
fn extraction_agrees_with_std() {
    let samples = [
        "",
        " ",
        "Foo Bar <JOHN@EXAMPLE.COM>",
        "random text john@example.com trailer,",
        "no address here",
        "<>",
        "<a>",
        "a<b>c<d>e",
        "> <",
        "x@y <",
        "x@y >",
        "  (x@y)  ",
        "\u{a0}\u{c4}@\u{d6}\u{a0}",
        "From: \"Doe, Jane\" <Jane.Doe@Example.org>",
        "jane@example.org (Jane Doe)",
        "a b c@d\te@f",
        ",;\"'()@",
    ];
    for s in samples {
        assert_eq!(extract_email(s), with_std(s), "{:?}", s);
        assert_eq!(normalize(s), with_std(s).unwrap_or_default(), "{:?}", s);
    }
}

#[test]
fn ascii_line_names_an_address_without_capitals() {
    let lines = [
        "Foo Bar <JOHN@EXAMPLE.COM>",
        "MIXED case WORD@Host.Example",
        "< A B >",
        "(UPPER@CASE.ORG);",
        "NOTHING HERE",
    ];
    for line in lines {
        assert!(!normalize(line).chars().any(|c| c.is_ascii_uppercase()), "{:?}", line);
    }
}

#[test]
fn word_address_has_bare_ends() {
    let lines = [
        "random text john@example.com trailer,",
        "  (\"X@Y.Z\");  ",
        "a ,;b@c;, d",
        "\t'@'\t",
        "x> ((me@host))",
    ];
    for line in lines {
        let address = extract_email(line).unwrap();
        let first = address.chars().next().unwrap();
        let last = address.chars().last().unwrap();
        for c in [first, last] {
            assert!(!c.is_whitespace(), "{:?}", line);
            assert!(!",;\"'()<>".contains(c), "{:?}", line);
        }
    }
    assert_eq!(extract_email("a ,;b@c;, d"), Some("b@c".to_string()));
    assert_eq!(extract_email("x> ((me@host))"), Some("me@host".to_string()));
}

#[test]
fn found_address_is_never_empty() {
    let lines = ["<x>", "@", "a <\u{130}>", "\u{c4}@\u{d6}", "(@)", "< >", "x <\u{a0}>"];
    for line in lines {
        let address = extract_email(line).unwrap();
        assert!(!address.is_empty(), "{:?}", line);
        assert_eq!(normalize(line), address);
    }
    for line in ["", "  ", "<>", "no address", "(,;)"] {
        assert_eq!(extract_email(line), None);
        assert!(normalize(line).is_empty());
    }
}
