use mail_classifier::address::extract_email;
use mail_classifier::config::parse_port;
use mail_classifier::headers::parse_from_and_subject;
use mail_classifier::matching::{header_matches, sender_matches};
use mail_classifier::text::classes::trim_str;

const ALPHABET: [char; 40] = [
    'a', 'b', 'B', 'x', 'Z', '@', '@', '<', '>', ' ', ' ', '\t', '\n', '\n', '\r', ',', ';', '"',
    '\'', '(', ')', '%', '%', ':', '.', '0', '9', '+', '\u{c4}', '\u{e4}', '\u{df}', '\u{130}',
    '\u{a0}', '\u{3000}', '\u{2028}', '\u{85}', '\u{200b}', '\u{1f600}', 'F', 's',
];

const HEADER_WORDS: [&str; 10] = [
    "From:", "from:", "FROM:", "Subject:", "subject:", "SUBJECT:", "Subject", "\r", "\r\n", "\n",
];

struct Source(u64);

impl Source {
    fn next(&mut self) -> u64 {
        self.0 ^= self.0 << 13;
        self.0 ^= self.0 >> 7;
        self.0 ^= self.0 << 17;
        self.0
    }

    fn below(&mut self, n: usize) -> usize {
        (self.next() % (n as u64)) as usize
    }

    fn text(&mut self, longest: usize) -> String {
        let len = self.below(longest + 1);
        let mut out = String::new();
        for _ in 0..len {
            out.push(ALPHABET[self.below(ALPHABET.len())]);
        }
        out
    }

    fn message(&mut self) -> String {
        let parts = self.below(8);
        let mut out = String::new();
        for _ in 0..parts {
            if self.below(2) == 0 {
                out.push_str(HEADER_WORDS[self.below(HEADER_WORDS.len())]);
            }
            out.push_str(&self.text(6));
        }
        out
    }
}

fn lower(s: &str) -> String {
    s.chars().flat_map(|c| c.to_lowercase()).collect()
}

fn address_with_std(from_line: &str) -> Option<String> {
    let s = from_line.trim();
    if let (Some(l), Some(r)) = (s.find('<'), s.find('>')) {
        if r > l + 1 {
            return Some(lower(&s[l + 1..r]));
        }
    }
    s.split_whitespace()
        .find(|t| t.contains('@'))
        .map(|t| lower(t.trim_matches(|c: char| ",;\"'()<>".contains(c))))
}

fn sender_with_std(pattern: &str, email: &str) -> bool {
    let pattern = pattern.trim();
    if pattern.is_empty() {
        return true;
    }
    let rs = lower(pattern);
    let em = lower(email.trim());
    match rs.strip_prefix('@') {
        Some(domain) => match em.rfind('@') {
            Some(at) => &em[at + 1..] == domain,
            None => false,
        },
        None => em == rs,
    }
}

fn header_with_std(pattern: &str, subject: &str) -> bool {
    let pattern = pattern.trim();
    if pattern.is_empty() {
        return true;
    }
    let rh = lower(pattern);
    let sub = lower(subject.trim());
    if rh.contains('%') {
        let needle: String = rh.chars().filter(|&c| c != '%').collect();
        needle.is_empty() || sub.contains(&needle)
    } else {
        sub == rh
    }
}

fn headers_with_std(raw: &str) -> (String, String) {
    let mut from: Option<String> = None;
    let mut subject: Option<String> = None;
    for line in raw.split(|c: char| c == '\n' || c == '\r') {
        let l = line.trim();
        let ll = l.to_ascii_lowercase();
        if from.is_none() && ll.starts_with("from:") {
            from = Some(l.to_string());
        }
        if subject.is_none() && ll.starts_with("subject:") {
            subject = Some(l["subject:".len()..].trim().to_string());
        }
        if from.is_some() && subject.is_some() {
            break;
        }
    }
    (from.unwrap_or_default(), subject.unwrap_or_default())
}

#[test]
fn random_lines_give_the_address_that_std_gives() {
    let mut source = Source(0x9e3779b97f4a7c15);
    for _ in 0..20000 {
        let line = source.text(14);
        assert_eq!(extract_email(&line), address_with_std(&line), "{:?}", line);
    }
}

#[test]
fn random_patterns_decide_as_std_decides() {
    let mut source = Source(0x2545f4914f6cdd1d);
    for _ in 0..20000 {
        let pattern = source.text(5);
        let text = source.text(9);
        assert_eq!(
            sender_matches(&pattern, &text),
            sender_with_std(&pattern, &text),
            "sender {:?} {:?}",
            pattern,
            text
        );
        assert_eq!(
            header_matches(&pattern, &text),
            header_with_std(&pattern, &text),
            "header {:?} {:?}",
            pattern,
            text
        );
    }
}

#[test]
fn random_messages_give_the_headers_that_std_gives() {
    let mut source = Source(0xd1b54a32d192ed03);
    for _ in 0..20000 {
        let raw = source.message();
        assert_eq!(parse_from_and_subject(&raw), headers_with_std(&raw), "{:?}", raw);
    }
}

#[test]
fn random_text_is_trimmed_as_std_trims() {
    let mut source = Source(0x94d049bb133111eb);
    for _ in 0..20000 {
        let text = source.text(8);
        assert_eq!(trim_str(&text), text.trim(), "{:?}", text);
    }
}

#[test]
fn random_port_texts_are_read_as_std_reads() {
    let digits = ['0', '1', '5', '6', '9', '+', '-', ' ', 'a'];
    let mut source = Source(0xbf58476d1ce4e5b9);
    for _ in 0..20000 {
        let len = source.below(8);
        let mut text = String::new();
        for _ in 0..len {
            text.push(digits[source.below(digits.len())]);
        }
        assert_eq!(parse_port(&text), text.parse::<u16>().ok(), "{:?}", text);
    }
}
