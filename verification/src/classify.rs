//! Classification of one message: its sender, its subject and the rule that it falls
//! under.

use vstd::prelude::*;
use vstd::utf8::{decode_utf8, valid_utf8};
use crate::address::{address_of, normalize, normalized};
use crate::headers::{from_line_of, parse_from_and_subject, subject_of};
use crate::rules::{first_match, RuleSet, RuleView};
use crate::stdlib::{decode_lossy, utf8_lossy};

verus! {

/// How the mail server names a message.
#[derive(Clone, Copy, Debug, PartialEq, Eq)]
pub struct MessageId {
    /// The sequence number of the message in its mailbox.
    pub seq: u32,
    /// The unique identifier that the server gave the message, if it gave one.
    pub uid: Option<u32>,
}

/// One fetched message: its identifiers and its bytes as the server sent them.
#[derive(Clone, Debug, PartialEq, Eq)]
pub struct RawMessage {
    pub id: MessageId,
    pub body: Vec<u8>,
}

/// What classification found out about one message.
#[derive(Clone, Debug, PartialEq, Eq)]
pub struct ClassificationResult {
    /// The identifiers of the message.
    pub message_id: MessageId,
    /// The sender's address in canonical form; empty where none was found.
    pub email: String,
    /// The subject; empty where the message has none.
    pub subject: String,
    /// The name of the first rule that accepts the message, if any does.
    pub matched_rule: Option<String>,
}

/// A classification result as contracts see it.
pub struct ClassificationView {
    pub message_id: MessageId,
    pub email: Seq<char>,
    pub subject: Seq<char>,
    pub matched_rule: Option<Seq<char>>,
}

impl View for ClassificationResult {
    type V = ClassificationView;

    open spec fn view(&self) -> ClassificationView {
        ClassificationView {
            message_id: self.message_id,
            email: self.email@,
            subject: self.subject@,
            matched_rule: match self.matched_rule {
                Some(name) => Some(name@),
                None => None,
            },
        }
    }
}

/// The classification of the message `id` with the text `text` against `rules`.
pub open spec fn classification_of_text(
    rules: Seq<RuleView>,
    id: MessageId,
    text: Seq<char>,
) -> ClassificationView {
    let email = normalized(from_line_of(text));
    let subject = subject_of(text);
    ClassificationView {
        message_id: id,
        email,
        subject,
        matched_rule: match first_match(rules, email, subject) {
            Some(i) => Some(rules[i].name),
            None => None,
        },
    }
}

/// The classification of the message `id` with the bytes `body` against `rules`.
pub open spec fn classification_of(
    rules: Seq<RuleView>,
    id: MessageId,
    body: Seq<u8>,
) -> ClassificationView {
    classification_of_text(rules, id, utf8_lossy(body))
}

/// Classifies messages against a rule set that it holds and never changes.
#[derive(Debug, PartialEq, Eq)]
pub struct MessageClassifier {
    rules: RuleSet,
}

impl MessageClassifier {
    /// The rules that messages are classified against.
    pub closed spec fn rules(&self) -> Seq<RuleView> {
        self.rules@
    }

    /// A classifier for `rules`.
    pub fn new(rules: RuleSet) -> (r: MessageClassifier)
        ensures
            r.rules() == rules@,
    {
        MessageClassifier { rules }
    }

    /// The rule set that the classifier holds.
    pub fn rule_set(&self) -> (r: &RuleSet)
        ensures
            r@ == self.rules(),
    {
        &self.rules
    }

    /// Classifies the message `id` whose text is `text`. The address is empty exactly
    /// if the `From` line names none.
    pub fn classify_text(&self, id: MessageId, text: &str) -> (r: ClassificationResult)
        ensures
            r@ == classification_of_text(self.rules(), id, text@),
            r.email@.len() == 0 <==> address_of(from_line_of(text@)) is None,
    {
        let (from_line, subject) = parse_from_and_subject(text);
        let email: String = normalize(from_line.as_str());
        let matched_rule: Option<String> = match self.rules.find(email.as_str(), subject.as_str()) {
            Some(rule) => Some(rule.name.clone()),
            None => None,
        };
        ClassificationResult { message_id: id, email, subject, matched_rule }
    }

    /// Classifies `message`, its bytes read as UTF-8 with U+FFFD for what is not. Where
    /// the bytes are valid UTF-8, the result is that of the text they encode.
    pub fn classify(&self, message: &RawMessage) -> (r: ClassificationResult)
        ensures
            r@ == classification_of(self.rules(), message.id, message.body@),
            valid_utf8(message.body@) ==> r@ == classification_of_text(
                self.rules(),
                message.id,
                decode_utf8(message.body@),
            ),
    {
        let text: String = decode_lossy(message.body.as_slice());
        self.classify_text(message.id, text.as_str())
    }
}

/// Classification keeps no state: two results for one message and one rule set are
/// equal.
pub proof fn lemma_classification_repeats(
    rules: Seq<RuleView>,
    id: MessageId,
    body: Seq<u8>,
    first: ClassificationResult,
    second: ClassificationResult,
)
    requires
        first@ == classification_of(rules, id, body),
        second@ == classification_of(rules, id, body),
    ensures
        first@ == second@,
        first.message_id == second.message_id,
        first.email@ == second.email@,
        first.subject@ == second.subject@,
        first.matched_rule is Some <==> second.matched_rule is Some,
        first.matched_rule is Some ==> first.matched_rule->0@ == second.matched_rule->0@,
{
}

} // verus!
