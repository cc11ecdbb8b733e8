//! Rules and the ordered set of them that messages are classified against.

use vstd::prelude::*;
use crate::matching::{
    header_accepts, header_matches, lemma_empty_pattern_accepts_all, sender_accepts, sender_matches,
};
use crate::text::classes::{trim, trim_str};

verus! {

/// A named pair of patterns. An empty pattern accepts anything.
#[derive(Clone, Debug, PartialEq, Eq)]
pub struct Rule {
    /// The name that a rule set knows the rule by.
    pub name: String,
    /// The pattern for the sender's address.
    pub sender_pattern: String,
    /// The pattern for the subject.
    pub subject_pattern: String,
}

/// A rule as contracts see it.
pub struct RuleView {
    pub name: Seq<char>,
    pub sender_pattern: Seq<char>,
    pub subject_pattern: Seq<char>,
}

impl View for Rule {
    type V = RuleView;

    open spec fn view(&self) -> RuleView {
        RuleView {
            name: self.name@,
            sender_pattern: self.sender_pattern@,
            subject_pattern: self.subject_pattern@,
        }
    }
}

/// Rules in the order in which they were put in, no two with one name.
#[derive(Debug, PartialEq, Eq)]
pub struct RuleSet {
    rules: Vec<Rule>,
}

impl View for RuleSet {
    type V = Seq<RuleView>;

    closed spec fn view(&self) -> Seq<RuleView> {
        Seq::new(self.rules@.len(), |i: int| self.rules@[i]@)
    }
}

/// One entry of a rule definition source: a rule's name and its two patterns as the
/// source wrote them.
#[derive(Clone, Debug, PartialEq, Eq)]
pub struct RuleDefinition {
    pub name: String,
    pub sender: String,
    pub header: String,
}

/// What reading the rule definition source came to.
#[derive(Clone, Debug, PartialEq, Eq)]
pub enum RuleSource {
    /// There is no source.
    Missing,
    /// The source could not be understood.
    Malformed,
    /// The entries of the source, in its order.
    Parsed(Vec<RuleDefinition>),
}

/// Whether `rule` accepts a message from `email` with the subject `subject`: both of
/// its patterns do.
pub open spec fn rule_accepts(rule: RuleView, email: Seq<char>, subject: Seq<char>) -> bool {
    sender_accepts(rule.sender_pattern, email) && header_accepts(rule.subject_pattern, subject)
}

/// The index of the first of `rules` that accepts the message.
pub open spec fn first_match(rules: Seq<RuleView>, email: Seq<char>, subject: Seq<char>) -> Option<int>
    decreases rules.len(),
{
    if rules.len() == 0 {
        None
    } else if rule_accepts(rules[0], email, subject) {
        Some(0)
    } else {
        match first_match(rules.drop_first(), email, subject) {
            Some(i) => Some(i + 1),
            None => None,
        }
    }
}

/// Whether no two of `rules` share a name.
pub open spec fn unique_names(rules: Seq<RuleView>) -> bool {
    forall|i: int, j: int| 0 <= i < j < rules.len() ==> rules[i].name != rules[j].name
}

/// Whether one of `rules` has the name `name`.
pub open spec fn has_name(rules: Seq<RuleView>, name: Seq<char>) -> bool {
    exists|i: int| 0 <= i < rules.len() && rules[i].name == name
}

/// `rules` with `rule` put in: in the place of the rule that has its name, or at the
/// end where none has.
pub open spec fn with_rule(rules: Seq<RuleView>, rule: RuleView) -> Seq<RuleView> {
    if has_name(rules, rule.name) {
        rules.update(choose|i: int| 0 <= i < rules.len() && rules[i].name == rule.name, rule)
    } else {
        rules.push(rule)
    }
}

/// The rule that a definition stands for: its name as written, its patterns trimmed.
pub open spec fn rule_of(definition: RuleDefinition) -> RuleView {
    RuleView {
        name: definition.name@,
        sender_pattern: trim(definition.sender@),
        subject_pattern: trim(definition.header@),
    }
}

/// The rules that `definitions` stand for, each put in after those before it.
pub open spec fn rules_of(definitions: Seq<RuleDefinition>) -> Seq<RuleView>
    decreases definitions.len(),
{
    if definitions.len() == 0 {
        Seq::empty()
    } else {
        with_rule(rules_of(definitions.drop_last()), rule_of(definitions.last()))
    }
}

/// The rule set that a definition source gives: that of its entries, or the empty set
/// where the source is missing or malformed.
pub open spec fn loaded(source: RuleSource) -> Seq<RuleView> {
    match source {
        RuleSource::Parsed(definitions) => rules_of(definitions@),
        _ => Seq::empty(),
    }
}

impl Rule {
    /// A rule with the given name and patterns.
    pub fn new(name: &str, sender_pattern: &str, subject_pattern: &str) -> (r: Rule)
        ensures
            r@ == (RuleView {
                name: name@,
                sender_pattern: sender_pattern@,
                subject_pattern: subject_pattern@,
            }),
    {
        Rule {
            name: name.to_owned(),
            sender_pattern: sender_pattern.to_owned(),
            subject_pattern: subject_pattern.to_owned(),
        }
    }

    /// Whether the rule accepts a message from `email` with the subject `subject`. A
    /// message whose address is empty is accepted only by a rule for every sender.
    pub fn matches(&self, email: &str, subject: &str) -> (r: bool)
        ensures
            r == rule_accepts(self@, email@, subject@),
            r && trim(email@).len() == 0 ==> trim(self@.sender_pattern).len() == 0,
    {
        sender_matches(self.sender_pattern.as_str(), email) && header_matches(
            self.subject_pattern.as_str(),
            subject,
        )
    }
}

impl RuleSet {
    #[verifier::type_invariant]
    spec fn names_differ(&self) -> bool {
        forall|i: int, j: int|
            0 <= i < j < self.rules@.len() ==> self.rules@[i].name@ != self.rules@[j].name@
    }

    /// The set without rules.
    pub fn new() -> (r: RuleSet)
        ensures
            r@ == Seq::<RuleView>::empty(),
    {
        RuleSet { rules: Vec::new() }
    }

    /// How many rules the set holds.
    pub fn len(&self) -> (n: usize)
        ensures
            n == self@.len(),
            unique_names(self@),
    {
        proof {
            use_type_invariant(self);
        }
        self.rules.len()
    }

    /// The rule at place `index`, counted from 0 in the order of insertion.
    pub fn get(&self, index: usize) -> (r: Option<&Rule>)
        ensures
            match r {
                Some(rule) => index < self@.len() && rule@ == self@[index as int],
                None => index >= self@.len(),
            },
    {
        if index < self.rules.len() {
            Some(&self.rules[index])
        } else {
            None
        }
    }

    /// Puts a rule in, its patterns trimmed: in the place of the rule that has the
    /// name, or at the end where none has.
    pub fn insert(&mut self, name: &str, sender_pattern: &str, subject_pattern: &str)
        ensures
            final(self)@ == with_rule(
                old(self)@,
                RuleView {
                    name: name@,
                    sender_pattern: trim(sender_pattern@),
                    subject_pattern: trim(subject_pattern@),
                },
            ),
            unique_names(final(self)@),
    {
        let rule = Rule {
            name: name.to_owned(),
            sender_pattern: trim_str(sender_pattern),
            subject_pattern: trim_str(subject_pattern),
        };
        let mut taken = RuleSet::new();
        core::mem::swap(self, &mut taken);
        proof {
            use_type_invariant(&taken);
        }
        let ghost before = taken@;
        let mut rules: Vec<Rule> = taken.rules;
        let mut i: usize = 0;
        while i < rules.len() && !(rules[i].name == rule.name)
            invariant
                i <= rules@.len(),
                forall|j: int| 0 <= j < i ==> rules@[j].name@ != rule.name@,
            decreases rules@.len() - i,
        {
            i += 1;
        }
        if i < rules.len() {
            assert(before[i as int] == rules@[i as int]@);
            rules[i] = rule;
        } else {
            rules.push(rule);
        }
        *self = RuleSet { rules };
    }

    /// The first rule, in the order of insertion, that accepts a message from `email`
    /// with the subject `subject`. A message whose address is empty falls under a rule
    /// for every sender only.
    pub fn find(&self, email: &str, subject: &str) -> (r: Option<&Rule>)
        ensures
            match r {
                Some(rule) => first_match(self@, email@, subject@) is Some
                    && self@[first_match(self@, email@, subject@)->0] == rule@,
                None => first_match(self@, email@, subject@) is None,
            },
            r is Some <==> exists|i: int|
                0 <= i < self@.len() && rule_accepts(#[trigger] self@[i], email@, subject@),
            r is Some && trim(email@).len() == 0 ==> trim(r->0@.sender_pattern).len() == 0,
    {
        let mut i: usize = 0;
        while i < self.rules.len()
            invariant
                i <= self.rules@.len(),
                forall|j: int| 0 <= j < i ==> !rule_accepts(#[trigger] self@[j], email@, subject@),
            decreases self.rules@.len() - i,
        {
            assert(self@[i as int] == self.rules@[i as int]@);
            if self.rules[i].matches(email, subject) {
                proof {
                    lemma_first_match(self@, email@, subject@);
                }
                return Some(&self.rules[i]);
            }
            i += 1;
        }
        proof {
            lemma_first_match(self@, email@, subject@);
        }
        None
    }
}

/// Builds the rule set from what reading the definition source came to.
pub fn load_rules(source: RuleSource) -> (r: RuleSet)
    ensures
        r@ == loaded(source),
        unique_names(r@),
{
    let mut set = RuleSet::new();
    match source {
        RuleSource::Parsed(definitions) => {
            let mut i: usize = 0;
            while i < definitions.len()
                invariant
                    i <= definitions@.len(),
                    set@ == rules_of(definitions@.take(i as int)),
                    unique_names(set@),
                decreases definitions@.len() - i,
            {
                let definition: &RuleDefinition = &definitions[i];
                assert(definitions@.take(i as int + 1).drop_last() == definitions@.take(i as int));
                set.insert(
                    definition.name.as_str(),
                    definition.sender.as_str(),
                    definition.header.as_str(),
                );
                i += 1;
            }
            assert(definitions@.take(definitions@.len() as int) == definitions@);
        },
        _ => {},
    }
    set
}

/// `first_match` gives the earliest accepting rule, and none only where no rule accepts.
pub proof fn lemma_first_match(rules: Seq<RuleView>, email: Seq<char>, subject: Seq<char>)
    ensures
        match first_match(rules, email, subject) {
            Some(i) => {
                &&& 0 <= i < rules.len()
                &&& rule_accepts(rules[i], email, subject)
                &&& forall|j: int| 0 <= j < i ==> !rule_accepts(#[trigger] rules[j], email, subject)
            },
            None => forall|j: int|
                0 <= j < rules.len() ==> !rule_accepts(#[trigger] rules[j], email, subject),
        },
    decreases rules.len(),
{
    if rules.len() > 0 && !rule_accepts(rules[0], email, subject) {
        let rest = rules.drop_first();
        lemma_first_match(rest, email, subject);
        match first_match(rest, email, subject) {
            Some(i) => {
                assert forall|j: int| 0 <= j < i + 1 implies !rule_accepts(
                    #[trigger] rules[j],
                    email,
                    subject,
                ) by {
                    if j > 0 {
                        assert(rules[j] == rest[j - 1]);
                    }
                }
            },
            None => {
                assert forall|j: int| 0 <= j < rules.len() implies !rule_accepts(
                    #[trigger] rules[j],
                    email,
                    subject,
                ) by {
                    if j > 0 {
                        assert(rules[j] == rest[j - 1]);
                    }
                }
            },
        }
    }
}

/// Of two rules that both accept a message, the one that stands first in the set is
/// chosen before the other: the match is an accepting rule that stands at or before
/// the first of the two, and so is never the second.
pub proof fn lemma_first_match_wins(
    rules: Seq<RuleView>,
    email: Seq<char>,
    subject: Seq<char>,
    i: int,
    j: int,
)
    requires
        0 <= i < j < rules.len(),
        rule_accepts(rules[i], email, subject),
        rule_accepts(rules[j], email, subject),
    ensures
        first_match(rules, email, subject) is Some,
        first_match(rules, email, subject)->0 <= i,
        first_match(rules, email, subject)->0 != j,
        rule_accepts(rules[first_match(rules, email, subject)->0], email, subject),
{
    lemma_first_match(rules, email, subject);
}

/// A rule whose two patterns are empty accepts every message, so a set that holds
/// such a rule matches every message.
pub proof fn lemma_catch_all_rule(
    rules: Seq<RuleView>,
    i: int,
    email: Seq<char>,
    subject: Seq<char>,
)
    requires
        0 <= i < rules.len(),
        rules[i].sender_pattern.len() == 0,
        rules[i].subject_pattern.len() == 0,
    ensures
        rule_accepts(rules[i], email, subject),
        first_match(rules, email, subject) is Some,
        first_match(rules, email, subject)->0 <= i,
{
    lemma_empty_pattern_accepts_all(rules[i].sender_pattern, email, subject);
    lemma_empty_pattern_accepts_all(rules[i].subject_pattern, email, subject);
    lemma_first_match(rules, email, subject);
}

} // verus!
