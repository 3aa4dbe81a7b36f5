//! The rule table: which replies stand under which triggers.
//!
//! A table is filled once, rule by rule, and read afterwards. It keeps one
//! entry for each list of triggers and gives no promise about the order in
//! which it hands its entries out.

use dashmap::DashMap;
use vstd::prelude::*;

use crate::matcher::triggered;

verus! {

/// A list of phrases: the triggers of a rule, or its replies.
pub type Phrases = Seq<Seq<char>>;

/// The mathematical rule table: the replies under each list of triggers.
pub type RuleMap = Map<Phrases, Phrases>;

/// A rule: the phrases that set it off and the replies to choose from.
#[derive(Clone, Debug)]
pub struct Rule {
    pub triggers: Vec<&'static str>,
    pub replies: Vec<&'static str>,
}

/// A rule as two lists of phrases.
pub struct RuleView {
    pub triggers: Phrases,
    pub replies: Phrases,
}

impl View for Rule {
    type V = RuleView;

    open spec fn view(&self) -> RuleView {
        RuleView { triggers: self.triggers.deep_view(), replies: self.replies.deep_view() }
    }
}

impl Rule {
    /// The rule is set off by `text`: one of its triggers is part of it.
    pub open spec fn matches(&self, text: Seq<char>) -> bool {
        triggered(text, self@.triggers)
    }
}

/// Why a rule is not taken into a table.
#[derive(Clone, Copy, Debug, PartialEq, Eq, Structural)]
pub enum RuleError {
    /// The rule has no trigger.
    NoTriggers,
    /// The rule has no reply.
    NoReplies,
}

/// What the check of a rule gives: a rule needs a trigger and a reply.
pub open spec fn checked(triggers: Phrases, replies: Phrases) -> Result<(), RuleError> {
    if triggers.len() == 0 {
        Err(RuleError::NoTriggers)
    } else if replies.len() == 0 {
        Err(RuleError::NoReplies)
    } else {
        Ok(())
    }
}

/// `rules` hands out `held`: each of them is an entry of `held`, every entry
/// of `held` is among them, and none comes twice.
pub open spec fn lists(rules: Seq<Rule>, held: RuleMap) -> bool {
    &&& forall|i: int|
        0 <= i < rules.len() ==> held.contains_pair(
            (#[trigger] rules[i])@.triggers,
            rules[i]@.replies,
        )
    &&& forall|k: Phrases| #[trigger]
        held.dom().contains(k) ==> exists|i: int|
            0 <= i < rules.len() && (#[trigger] rules[i])@.triggers == k
    &&& forall|i: int, j: int|
        0 <= i < j < rules.len() ==> (#[trigger] rules[i])@.triggers != (#[trigger] rules[j])@.triggers
}

/// Some rule of `held` is set off by `text`.
pub open spec fn answers(held: RuleMap, text: Seq<char>) -> bool {
    exists|k: Phrases| held.dom().contains(k) && #[trigger] triggered(text, k)
}

/// `reply` is one of the replies of a rule of `held` that `text` sets off.
pub open spec fn offers(held: RuleMap, text: Seq<char>, reply: Seq<char>) -> bool {
    exists|k: Phrases|
        held.dom().contains(k) && #[trigger] triggered(text, k) && held[k].contains(reply)
}

/// `dashmap::DashMap`, carried as a value that is read and filled only
/// through the functions below.
#[verifier::external_type_specification]
#[verifier::external_body]
#[verifier::reject_recursive_types(K)]
#[verifier::reject_recursive_types(V)]
#[verifier::reject_recursive_types(S)]
pub struct ExDashMap<K, V, S>(DashMap<K, V, S>);

/// What a map of rules holds: under each list of triggers, as the key, the
/// replies, as its value. Two lists of triggers are one key when they hold
/// the same phrases in the same order.
pub uninterp spec fn rules_held(m: DashMap<Vec<&'static str>, Vec<&'static str>>) -> Map<
    Seq<Seq<char>>,
    Seq<Seq<char>>,
>;

/// `DashMap::new`: a map that holds nothing.
#[verifier::external_body]
fn map_new() -> (m: DashMap<Vec<&'static str>, Vec<&'static str>>)
    ensures
        rules_held(m) == RuleMap::empty(),
{
    DashMap::new()
}

/// `DashMap::insert`: afterwards `replies` stand under `triggers`, in place
/// of what stood there before, and every other key is as it was. The map is
/// taken exclusively, so no reference into it is alive during the call.
#[verifier::external_body]
fn map_insert(
    m: &mut DashMap<Vec<&'static str>, Vec<&'static str>>,
    triggers: Vec<&'static str>,
    replies: Vec<&'static str>,
)
    ensures
        rules_held(*final(m)) == rules_held(*old(m)).insert(
            triggers.deep_view(),
            replies.deep_view(),
        ),
{
    m.insert(triggers, replies);
}

/// `DashMap::iter`, with `key` and `value` of each item that it yields: every
/// entry of the map once, as a rule. The order is that of the map's walk
/// through its shards, of which nothing is known.
#[verifier::external_body]
fn map_entries(m: &DashMap<Vec<&'static str>, Vec<&'static str>>) -> (rules: Vec<Rule>)
    ensures
        lists(rules@, rules_held(*m)),
{
    m.iter().map(|e| Rule { triggers: e.key().clone(), replies: e.value().clone() }).collect()
}

/// A table of rules, keyed by their triggers.
pub struct RuleTable {
    rules: DashMap<Vec<&'static str>, Vec<&'static str>>,
}

impl View for RuleTable {
    type V = RuleMap;

    closed spec fn view(&self) -> RuleMap {
        rules_held(self.rules)
    }
}

impl RuleTable {
    /// Every rule of the table has a trigger and a reply.
    pub open spec fn wf(&self) -> bool {
        forall|k: Phrases| #[trigger]
            self@.dom().contains(k) ==> k.len() > 0 && self@[k].len() > 0
    }

    /// A table without rules.
    pub fn new() -> (table: RuleTable)
        ensures
            table.wf(),
            table@ == RuleMap::empty(),
    {
        RuleTable { rules: map_new() }
    }

    /// Takes a rule into the table. A rule without a trigger or without a
    /// reply is refused and the table stays as it was. A rule whose list of
    /// triggers the table already holds takes the place of the earlier one.
    pub fn insert(&mut self, triggers: Vec<&'static str>, replies: Vec<&'static str>) -> (r: Result<
        (),
        RuleError,
    >)
        requires
            old(self).wf(),
        ensures
            final(self).wf(),
            r == checked(triggers.deep_view(), replies.deep_view()),
            r is Ok ==> final(self)@ == old(self)@.insert(
                triggers.deep_view(),
                replies.deep_view(),
            ),
            r is Err ==> final(self)@ == old(self)@,
    {
        if triggers.len() == 0 {
            return Err(RuleError::NoTriggers);
        }
        if replies.len() == 0 {
            return Err(RuleError::NoReplies);
        }
        let ghost key = triggers.deep_view();
        map_insert(&mut self.rules, triggers, replies);
        assert forall|k: Phrases| #[trigger] self@.dom().contains(k) implies k.len() > 0
            && self@[k].len() > 0 by {
            if k != key {
                assert(old(self)@.dom().contains(k));
            }
        }
        Ok(())
    }

    /// All rules of the table, each once, in the table's own order.
    pub fn lookup_all(&self) -> (rules: Vec<Rule>)
        ensures
            lists(rules@, self@),
    {
        map_entries(&self.rules)
    }
}

} // verus!
