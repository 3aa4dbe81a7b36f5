//! The responder: the reply to an incoming text.
//!
//! The rules are tried in the order in which they are handed over. The first
//! one that the text sets off answers, with one of its replies picked at
//! random. A text that sets off no rule gets no reply.

use rand::rngs::ThreadRng;
use rand::seq::SliceRandom;
use vstd::prelude::*;

use crate::matcher::{match_message, triggered};
use crate::rules::{answers, lists, offers, Phrases, Rule, RuleMap, RuleTable};

verus! {

/// `rules[at]` is the first of `rules` that `text` sets off.
pub open spec fn is_first_match(rules: Seq<Rule>, text: Seq<char>, at: int) -> bool {
    &&& 0 <= at < rules.len()
    &&& rules[at].matches(text)
    &&& forall|j: int| 0 <= j < at ==> !(#[trigger] rules[j]).matches(text)
}

/// `text` sets off none of `rules`.
pub open spec fn no_match(rules: Seq<Rule>, text: Seq<char>) -> bool {
    forall|j: int| 0 <= j < rules.len() ==> !(#[trigger] rules[j]).matches(text)
}

/// `rand::rngs::ThreadRng`, carried from where it is made to where it is used.
#[verifier::external_type_specification]
#[verifier::external_body]
pub struct ExThreadRng(ThreadRng);

/// `rand::thread_rng`: the random source of the running thread, which the
/// operating system seeds when the thread first asks for it. Nothing is
/// claimed of what it will give.
#[verifier::external_body]
fn thread_source() -> ThreadRng {
    rand::thread_rng()
}

/// `rand::seq::SliceRandom::choose` on a slice: nothing from an empty slice,
/// else one of its items. Which one depends on `rng`, and nothing is claimed
/// of it.
#[verifier::external_body]
fn choose_from<'a>(v: &[&'a str], rng: &mut ThreadRng) -> (picked: Option<&'a str>)
    ensures
        picked is Some <==> v@.len() > 0,
        picked is Some ==> v@.contains(picked->0),
{
    v.choose(rng).copied()
}

/// One of `v`, picked at random by the random source of the running thread.
pub fn random_choice<'a>(v: &[&'a str]) -> (reply: &'a str)
    requires
        v@.len() > 0,
    ensures
        v@.contains(reply),
{
    let mut rng = thread_source();
    choose_from(v, &mut rng).unwrap()
}

/// The reply to `message` by `rules`, tried in their order: one of the
/// replies of the first rule that `message` sets off, or nothing.
pub fn respond_in_order(rules: &[Rule], message: &str) -> (reply: Option<&'static str>)
    requires
        forall|i: int| is_first_match(rules@, message@, i) ==> rules@[i].replies.len() > 0,
    ensures
        reply is None <==> no_match(rules@, message@),
        reply matches Some(r) ==> exists|i: int|
            is_first_match(rules@, message@, i) && rules@[i]@.replies.contains(r@),
{
    let mut i: usize = 0;
    while i < rules.len()
        invariant
            i <= rules.len(),
            forall|j: int| 0 <= j < i ==> !(#[trigger] rules@[j]).matches(message@),
            forall|i: int| is_first_match(rules@, message@, i) ==> rules@[i].replies.len() > 0,
        decreases rules.len() - i,
    {
        let rule = &rules[i];
        if match_message(message, rule.triggers.as_slice()) {
            assert(is_first_match(rules@, message@, i as int));
            let r = random_choice(rule.replies.as_slice());
            proof {
                let at = choose|at: int| 0 <= at < rule.replies@.len() && rule.replies@[at] == r;
                assert(rule@.replies[at] == r@);
            }
            return Some(r);
        }
        i += 1;
    }
    None
}

/// Among rules in a given order at most one is the first that a text sets
/// off.
pub proof fn lemma_first_match_unique(rules: Seq<Rule>, text: Seq<char>, i: int, j: int)
    requires
        is_first_match(rules, text, i),
        is_first_match(rules, text, j),
    ensures
        i == j,
{
}

/// Whatever the order in which a table hands out its rules, a text sets off
/// one of them exactly when it sets off a rule of the table.
pub proof fn lemma_listed_match(rules: Seq<Rule>, held: RuleMap, text: Seq<char>)
    requires
        lists(rules, held),
    ensures
        no_match(rules, text) <==> !answers(held, text),
{
    if answers(held, text) {
        let k = choose|k: Phrases| held.dom().contains(k) && #[trigger] triggered(text, k);
        let i = choose|i: int| 0 <= i < rules.len() && (#[trigger] rules[i])@.triggers == k;
        assert(rules[i].matches(text));
    }
    if !no_match(rules, text) {
        let j = choose|j: int| 0 <= j < rules.len() && (#[trigger] rules[j]).matches(text);
        assert(held.dom().contains(rules[j]@.triggers));
    }
}

/// The reply of the table to `message`: one of the replies of a rule that
/// `message` sets off, or nothing when it sets off none. Where it sets off
/// several rules, the one that the table hands out first answers. The table
/// is only read: it holds the same rules after the call as before.
pub fn respond(table: &RuleTable, message: &str) -> (reply: Option<&'static str>)
    requires
        table.wf(),
    ensures
        reply is Some <==> answers(table@, message@),
        reply matches Some(r) ==> offers(table@, message@, r@),
{
    let rules = table.lookup_all();
    proof {
        lemma_listed_match(rules@, table@, message@);
        assert forall|i: int| is_first_match(rules@, message@, i) implies rules@[i].replies.len()
            > 0 by {
            assert(table@.dom().contains(rules@[i]@.triggers));
            assert(rules@[i]@.replies.len() == rules@[i].replies.len());
        }
    }
    let reply = respond_in_order(rules.as_slice(), message);
    proof {
        if let Some(r) = reply {
            let i = choose|i: int|
                is_first_match(rules@, message@, i) && rules@[i]@.replies.contains(r@);
            assert(table@.dom().contains(rules@[i]@.triggers));
        }
    }
    reply
}

} // verus!
