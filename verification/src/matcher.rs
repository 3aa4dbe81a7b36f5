//! Trigger matching: literal, case-sensitive containment of a phrase in a text.
//!
//! A text and a phrase are compared character by character, with no
//! normalization, trimming or tokenization of either. A trigger is a phrase
//! that is not empty: the empty phrase, which is part of every text, sets
//! nothing off.

use vstd::prelude::*;

verus! {

/// `pat` stands in `text` at position `at`.
pub open spec fn occurs_at(pat: Seq<char>, text: Seq<char>, at: int) -> bool {
    &&& 0 <= at
    &&& at + pat.len() <= text.len()
    &&& text.subrange(at, at + pat.len()) == pat
}

/// `pat` is a contiguous part of `text`. The empty phrase is part of every
/// text, the empty one included.
pub open spec fn occurs_in(pat: Seq<char>, text: Seq<char>) -> bool {
    exists|at: int| occurs_at(pat, text, at)
}

/// `trigger` sets off on `text`: it is not empty and is a contiguous part of
/// `text`.
pub open spec fn fires(trigger: Seq<char>, text: Seq<char>) -> bool {
    trigger.len() > 0 && occurs_in(trigger, text)
}

/// At least one of `triggers` sets off on `text`.
pub open spec fn triggered(text: Seq<char>, triggers: Seq<Seq<char>>) -> bool {
    exists|i: int| 0 <= i < triggers.len() && fires(#[trigger] triggers[i], text)
}

/// Whether a text is triggered depends on the triggers as a set: neither
/// their order nor a trigger listed twice makes a difference.
pub proof fn lemma_triggered_by_member(text: Seq<char>, triggers: Seq<Seq<char>>)
    ensures
        triggered(text, triggers) <==> exists|t: Seq<char>|
            #[trigger] triggers.contains(t) && fires(t, text),
{
    if triggered(text, triggers) {
        let i = choose|i: int| 0 <= i < triggers.len() && fires(#[trigger] triggers[i], text);
        assert(triggers.contains(triggers[i]));
    }
}

/// Where no trigger is the empty phrase, a text is triggered exactly when
/// at least one of the triggers is a contiguous part of it.
pub proof fn lemma_triggered_is_containment(text: Seq<char>, triggers: Seq<Seq<char>>)
    requires
        forall|i: int| 0 <= i < triggers.len() ==> (#[trigger] triggers[i]).len() > 0,
    ensures
        triggered(text, triggers) <==> exists|t: Seq<char>|
            #[trigger] triggers.contains(t) && occurs_in(t, text),
{
    lemma_triggered_by_member(text, triggers);
    if exists|t: Seq<char>| #[trigger] triggers.contains(t) && occurs_in(t, text) {
        let t = choose|t: Seq<char>| #[trigger] triggers.contains(t) && occurs_in(t, text);
        assert(fires(t, text));
    }
}

/// The characters of `s`, in order.
pub fn chars_of(s: &str) -> (v: Vec<char>)
    ensures
        v@ == s@,
{
    let mut v: Vec<char> = Vec::new();
    for c in it: s.chars()
        invariant
            v@ == it.seq().take(it.index()),
    {
        v.push(c);
    }
    v
}

/// Compares `pat` with the part of `text` that starts at `at`.
fn stands_at(pat: &Vec<char>, text: &Vec<char>, at: usize) -> (b: bool)
    requires
        at + pat.len() <= text.len(),
    ensures
        b == occurs_at(pat@, text@, at as int),
{
    let mut j: usize = 0;
    while j < pat.len()
        invariant
            j <= pat.len(),
            at + pat.len() <= text.len(),
            forall|k: int| 0 <= k < j ==> text@[at + k] == pat@[k],
        decreases pat.len() - j,
    {
        if text[at + j] != pat[j] {
            assert(text@.subrange(at as int, at + pat.len())[j as int] == text@[at + j]);
            return false;
        }
        j += 1;
    }
    assert(text@.subrange(at as int, at + pat.len()) =~= pat@);
    true
}

/// Looks for `pat` in `text`, both given by their characters, from the left.
pub fn find_in(pat: &Vec<char>, text: &Vec<char>) -> (b: bool)
    ensures
        b == occurs_in(pat@, text@),
{
    if pat.len() > text.len() {
        return false;
    }
    let last: usize = text.len() - pat.len();
    let mut at: usize = 0;
    loop
        invariant
            at <= last,
            last == text.len() - pat.len(),
            forall|k: int| 0 <= k < at ==> !occurs_at(pat@, text@, k),
        decreases last - at,
    {
        if stands_at(pat, text, at) {
            return true;
        }
        if at == last {
            return false;
        }
        at += 1;
    }
}

/// Whether `message` holds at least one of `patterns`. The patterns are
/// tried in order and the search ends with the first that is found. An empty
/// pattern is passed over.
pub fn match_message(message: &str, patterns: &[&str]) -> (b: bool)
    ensures
        b == triggered(message@, patterns.deep_view()),
{
    let text = chars_of(message);
    let mut i: usize = 0;
    while i < patterns.len()
        invariant
            i <= patterns.len(),
            text@ == message@,
            forall|k: int| 0 <= k < i ==> !fires(#[trigger] patterns.deep_view()[k], message@),
        decreases patterns.len() - i,
    {
        let pat = chars_of(patterns[i]);
        assert(pat@ == patterns.deep_view()[i as int]);
        if pat.len() > 0 && find_in(&pat, &text) {
            return true;
        }
        i += 1;
    }
    false
}

} // verus!
