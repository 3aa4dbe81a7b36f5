//! A keyword responder: a table of rules, each a set of trigger phrases with
//! the replies to choose from, a matcher that looks for a trigger inside an
//! incoming text, and a responder that answers with one reply of a matching
//! rule.

pub mod bot;
pub mod matcher;
pub mod report;
pub mod responder;
pub mod rules;
