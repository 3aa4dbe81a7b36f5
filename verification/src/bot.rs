//! The rules that the bot answers by.

use vstd::prelude::*;
use vstd::slice::slice_to_vec;

use crate::rules::{RuleMap, RuleTable};

verus! {

/// The phrases that ask for a song.
pub const KPOP_TRIGGERS: [&'static str; 3] = ["kpop time", "k p o p   t i m e", "kpop tijd"];

/// The songs to answer with.
pub const KPOP_REPLIES: [&'static str; 21] = [
    "https://youtu.be/9bZkp7q19f0",
    "https://youtu.be/POe9SOEKotk",
    "https://youtu.be/5UdoUmvu_n8",
    "https://youtu.be/2e-Q7GfCGbA",
    "https://youtu.be/id6q2EP2UqE",
    "https://youtu.be/8dJyRm2jJ-U",
    "https://youtu.be/JQGRg8XBnB4",
    "https://youtu.be/Hbb5GPxXF1w",
    "https://youtu.be/p1bjnyDqI9k",
    "https://youtu.be/k6jqx9kZgPM",
    "https://youtu.be/z8Eu-HU0sWQ",
    "https://youtu.be/eH8jn4W8Bqc",
    "https://youtu.be/IHNzOHi8sJs",
    "https://youtu.be/WPdWvnAAurg",
    "https://youtu.be/gdZLi9oWNZg",
    "https://youtu.be/H8kqPkEXP_E",
    "https://youtu.be/awkkyBH2zEo",
    "https://youtu.be/z3szNvgQxHo",
    "https://youtu.be/i0p1bmr0EmE",
    "https://youtu.be/WyiIGEHQP8o",
    "https://youtu.be/lcRV2gyEfMo",
];

/// The phrases that look back on the week.
pub const WEEK_TRIGGERS: [&'static str; 2] = ["hat a week huh", "hat a week, huh"];

/// The one answer to them.
pub const WEEK_REPLIES: [&'static str; 1] = ["https://whataweek.eu"];

/// The bot's rules as a mathematical table.
pub open spec fn bot_rule_map() -> RuleMap {
    RuleMap::empty().insert(KPOP_TRIGGERS.deep_view(), KPOP_REPLIES.deep_view()).insert(
        WEEK_TRIGGERS.deep_view(),
        WEEK_REPLIES.deep_view(),
    )
}

/// The table of the bot's rules.
pub fn bot_rules() -> (table: RuleTable)
    ensures
        table.wf(),
        table@ == bot_rule_map(),
{
    let mut table = RuleTable::new();
    let kpop_triggers = slice_to_vec(KPOP_TRIGGERS.as_slice());
    let kpop_replies = slice_to_vec(KPOP_REPLIES.as_slice());
    let week_triggers = slice_to_vec(WEEK_TRIGGERS.as_slice());
    let week_replies = slice_to_vec(WEEK_REPLIES.as_slice());
    proof {
        assert(kpop_triggers.deep_view() =~= KPOP_TRIGGERS.deep_view());
        assert(kpop_replies.deep_view() =~= KPOP_REPLIES.deep_view());
        assert(week_triggers.deep_view() =~= WEEK_TRIGGERS.deep_view());
        assert(week_replies.deep_view() =~= WEEK_REPLIES.deep_view());
    }
    let _ = table.insert(kpop_triggers, kpop_replies);
    let _ = table.insert(week_triggers, week_replies);
    table
}

} // verus!
