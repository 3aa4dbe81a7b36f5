use keyword_responder::bot::{bot_rules, KPOP_REPLIES, KPOP_TRIGGERS, WEEK_REPLIES, WEEK_TRIGGERS};
use keyword_responder::rules::{Rule, RuleError, RuleTable};

fn sorted(mut rules: Vec<Rule>) -> Vec<(Vec<&'static str>, Vec<&'static str>)> {
    rules.sort_by(|a, b| a.triggers.cmp(&b.triggers));
    rules.into_iter().map(|r| (r.triggers, r.replies)).collect()
}

#[test]
fn a_new_table_holds_no_rule() {
    let table = RuleTable::new();
    assert!(table.lookup_all().is_empty());
}

#[test]
fn insert_takes_a_rule_in() {
    let mut table = RuleTable::new();
    assert_eq!(table.insert(vec!["ping"], vec!["pong"]), Ok(()));
    let rules = table.lookup_all();
    assert_eq!(rules.len(), 1);
    assert_eq!(rules[0].triggers, vec!["ping"]);
    assert_eq!(rules[0].replies, vec!["pong"]);
}

#[test]
fn lookup_all_hands_out_every_rule_once() {
    let mut table = RuleTable::new();
    assert_eq!(table.insert(vec!["a", "b"], vec!["1"]), Ok(()));
    assert_eq!(table.insert(vec!["c"], vec!["2", "3"]), Ok(()));
    assert_eq!(table.insert(vec!["d"], vec!["4"]), Ok(()));
    assert_eq!(
        sorted(table.lookup_all()),
        vec![
            (vec!["a", "b"], vec!["1"]),
            (vec!["c"], vec!["2", "3"]),
            (vec!["d"], vec!["4"]),
        ]
    );
}

#[test]
fn insert_refuses_a_rule_without_triggers() {
    let mut table = RuleTable::new();
    assert_eq!(table.insert(vec!["ping"], vec!["pong"]), Ok(()));
    assert_eq!(table.insert(vec![], vec!["pong"]), Err(RuleError::NoTriggers));
    assert_eq!(sorted(table.lookup_all()), vec![(vec!["ping"], vec!["pong"])]);
}

#[test]
fn insert_refuses_a_rule_without_replies() {
    let mut table = RuleTable::new();
    assert_eq!(table.insert(vec!["ping"], vec!["pong"]), Ok(()));
    assert_eq!(table.insert(vec!["pang"], vec![]), Err(RuleError::NoReplies));
    assert_eq!(sorted(table.lookup_all()), vec![(vec!["ping"], vec!["pong"])]);
}

#[test]
fn a_rule_without_triggers_and_replies_lacks_triggers_first() {
    let mut table = RuleTable::new();
    assert_eq!(table.insert(vec![], vec![]), Err(RuleError::NoTriggers));
    assert!(table.lookup_all().is_empty());
}

#[test]
fn a_rule_with_the_same_triggers_takes_the_place_of_the_earlier_one() {
    let mut table = RuleTable::new();
    assert_eq!(table.insert(vec!["ping", "pang"], vec!["pong"]), Ok(()));
    assert_eq!(table.insert(vec!["ping", "pang"], vec!["peng", "pung"]), Ok(()));
    assert_eq!(sorted(table.lookup_all()), vec![(vec!["ping", "pang"], vec!["peng", "pung"])]);
}

#[test]
fn triggers_in_another_order_are_another_rule() {
    let mut table = RuleTable::new();
    assert_eq!(table.insert(vec!["ping", "pang"], vec!["1"]), Ok(()));
    assert_eq!(table.insert(vec!["pang", "ping"], vec!["2"]), Ok(()));
    assert_eq!(
        sorted(table.lookup_all()),
        vec![(vec!["pang", "ping"], vec!["2"]), (vec!["ping", "pang"], vec!["1"])]
    );
}

#[test]
fn a_refused_rule_does_not_replace_one_that_is_held() {
    let mut table = RuleTable::new();
    assert_eq!(table.insert(vec!["ping"], vec!["pong"]), Ok(()));
    assert_eq!(table.insert(vec!["ping"], vec![]), Err(RuleError::NoReplies));
    assert_eq!(sorted(table.lookup_all()), vec![(vec!["ping"], vec!["pong"])]);
}

#[test]
fn the_bot_has_its_two_rules() {
    let rules = sorted(bot_rules().lookup_all());
    assert_eq!(rules.len(), 2);
    assert_eq!(rules[0].0, vec!["hat a week huh", "hat a week, huh"]);
    assert_eq!(rules[0].1, vec!["https://whataweek.eu"]);
    assert_eq!(rules[1].0, vec!["kpop time", "k p o p   t i m e", "kpop tijd"]);
    assert_eq!(rules[1].1.len(), 21);
    assert_eq!(rules[1].1[0], "https://youtu.be/9bZkp7q19f0");
    assert_eq!(rules[1].1[20], "https://youtu.be/lcRV2gyEfMo");
}

#[test]
fn the_bot_rules_are_the_published_lists() {
    let rules = sorted(bot_rules().lookup_all());
    assert_eq!(rules[0].0, WEEK_TRIGGERS.to_vec());
    assert_eq!(rules[0].1, WEEK_REPLIES.to_vec());
    assert_eq!(rules[1].0, KPOP_TRIGGERS.to_vec());
    assert_eq!(rules[1].1, KPOP_REPLIES.to_vec());
}

#[test]
fn the_songs_are_all_different() {
    let mut songs = KPOP_REPLIES.to_vec();
    songs.sort();
    songs.dedup();
    assert_eq!(songs.len(), 21);
    assert!(songs.iter().all(|s| s.starts_with("https://youtu.be/")));
}
