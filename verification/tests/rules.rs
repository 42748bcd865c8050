use tapeos::idgen::init_id_generator;
use tapeos::intent::{Intent, IntentSource, IntentType};
use tapeos::message::MessageType;
use tapeos::preprocess::{
    format_reject, policy_error, prompt_verdict, rule_judge, Facts, Judge, JudgeResult, JudgeStep,
    Verdict,
};
use tapeos::seeker::{reject_intent, Delivery};
use tapeos::registry::Registry;
use tapeos::resource::{Resource, ResourceAddress, Status};
use tapeos::rule::{
    first_usable, EssentialFunction, Rule, RuleDetail, RuleSet, TransRule, TransRuleDetail,
    TransWeekday, Weekday,
};
use tapeos::staticrule::{
    emergency, essential_rules, parse_direct, reject, special_rules, RISK_PROMPT,
};

fn intent(text: &str) -> Intent {
    Intent::new(text.to_string(), IntentSource::Input, IntentType::Intent, Some("DB".to_string()))
}

fn facts(now: u64, today: Weekday) -> Facts {
    Facts { now, today, new_rule: None, status: None }
}

fn user_rule(id: i64, name: &str, detail: RuleDetail, valid_time: u64, now: u64) -> Rule {
    Rule::with_id(id, name.to_string(), format!("{} rule", name), detail, valid_time, now)
}

#[test]
fn essential_rule_never_expires() {
    let r = user_rule(0, "risk", RuleDetail::Time, 0, 0);
    assert!(!r.is_expired(0));
    assert!(!r.is_expired(1));
    assert!(!r.is_expired(u64::MAX));
    let r = user_rule(999, "edge", RuleDetail::Time, 0, 0);
    assert!(!r.is_expired(u64::MAX));
    let r = user_rule(-5, "negative", RuleDetail::Time, 0, 0);
    assert!(!r.is_expired(u64::MAX));
}

#[test]
fn user_rule_with_no_validity_expires_at_once() {
    let r = user_rule(1000, "user", RuleDetail::Time, 0, 50);
    assert!(r.is_expired(50));
    assert!(r.is_expired(51));
    assert!(!r.is_expired(49));
}

#[test]
fn user_rule_expires_when_its_validity_is_over() {
    let r = user_rule(5000, "user", RuleDetail::Time, 100, 1000);
    assert!(!r.is_expired(1099));
    assert!(r.is_expired(1100));
    let r = user_rule(5000, "late", RuleDetail::Time, u64::MAX, u64::MAX);
    assert!(!r.is_expired(u64::MAX));
}

#[test]
fn rule_getters() {
    let r = user_rule(1234, "quiet", RuleDetail::Weekday(Weekday::Sun), 60000, 7);
    assert_eq!(r.get_id(), 1234);
    assert_eq!(r.get_name(), "quiet");
    assert_eq!(r.get_description(), "quiet rule");
    assert!(matches!(r.get_rule_detail(), RuleDetail::Weekday(Weekday::Sun)));
    assert_eq!(r.get_valid_time(), 60000);
    assert_eq!(r.get_created_time(), 7);
    let copy = r.duplicate();
    assert_eq!(copy.get_id(), 1234);
    assert_eq!(copy.get_name(), "quiet");
    assert_eq!(Rule::usable_id(999), None);
    assert_eq!(Rule::usable_id(1000), Some(1000));
    assert_eq!(first_usable(&vec![]), None);
    assert_eq!(first_usable(&vec![0, 999, -7]), None);
    assert_eq!(first_usable(&vec![0, 1000, 5000]), Some(1000));
    assert_eq!(first_usable(&vec![7000, 1000]), Some(7000));
    let made = Rule::from_draws(&vec![3, 4242, 9000], "a".to_string(), "b".to_string(), RuleDetail::Time, 5, 6).unwrap();
    assert_eq!(made.get_id(), 4242);
    assert_eq!(made.get_name(), "a");
    assert_eq!(made.get_description(), "b");
    assert_eq!(made.get_valid_time(), 5);
    assert_eq!(made.get_created_time(), 6);
    assert!(Rule::from_draws(&vec![3, 4], "a".to_string(), "b".to_string(), RuleDetail::Time, 5, 6).is_none());
}

#[test]
fn new_rule_needs_a_generator() {
    assert!(Rule::new("a".to_string(), "b".to_string(), RuleDetail::Time, 1, 2).is_none());
    assert!(init_id_generator());
    let r = Rule::new("a".to_string(), "b".to_string(), RuleDetail::Time, 1, 2).unwrap();
    assert!(r.get_id() >= 1000);
    assert_eq!(r.get_name(), "a");
    assert_eq!(r.get_description(), "b");
    assert_eq!(r.get_valid_time(), 1);
    assert_eq!(r.get_created_time(), 2);
}

#[test]
fn rule_update_becomes_a_rule() {
    assert!(init_id_generator());
    let t = TransRule {
        name: "no tuesdays".to_string(),
        description: "closed".to_string(),
        valid_time: 5000,
        detail: TransRuleDetail::Weekday(TransWeekday::Tue),
    };
    let r = Rule::from_trans(t, 9).unwrap();
    assert!(r.get_id() >= 1000);
    assert_eq!(r.get_name(), "no tuesdays");
    assert!(matches!(r.get_rule_detail(), RuleDetail::Weekday(Weekday::Tue)));
    assert_eq!(r.get_created_time(), 9);
    assert!(TransWeekday::Thu.to_weekday() == Weekday::Thu);
    assert!(matches!(TransRuleDetail::Prompt("p".to_string()).into_detail(), RuleDetail::Prompt(_)));
    assert!(matches!(
        TransRuleDetail::Source(IntentSource::Tape).into_detail(),
        RuleDetail::Source(IntentSource::Tape)
    ));
    assert!(matches!(TransRuleDetail::Time.into_detail(), RuleDetail::Time));
}

#[test]
fn rule_set_operations() {
    let mut set = RuleSet::new();
    set.add_rule(user_rule(1000, "a", RuleDetail::Time, 10, 0));
    set.add_rule(user_rule(1001, "b", RuleDetail::Time, 100, 0));
    set.add_rule(user_rule(1002, "a", RuleDetail::Time, 1000, 0));
    set.add_rule(user_rule(5, "kept", RuleDetail::Time, 0, 0));
    assert_eq!(set.iter_rules().len(), 4);
    let named: Vec<i64> = set.get_rules_by_name("a").iter().map(|r| r.get_id()).collect();
    assert_eq!(named, vec![1000, 1002]);
    assert!(set.get_rules_by_name("z").is_empty());
    assert_eq!(set.get_rule_by_id(1001).map(|r| r.get_name().to_string()), Some("b".to_string()));
    assert!(set.get_rule_by_id(7).is_none());
    set.expire_rules(100);
    let ids: Vec<i64> = set.iter_rules().iter().map(|r| r.get_id()).collect();
    assert_eq!(ids, vec![1002, 5]);
    set.delete_rule(1002);
    set.delete_rule(4242);
    let ids: Vec<i64> = set.iter_rules().iter().map(|r| r.get_id()).collect();
    assert_eq!(ids, vec![5]);
}

#[test]
fn built_in_rules() {
    let essential = essential_rules(3);
    let names: Vec<&str> = essential.iter().map(|r| r.get_name()).collect();
    assert_eq!(names, vec!["risk", "emergency"]);
    assert_eq!(essential[0].get_id(), 0);
    assert_eq!(essential[1].get_id(), 2);
    assert!(matches!(essential[0].get_rule_detail(), RuleDetail::Prompt(p) if p == RISK_PROMPT));
    let special = special_rules(3);
    let names: Vec<&str> = special.iter().map(|r| r.get_name()).collect();
    assert_eq!(names, vec!["reject", "rule", "status", "direct"]);
    let ids: Vec<i64> = special.iter().map(|r| r.get_id()).collect();
    assert_eq!(ids, vec![500, 501, 502, 502]);
    assert!(special.iter().all(|r| !r.is_expired(u64::MAX)));
    assert_eq!(special[1].get_description(), "set new rule");
}

#[test]
fn built_in_predicates() {
    let mut i = intent("an emergency: water in the cellar");
    assert!(!emergency(&mut i));
    assert!(i.get_emergency());
    let mut calm = intent("store my name");
    assert!(!emergency(&mut calm));
    assert!(!calm.get_emergency());
    assert!(!reject(&mut calm));
    let mut r = Intent::new("no".to_string(), IntentSource::Resource, IntentType::Reject, None);
    assert!(reject(&mut r));
}

#[test]
fn direct_send_is_read_from_the_text() {
    assert_eq!(parse_direct("trick:DB:drop table"), Some(("DB".to_string(), "drop table".to_string())));
    assert_eq!(parse_direct("trick:DB:a:b"), Some(("DB".to_string(), "a:b".to_string())));
    assert_eq!(parse_direct("trick:DB"), None);
    assert_eq!(parse_direct("treat:DB:x"), None);
    assert_eq!(parse_direct("plain words"), None);
}

#[test]
fn one_rule_against_one_intent() {
    let i = intent("open the door");
    let f = facts(100, Weekday::Wed);
    let hit = |detail: RuleDetail, id: i64, valid: u64| {
        matches!(rule_judge(&i, &user_rule(id, "r", detail, valid, 0), &f), Verdict::Hit)
    };
    assert!(hit(RuleDetail::Source(IntentSource::Input), 1000, 0));
    assert!(!hit(RuleDetail::Source(IntentSource::Tape), 1000, 0));
    assert!(hit(RuleDetail::Time, 1000, 100));
    assert!(!hit(RuleDetail::Time, 1000, 101));
    assert!(!hit(RuleDetail::Time, 10, 0));
    assert!(hit(RuleDetail::Weekday(Weekday::Wed), 1000, 0));
    assert!(!hit(RuleDetail::Weekday(Weekday::Thu), 1000, 0));
    assert!(!hit(RuleDetail::Function(EssentialFunction::Reject), 1000, 0));
    assert!(!hit(RuleDetail::Undefine, 1000, 0));
    assert!(matches!(
        rule_judge(&i, &user_rule(1000, "r", RuleDetail::AsyncF("other".to_string()), 0, 0), &f),
        Verdict::Pass
    ));
    assert!(matches!(
        rule_judge(&i, &user_rule(1000, "r", RuleDetail::AsyncF("rule".to_string()), 0, 0), &f),
        Verdict::Pass
    ));
    match rule_judge(&i, &user_rule(1000, "r", RuleDetail::Prompt("no doors".to_string()), 0, 0), &f) {
        Verdict::Ask { system, user } => {
            assert_eq!(user, "the rule description is: no doors\n the intent description is: open the door.");
            assert!(system.starts_with("User will give you some Intent"));
            assert_eq!(
                system,
                "User will give you some Intent, and you need to judge whether it conform to the sentences describe below\n                'no doors'\n\n                if it conform, return true, otherwise return false, do not ouput dot or any other things.\n                You need to be tolerant about some general intent."
            );
            assert!(system.ends_with("You need to be tolerant about some general intent."));
        }
        _ => panic!("a free-text rule asks the reasoner"),
    }
    let urgent = intent("emergency!");
    assert!(matches!(
        rule_judge(&urgent, &user_rule(2, "e", RuleDetail::Function(EssentialFunction::Emergency), 0, 0), &f),
        Verdict::Mark
    ));
    let direct = intent("trick:DB:go");
    match rule_judge(&direct, &user_rule(502, "d", RuleDetail::AsyncF("direct".to_string()), 0, 0), &f) {
        Verdict::Direct { name, command } => {
            assert_eq!(name, "DB");
            assert_eq!(command, "go");
        }
        _ => panic!("a direct send names its target"),
    }
}

#[test]
fn policy_error_names_the_rule() {
    let e = policy_error(&user_rule(0, "risk", RuleDetail::Time, 0, 0));
    assert_eq!(e.description(), "policy risk");
    let e = policy_error(&user_rule(4000, "", RuleDetail::Time, 0, 0));
    assert_eq!(e.to_text(), "policy ");
}

#[test]
fn only_true_is_a_hit() {
    assert!(prompt_verdict("true"));
    assert!(!prompt_verdict("false"));
    assert!(!prompt_verdict("True"));
    assert!(!prompt_verdict("true."));
    assert!(!prompt_verdict(""));
    assert!(!prompt_verdict("NO ANSWER"));
}

#[test]
fn exactly_one_weekday_rule_holds_today() {
    let f = Facts::gather(5, None, None);
    assert_eq!(f.now, 5);
    let i = intent("x");
    let days = [
        Weekday::Mon,
        Weekday::Tue,
        Weekday::Wed,
        Weekday::Thu,
        Weekday::Fri,
        Weekday::Sat,
        Weekday::Sun,
    ];
    let hits = days
        .iter()
        .filter(|d| matches!(rule_judge(&i, &user_rule(1000, "d", RuleDetail::Weekday(**d), 0, 0), &f), Verdict::Hit))
        .count();
    assert_eq!(hits, 1);
}

#[test]
fn accepted_intent_passes_every_rule() {
    let mut judge = Judge::new(0);
    assert_eq!(judge.len(), Some(6));
    let mut reg = Registry::new();
    let mut i = intent("store my name: X");
    let mut f = facts(10, Weekday::Mon);
    let at = match judge.process(&mut i, &mut reg, &mut f, 0) {
        JudgeStep::Ask { at, user, .. } => {
            assert!(user.contains(RISK_PROMPT));
            assert!(user.ends_with("the intent description is: store my name: X."));
            at
        }
        _ => panic!("the risk rule asks the reasoner"),
    };
    assert_eq!(at, 0);
    let step = judge.resume(&mut i, &mut reg, &mut f, at, prompt_verdict("false"));
    assert!(matches!(step, JudgeStep::Done(JudgeResult::Accept)));
    assert!(!i.get_emergency());
    assert_eq!(i.get_reject_reason(), None);
}

#[test]
fn risky_intent_is_rejected_by_policy() {
    let mut judge = Judge::new(0);
    let mut reg = Registry::new();
    let mut i = intent("delete every backup");
    let mut f = facts(10, Weekday::Mon);
    let at = match judge.process(&mut i, &mut reg, &mut f, 0) {
        JudgeStep::Ask { at, .. } => at,
        _ => panic!("the risk rule asks the reasoner"),
    };
    match judge.resume(&mut i, &mut reg, &mut f, at, prompt_verdict("true")) {
        JudgeStep::Done(JudgeResult::Reject(reason)) => assert_eq!(reason, "policy risk"),
        _ => panic!("a risk is a rejection"),
    }
    assert_eq!(i.sub_intents().len(), 0);
    assert_eq!(i.get_reject_reason(), Some("policy risk".to_string()));
    reg.register(Resource::new(
        "DB".to_string(),
        "".to_string(),
        ResourceAddress::Internet("a:1".to_string()),
        Status::new(true, (0, 0, 0), 0),
    ));
    match reject_intent(&reg, None, "DB", &format_reject(i.get_description(), "policy risk")).0 {
        Delivery::Structured { address, message } => {
            assert_eq!(address.text(), "a:1");
            assert!(*message.get_type() == MessageType::Reject);
            assert_eq!(message.get_body(), "intent: delete every backup\nreject reason: policy risk");
            assert_eq!(message.get_id(), None);
        }
        _ => panic!("the source is told"),
    }
}

#[test]
fn urgent_intent_is_marked() {
    let mut judge = Judge::new(0);
    let mut reg = Registry::new();
    let mut i = intent("emergency: smoke in the hall");
    let mut f = facts(10, Weekday::Mon);
    let step = judge.process(&mut i, &mut reg, &mut f, 1);
    assert!(matches!(step, JudgeStep::Done(JudgeResult::Accept)));
    assert!(i.get_emergency());
}

#[test]
fn user_rules_are_tried_after_the_essential_ones() {
    let mut judge = Judge::new(0);
    judge.rules_mut().add_rule(user_rule(2000, "no input", RuleDetail::Source(IntentSource::Input), 1000, 0));
    assert_eq!(judge.rules().iter_rules().len(), 1);
    let mut reg = Registry::new();
    let mut i = intent("anything");
    let mut f = facts(10, Weekday::Mon);
    match judge.process(&mut i, &mut reg, &mut f, 1) {
        JudgeStep::Done(JudgeResult::Reject(reason)) => assert_eq!(reason, "policy no input"),
        _ => panic!("the user rule holds"),
    }
    let mut other = Intent::new("anything".to_string(), IntentSource::Resource, IntentType::Intent, None);
    assert!(matches!(judge.process(&mut other, &mut reg, &mut f, 1), JudgeStep::Done(JudgeResult::Accept)));
}

#[test]
fn rejection_intent_is_a_special_action() {
    let mut judge = Judge::new(0);
    let mut reg = Registry::new();
    let mut i = Intent::new("cannot do".to_string(), IntentSource::Resource, IntentType::Reject, None);
    let mut f = facts(10, Weekday::Mon);
    assert!(matches!(judge.process(&mut i, &mut reg, &mut f, 1), JudgeStep::Done(JudgeResult::Execution)));
}

#[test]
fn rule_update_installs_the_rule() {
    let mut judge = Judge::new(0);
    let mut reg = Registry::new();
    let mut i = intent("{\"name\":\"quiet\"}");
    let mut f = facts(10, Weekday::Mon);
    f.new_rule = Some(user_rule(3000, "quiet", RuleDetail::Weekday(Weekday::Sun), 1000, 10));
    assert!(matches!(judge.process(&mut i, &mut reg, &mut f, 1), JudgeStep::Done(JudgeResult::Execution)));
    assert!(f.new_rule.is_none());
    let ids: Vec<i64> = judge.rules().iter_rules().iter().map(|r| r.get_id()).collect();
    assert_eq!(ids, vec![3000]);
    assert_eq!(judge.len(), Some(7));
}

#[test]
fn status_report_refreshes_the_origin() {
    let mut judge = Judge::new(0);
    let mut reg = Registry::new();
    reg.register(Resource::new(
        "DB".to_string(),
        "".to_string(),
        ResourceAddress::Internet("a:1".to_string()),
        Status::new(true, (0, 0, 0), 0),
    ));
    let mut i = intent("{\"dealing\":4}");
    let mut f = facts(10, Weekday::Mon);
    let mut reported = Status::new(true, (1, 2, 3), 700);
    reported.set_dealing(4);
    f.status = Some(reported);
    assert!(matches!(judge.process(&mut i, &mut reg, &mut f, 1), JudgeStep::Done(JudgeResult::Execution)));
    assert_eq!(reg.status("DB"), Some(reported));
    let mut away = intent("{}");
    f.status = Some(Status::new(true, (0, 0, -100001), 0));
    assert!(matches!(judge.process(&mut away, &mut reg, &mut f, 1), JudgeStep::Done(JudgeResult::Execution)));
    assert!(reg.lookup("DB").is_none());
}

#[test]
fn direct_send_waits_for_the_transport() {
    let mut judge = Judge::new(0);
    let mut reg = Registry::new();
    let mut i = intent("trick:DB:vacuum");
    let mut f = facts(10, Weekday::Mon);
    let at = match judge.process(&mut i, &mut reg, &mut f, 1) {
        JudgeStep::Send { at, name, command } => {
            assert_eq!(name, "DB");
            assert_eq!(command, "vacuum");
            at
        }
        _ => panic!("a direct send goes to the transport"),
    };
    assert_eq!(at, 5);
    assert!(matches!(
        judge.resume(&mut i, &mut reg, &mut f, at, false),
        JudgeStep::Done(JudgeResult::Accept)
    ));
    assert!(matches!(
        judge.resume(&mut i, &mut reg, &mut f, at, true),
        JudgeStep::Done(JudgeResult::Execution)
    ));
    assert!(matches!(
        judge.resume(&mut i, &mut reg, &mut f, 99, true),
        JudgeStep::Done(JudgeResult::Accept)
    ));
}
