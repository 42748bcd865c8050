use tapeos::disassembler::{
    format_check, parse_rough_intent, Disassembler, Disassembly,
    DISASSEMBLE_PROMPT,
};
use tapeos::intent::{Intent, IntentSource, IntentType};
use tapeos::registry::Registry;
use tapeos::resource::{Resource, ResourceAddress, Status};

fn intent() -> Intent {
    Intent::new("store my name: X".to_string(), IntentSource::Input, IntentType::Intent, None)
}

#[test]
fn format_check_wants_a_closed_pair() {
    assert!(format_check("store name X:DB;"));
    assert!(format_check("a:R1/R2;b:R3;"));
    assert!(format_check("hello;a:R1;"));
    assert!(format_check("a:R1;and some words behind"));
    assert!(format_check("None:R1;"));
    assert!(!format_check("None"));
    assert!(!format_check("store name X:DB"));
    assert!(!format_check(""));
    assert!(!format_check("a:R1/R2"));
}

#[test]
fn format_check_refuses_an_answer_without_a_pair() {
    assert!(!format_check(";"));
    assert!(!format_check("None;"));
    assert!(!format_check("hello;"));
    assert!(!format_check(":;"));
    assert!(!format_check("a:;"));
    assert!(!format_check(":R1;"));
    assert!(!format_check("a:b:c;"));
    assert!(!format_check("hello;a:R1"));
}

#[test]
fn answer_without_a_pair_costs_a_try() {
    let mut d = Disassembler::new();
    let mut i = intent();
    assert!(d.accept(&mut i, ";".to_string(), 0) == Disassembly::Retry);
    assert!(d.accept(&mut i, "hello;".to_string(), 0) == Disassembly::Retry);
    assert_eq!(i.sub_intents().len(), 0);
    assert!(d.accept(&mut i, "hello;a:R1;".to_string(), 0) == Disassembly::Done);
    assert_eq!(i.sub_intents().len(), 1);
}

#[test]
fn answer_is_read_into_sub_intents() {
    let subs = parse_rough_intent("store name 'BM':MySQL/MongoDB/Google Drive;store birthday:MongoDB;".to_string(), 42);
    assert_eq!(subs.len(), 2);
    assert_eq!(subs[0].get_description(), "store name 'BM'");
    assert_eq!(subs[0].iter_available_resources(), &vec!["MySQL", "MongoDB", "Google Drive"]);
    assert_eq!(subs[1].get_description(), "store birthday");
    assert_eq!(subs[1].iter_available_resources(), &vec!["MongoDB"]);
    assert!(subs.iter().all(|s| !s.is_complete() && s.get_selected_resource().is_none() && s.get_routed() == 42));
}

#[test]
fn malformed_pieces_are_skipped() {
    let subs = parse_rough_intent("no colon;a:b:c;;ok:R1;:;tail".to_string(), 0);
    let read: Vec<(&str, Vec<String>)> =
        subs.iter().map(|s| (s.get_description(), s.iter_available_resources().clone())).collect();
    assert_eq!(read, vec![("ok", vec!["R1".to_string()]), ("", vec!["".to_string()])]);
    assert!(parse_rough_intent("".to_string(), 0).is_empty());
    assert!(parse_rough_intent("None".to_string(), 0).is_empty());
}

#[test]
fn three_bad_answers_end_the_disassembly() {
    let mut d = Disassembler::new();
    let mut i = intent();
    let reg = Registry::new();
    let mut asked = 0;
    let mut outcome = Disassembly::Retry;
    while outcome == Disassembly::Retry {
        let _prompt = d.disassemble_intent(i.get_description(), &reg);
        asked += 1;
        outcome = d.accept(&mut i, "None".to_string(), 0);
    }
    assert!(outcome == Disassembly::Failed);
    assert_eq!(asked, 3);
    assert_eq!(d.tries_left(), 0);
    assert_eq!(i.sub_intents().len(), 0);
}

#[test]
fn bad_answers_are_counted_down() {
    let mut d = Disassembler::new();
    let mut i = intent();
    assert_eq!(d.tries_left(), 3);
    assert!(d.accept(&mut i, "None".to_string(), 0) == Disassembly::Retry);
    assert_eq!(d.tries_left(), 2);
    assert!(d.settle(&mut i, "whatever".to_string(), false, 0) == Disassembly::Retry);
    assert_eq!(d.tries_left(), 1);
    assert!(d.accept(&mut i, "still no pieces".to_string(), 0) == Disassembly::Failed);
    assert!(d.accept(&mut i, "None".to_string(), 0) == Disassembly::Failed);
    assert_eq!(d.tries_left(), 0);
}

#[test]
fn good_answer_after_a_bad_one_is_taken() {
    let mut d = Disassembler::new();
    let mut i = intent();
    assert!(d.accept(&mut i, "store name X:DB".to_string(), 5) == Disassembly::Retry);
    assert!(d.accept(&mut i, "store name X:DB;".to_string(), 6) == Disassembly::Done);
    assert_eq!(d.tries_left(), 2);
    assert_eq!(i.sub_intents().len(), 1);
    assert_eq!(i.sub_intents()[0].get_description(), "store name X");
    assert_eq!(i.sub_intents()[0].iter_available_resources(), &vec!["DB"]);
    assert_eq!(i.sub_intents()[0].get_routed(), 6);
}

#[test]
fn request_carries_intent_last_answer_and_catalog() {
    let mut d = Disassembler::new();
    let mut i = intent();
    let mut reg = Registry::new();
    reg.register(Resource::new(
        "DB".to_string(),
        "stores".to_string(),
        ResourceAddress::Internet("a:1".to_string()),
        Status::new(true, (0, 0, 0), 0),
    ));
    let catalog = reg.get_all_resource_info();
    assert_eq!(
        d.disassemble_intent("store my name: X", &reg),
        format!("Intent: store my name: X\nLast Outcome: \nAvailable Resources: {}", catalog)
    );
    d.accept(&mut i, "oops".to_string(), 0);
    assert_eq!(
        d.disassemble_intent("store my name: X", &reg),
        format!("Intent: store my name: X\nLast Outcome: oops\nAvailable Resources: {}", catalog)
    );
    assert!(DISASSEMBLE_PROMPT.contains("Outcome should be given in format"));
}
