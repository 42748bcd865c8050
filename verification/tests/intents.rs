use tapeos::idgen::{generate_id, id_from_draw, init_id_generator, IdType, UNASSIGNED_ID};
use tapeos::intent::{Intent, IntentSource, IntentType, SubIntent};
use tapeos::schedule::schedule_intent;
use tapeos::vetting::verify_intent;

fn names(v: &[&str]) -> Vec<String> {
    v.iter().map(|s| s.to_string()).collect()
}

#[test]
fn new_intent_is_never_complete() {
    let i = Intent::new("store my name".to_string(), IntentSource::Input, IntentType::Intent, None);
    assert!(!i.is_complete());
    assert!(!i.is_finished());
    assert!(!i.get_emergency());
    assert_eq!(i.get_description(), "store my name");
    assert!(*i.get_source() == IntentSource::Input);
    assert!(*i.get_intent_type() == IntentType::Intent);
    assert_eq!(i.get_resource(), None);
    assert_eq!(i.get_reject_reason(), None);
    assert_eq!(i.sub_intents().len(), 0);
}

#[test]
fn intent_is_complete_iff_all_sub_intents_are() {
    let mut i = Intent::new("two parts".to_string(), IntentSource::Resource, IntentType::Intent, Some("DB".to_string()));
    i.add_sub_intent(vec![
        SubIntent::new("a".to_string(), names(&["R1"]), 0),
        SubIntent::new("b".to_string(), names(&["R2"]), 0),
    ]);
    assert!(!i.is_complete());
    i.iter_sub_intent()[0].complete();
    assert!(!i.is_complete());
    i.iter_sub_intent()[1].complete();
    assert!(i.is_complete());
    assert_eq!(i.get_resource(), Some(&"DB".to_string()));
}

#[test]
fn intent_setters() {
    let mut i = Intent::new("x".to_string(), IntentSource::Tape, IntentType::Rule, None);
    i.set_id(77);
    assert_eq!(i.get_id(), 77);
    i.set_emergency();
    assert!(i.get_emergency());
    i.set_reject_reason("policy risk".to_string());
    assert_eq!(i.get_reject_reason(), Some("policy risk".to_string()));
    i.complete();
    assert!(i.is_finished());
    assert!(!i.is_complete());
}

#[test]
fn sub_intent_candidates() {
    let mut s = SubIntent::new("store name X".to_string(), names(&["R1", "R2", "R1"]), 5);
    assert_eq!(s.get_description(), "store name X");
    assert_eq!(s.get_routed(), 5);
    assert!(!s.is_complete());
    assert!(!s.is_empty());
    assert_eq!(s.get_selected_resource(), None);
    assert_eq!(s.iter_available_resources(), &names(&["R1", "R2", "R1"]));
    s.remove_resource("R1".to_string());
    assert_eq!(s.iter_available_resources(), &names(&["R2"]));
    s.add(names(&["R3", "R4"]));
    assert_eq!(s.iter_available_resources(), &names(&["R2", "R3", "R4"]));
    assert_eq!(s.pop(), "R4");
    assert_eq!(s.iter_available_resources(), &names(&["R2", "R3"]));
    s.remove_resource_all();
    assert!(s.is_empty());
    s.set_routed(9);
    assert_eq!(s.get_routed(), 9);
    s.complete();
    assert!(s.is_complete());
    s.complete();
    assert!(s.is_complete());
}

#[test]
fn selecting_removes_the_name_from_the_candidates() {
    let mut s = SubIntent::new("x".to_string(), names(&["R1", "R2"]), 0);
    s.set_selected_resource("R1".to_string());
    assert_eq!(s.get_selected_resource(), Some(&"R1".to_string()));
    assert_eq!(s.iter_available_resources(), &names(&["R2"]));
}

#[test]
fn checks_follow_completion() {
    let mut i = Intent::new("x".to_string(), IntentSource::Input, IntentType::Intent, None);
    assert!(verify_intent(&i));
    assert!(schedule_intent(&i));
    i.add_sub_intent(vec![SubIntent::new("a".to_string(), names(&["R1"]), 0)]);
    i.iter_sub_intent()[0].complete();
    assert!(!verify_intent(&i));
    assert!(!schedule_intent(&i));
}

#[test]
fn identifiers_without_generators_are_unassigned() {
    assert_eq!(generate_id(IdType::Intent), UNASSIGNED_ID);
    assert_eq!(id_from_draw(None), 0);
    assert_eq!(id_from_draw(Some(12345)), 12345);
}

#[test]
fn identifiers_are_distinct_once_installed() {
    assert!(init_id_generator());
    let a = generate_id(IdType::Intent);
    let b = generate_id(IdType::Intent);
    let c = generate_id(IdType::Rule);
    assert_ne!(a, b);
    assert_ne!(a, 0);
    assert_ne!(c, 0);
    let x = Intent::new("a".to_string(), IntentSource::Input, IntentType::Intent, None);
    let y = Intent::new("b".to_string(), IntentSource::Input, IntentType::Intent, None);
    assert_ne!(x.get_id(), y.get_id());
}

#[test]
fn id_kinds_are_numbered() {
    assert_eq!(IdType::Rule.index(), 0);
    assert_eq!(IdType::Intent.index(), 1);
    assert_eq!(IdType::Resource.index(), 2);
    assert_eq!(IdType::Len.index(), 3);
}
