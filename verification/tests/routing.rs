use tapeos::intent::{Intent, IntentSource, IntentType, SubIntent};
use tapeos::registry::Registry;
use tapeos::resource::{Resource, ResourceAddress, Status};
use tapeos::router::{
    may_retry, read_score, reroute, route_all, router, score_by_ai, select_resource, SCORE_PROMPT,
};

fn names(v: &[&str]) -> Vec<String> {
    v.iter().map(|s| s.to_string()).collect()
}

fn registry(entries: &[(&str, u8, u64)]) -> Registry {
    let mut reg = Registry::new();
    for (name, dealing, busy) in entries {
        let mut status = Status::new(true, (0, 0, 0), *busy);
        status.set_dealing(*dealing);
        reg.register(Resource::new(
            name.to_string(),
            "".to_string(),
            ResourceAddress::Internet(format!("{}:1", name)),
            status,
        ));
    }
    reg
}

#[test]
fn least_loaded_candidate_is_picked() {
    let reg = registry(&[("R1", 2, 0), ("R2", 1, 3000), ("R3", 0, 0), ("R4", 1, 0)]);
    assert_eq!(select_resource(&names(&["R1", "R2", "R4"]), &reg), Some(3));
    assert_eq!(select_resource(&names(&["R2", "R1"]), &reg), Some(1));
    assert_eq!(select_resource(&names(&["R3", "R1"]), &reg), Some(2));
}

#[test]
fn ties_go_to_the_earlier_catalog_entry() {
    let reg = registry(&[("R1", 1, 0), ("R2", 1, 0), ("R3", 1, 0)]);
    assert_eq!(select_resource(&names(&["R3", "R2"]), &reg), Some(1));
    assert_eq!(select_resource(&names(&["R3", "R2", "R1"]), &reg), Some(0));
}

#[test]
fn unregistered_candidates_are_never_picked() {
    let reg = registry(&[("R1", 0, 0)]);
    assert_eq!(select_resource(&names(&["R7", "R8"]), &reg), None);
    assert_eq!(select_resource(&names(&[]), &reg), None);
    assert_eq!(select_resource(&names(&["R7", "R1"]), &reg), Some(0));
}

#[test]
fn routing_selects_books_and_stamps() {
    let mut reg = registry(&[("R1", 1, 0), ("R2", 0, 0)]);
    let mut s = SubIntent::new("store name X".to_string(), names(&["R1", "R2"]), 0);
    let order = reroute(&mut s, &mut reg, 1234).unwrap();
    assert_eq!(order.resource, "R2");
    assert_eq!(order.intent, "store name X");
    assert_eq!(order.id, s.get_id());
    assert_eq!(s.get_selected_resource(), Some(&"R2".to_string()));
    assert_eq!(s.iter_available_resources(), &names(&["R1"]));
    assert_eq!(s.get_routed(), 1234);
    let booked = reg.status("R2").unwrap();
    assert_eq!(booked.get_dealing(), 1);
    assert_eq!(booked.total_busy, 5000);
    assert_eq!(reg.status("R1").unwrap().get_dealing(), 1);
}

#[test]
fn a_selected_resource_is_never_selected_again() {
    let mut reg = registry(&[("R1", 0, 0), ("R2", 0, 0)]);
    let mut s = SubIntent::new("x".to_string(), names(&["R1", "R2", "R1"]), 0);
    assert_eq!(reroute(&mut s, &mut reg, 1).unwrap().resource, "R1");
    assert!(s.iter_available_resources().iter().all(|c| c != "R1"));
    reg.change_resource_dealing("R1", false);
    assert_eq!(reroute(&mut s, &mut reg, 2).unwrap().resource, "R2");
    assert!(s.is_empty());
    assert!(reroute(&mut s, &mut reg, 3).is_err());
    assert_eq!(s.get_selected_resource(), Some(&"R2".to_string()));
}

#[test]
fn single_candidate_is_exhausted_after_one_failure() {
    let mut reg = registry(&[("R1", 0, 0)]);
    let mut s = SubIntent::new("x".to_string(), names(&["R1"]), 0);
    assert!(reroute(&mut s, &mut reg, 1).is_ok());
    let e = reroute(&mut s, &mut reg, 2).unwrap_err();
    assert_eq!(e.to_text(), "no aviable resource now");
    assert_eq!(s.get_routed(), 1);
    assert_eq!(reg.status("R1").unwrap().get_dealing(), 1);
    assert!(reroute(&mut s, &mut reg, 3).is_err());
}

#[test]
fn retries_are_bounded_by_three() {
    assert!(may_retry(0));
    assert!(may_retry(1));
    assert!(may_retry(2));
    assert!(!may_retry(3));
    assert!(!may_retry(u32::MAX));
}

#[test]
fn emergency_broadcast_reaches_every_candidate() {
    let mut s = SubIntent::new("call help".to_string(), names(&["R1", "ghost", "R2"]), 0);
    let orders = route_all(&mut s);
    let to: Vec<&str> = orders.iter().map(|o| o.resource.as_str()).collect();
    assert_eq!(to, vec!["R1", "ghost", "R2"]);
    assert!(orders.iter().all(|o| o.intent == "call help" && o.id == s.get_id()));
    assert!(s.is_empty());
    assert_eq!(s.get_selected_resource(), None);
}

#[test]
fn router_routes_each_sub_intent_once() {
    let mut reg = registry(&[("R1", 0, 0), ("R2", 0, 0)]);
    let mut i = Intent::new("two".to_string(), IntentSource::Input, IntentType::Intent, None);
    i.add_sub_intent(vec![
        SubIntent::new("a".to_string(), names(&["R1", "R2"]), 0),
        SubIntent::new("b".to_string(), names(&["R1", "R2"]), 0),
        SubIntent::new("c".to_string(), names(&["nobody"]), 0),
    ]);
    let orders = router(&mut i, &mut reg, 77);
    let to: Vec<(&str, &str)> = orders.iter().map(|o| (o.intent.as_str(), o.resource.as_str())).collect();
    assert_eq!(to, vec![("a", "R1"), ("b", "R2")]);
    assert_eq!(i.sub_intents()[0].get_routed(), 77);
    assert_eq!(i.sub_intents()[2].get_selected_resource(), None);
    assert_eq!(i.sub_intents()[2].get_routed(), 0);
}

#[test]
fn router_broadcasts_an_urgent_intent() {
    let mut reg = registry(&[("R1", 0, 0), ("R2", 0, 0)]);
    let mut i = Intent::new("fire".to_string(), IntentSource::Input, IntentType::Intent, None);
    i.set_emergency();
    i.add_sub_intent(vec![
        SubIntent::new("a".to_string(), names(&["R1", "R2"]), 0),
        SubIntent::new("b".to_string(), names(&["R2"]), 0),
    ]);
    let orders = router(&mut i, &mut reg, 77);
    let to: Vec<(&str, &str)> = orders.iter().map(|o| (o.intent.as_str(), o.resource.as_str())).collect();
    assert_eq!(to, vec![("a", "R1"), ("a", "R2"), ("b", "R2")]);
    assert!(i.sub_intents().iter().all(|s| s.is_empty()));
    assert_eq!(reg.status("R1").unwrap().get_dealing(), 0);
}

#[test]
fn grading_request_names_the_resource() {
    let reg = registry(&[("R1", 1, 0)]);
    assert_eq!(
        score_by_ai("store name X", "R1", &reg),
        "\n        sub_intent: store name X\n        resource: ,aviliability: true, position: (0, 0, 0), dealing: 1, busy_time: 0, average_time: 5000\n        "
    );
    assert_eq!(
        score_by_ai("x", "nobody", &reg),
        "\n        sub_intent: x\n        resource: ,\n        "
    );
    assert!(SCORE_PROMPT.contains("between 0 and 100"));
}

#[test]
fn grade_is_a_numeral_up_to_one_hundred() {
    assert_eq!(read_score("0"), Some(0));
    assert_eq!(read_score("7"), Some(7));
    assert_eq!(read_score("85"), Some(85));
    assert_eq!(read_score("100"), Some(100));
    assert_eq!(read_score("101"), None);
    assert_eq!(read_score("007"), None);
    assert_eq!(read_score("+5"), None);
    assert_eq!(read_score("85."), None);
    assert_eq!(read_score(""), None);
    assert_eq!(read_score("high"), None);
}
