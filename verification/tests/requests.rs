use tapeos::intent::IntentSource;
use tapeos::request::{
    insert_pair, parse_request, parse_rough_response, request_intent, split_message, value_of,
};

fn pair(k: &str, v: &str) -> (String, String) {
    (k.to_string(), v.to_string())
}

#[test]
fn raw_text_is_split_at_the_first_colon() {
    assert_eq!(split_message("Reject:no:thanks"), pair("Reject", "no:thanks"));
    assert_eq!(split_message("turn on the light"), pair("Intent", "turn on the light"));
    assert_eq!(split_message(":"), pair("", ""));
    assert_eq!(split_message(""), pair("Intent", ""));
}

#[test]
fn answer_pieces_give_first_and_last_field() {
    assert_eq!(
        parse_rough_response("name:lamp;status:on:really;bare"),
        vec![pair("name", "lamp"), pair("status", "really"), pair("bare", "bare")]
    );
    assert_eq!(parse_rough_response(""), vec![pair("", "")]);
    assert_eq!(parse_rough_response("a:b;"), vec![pair("a", "b"), pair("", "")]);
}

#[test]
fn request_lines_are_keyed() {
    assert_eq!(
        parse_request("Intent:open the door\nno key here\nStatus:ok:fine\r\nlast:one\r"),
        vec![pair("Intent", "open the door"), pair("Status", "ok:fine"), pair("last", "one\r")]
    );
    assert!(parse_request("").is_empty());
    assert!(parse_request("\n\n").is_empty());
    assert_eq!(parse_request("k:v\n"), vec![pair("k", "v")]);
    assert_eq!(parse_request(":\r\n"), vec![pair("", "")]);
}

#[test]
fn later_value_of_a_key_counts() {
    assert_eq!(
        parse_request("Intent:open the door\nStatus:ok\nIntent:close it\nintent:lower case"),
        vec![pair("Intent", "close it"), pair("Status", "ok"), pair("intent", "lower case")]
    );
    assert_eq!(
        parse_rough_response("a:1;b:2;a:3;b;a:4:5"),
        vec![pair("a", "5"), pair("b", "b")]
    );
}

#[test]
fn table_holds_every_key_once() {
    let mut table = Vec::new();
    insert_pair(&mut table, "k".to_string(), "1".to_string());
    insert_pair(&mut table, "l".to_string(), "2".to_string());
    insert_pair(&mut table, "k".to_string(), "3".to_string());
    assert_eq!(table, vec![pair("k", "3"), pair("l", "2")]);
    assert_eq!(value_of(&table, "k"), Some("3".to_string()));
    assert_eq!(value_of(&table, "l"), Some("2".to_string()));
    assert_eq!(value_of(&table, "m"), None);
}

#[test]
fn request_intent_is_raised() {
    let intent = request_intent("Intent:open the door\nStatus:ok\nIntent:close it\nintent:lower case").unwrap();
    assert_eq!(intent.get_description(), "close it");
    assert!(*intent.get_source() == IntentSource::Resource);
    assert!(intent.get_resource().is_none());
    assert!(request_intent("nothing").is_none());
    assert!(request_intent("Status:ok").is_none());
}
