use tapeos::errort::{JudgeError, RouteError};
use tapeos::message::{parse_message, parse_unknown, to_command_line, Message, MessageType};
use tapeos::preprocess::format_reject;
use tapeos::text::{
    contains, from_chars, has_text, push_decimal, push_signed, remove_text, same_text, split,
    split_once, to_chars,
};

#[test]
fn chars_round_trip() {
    let v = to_chars("héllo");
    assert_eq!(v, vec!['h', 'é', 'l', 'l', 'o']);
    assert_eq!(from_chars(&v), "héllo");
    assert_eq!(from_chars(&Vec::new()), "");
}

#[test]
fn same_text_compares_characters() {
    assert!(same_text("None", "None"));
    assert!(!same_text("None", "None;"));
    assert!(same_text("", ""));
}

#[test]
fn contains_finds_substrings() {
    assert!(contains("an emergency here", "emergency"));
    assert!(contains("emergency", "emergency"));
    assert!(!contains("emergenc", "emergency"));
    assert!(contains("anything", ""));
    assert!(contains("", ""));
    assert!(!contains("", "a"));
    assert!(contains("aab", "ab"));
}

#[test]
fn split_keeps_empty_pieces() {
    assert_eq!(split("a;b;", ';'), vec!["a", "b", ""]);
    assert_eq!(split("", ';'), vec![""]);
    assert_eq!(split("abc", ';'), vec!["abc"]);
    assert_eq!(split(";;", ';'), vec!["", "", ""]);
    assert_eq!(split("x/y z/w", '/'), vec!["x", "y z", "w"]);
}

#[test]
fn split_once_splits_at_first() {
    assert_eq!(split_once("trick:DB:go:now", ':'), Some(("trick".to_string(), "DB:go:now".to_string())));
    assert_eq!(split_once("nothing", ':'), None);
    assert_eq!(split_once(":", ':'), Some(("".to_string(), "".to_string())));
}

#[test]
fn decimal_numerals() {
    let mut s = String::new();
    push_decimal(&mut s, 0);
    assert_eq!(s, "0");
    let mut s = String::from("n=");
    push_decimal(&mut s, 6000);
    assert_eq!(s, "n=6000");
    let mut s = String::new();
    push_decimal(&mut s, u64::MAX);
    assert_eq!(s, "18446744073709551615");
    let mut s = String::new();
    push_signed(&mut s, -42);
    assert_eq!(s, "-42");
    let mut s = String::new();
    push_signed(&mut s, i64::MIN);
    assert_eq!(s, "-9223372036854775808");
    let mut s = String::new();
    push_signed(&mut s, i64::MAX);
    assert_eq!(s, "9223372036854775807");
}

#[test]
fn name_lists() {
    let mut names = vec!["R1".to_string(), "R2".to_string(), "R1".to_string()];
    assert!(has_text(&names, "R2"));
    assert!(!has_text(&names, "R3"));
    remove_text(&mut names, "R1");
    assert_eq!(names, vec!["R2"]);
    remove_text(&mut names, "R9");
    assert_eq!(names, vec!["R2"]);
}

#[test]
fn errors_keep_their_message() {
    let e = JudgeError::new("no such week");
    assert_eq!(e.description(), "no such week");
    assert_eq!(e.to_text(), "no such week");
    let r = RouteError::new("no aviable resource now");
    assert_eq!(r.description(), "no aviable resource now");
    assert_eq!(r.to_text(), "no aviable resource now");
}

#[test]
fn format_reject_names_intent_and_reason() {
    assert_eq!(
        format_reject("open the door", "policy risk"),
        "intent: open the door\nreject reason: policy risk"
    );
}

#[test]
fn message_getters() {
    let m = Message::new(MessageType::Intent, "store my name".to_string(), Some(7));
    assert!(*m.get_type() == MessageType::Intent);
    assert_eq!(m.get_body(), "store my name");
    assert_eq!(m.get_id(), Some(7));
}

#[test]
fn message_type_keywords() {
    assert_eq!(MessageType::Intent.to_text(), "Intent");
    assert_eq!(MessageType::Response.to_text(), "Response");
    assert_eq!(MessageType::Reject.to_text(), "Reject");
    assert_eq!(MessageType::Finish.to_text(), "Finish");
    assert_eq!(MessageType::Register.to_text(), "Register");
    assert_eq!(MessageType::Heartbeat.to_text(), "Heartbeat");
    assert_eq!(MessageType::Status.to_text(), "Status");
    assert_eq!(MessageType::Unknown.to_text(), "Unknown");
}

#[test]
fn plain_text_forms() {
    let m = Message::new(MessageType::Intent, "go".to_string(), Some(12));
    assert_eq!(m.to_plain_text(), "Intent:12:go");
    let m = Message::new(MessageType::Reject, "go".to_string(), None);
    assert_eq!(m.to_plain_text(), "Reject:go");
    let m = Message::new(MessageType::Response, "".to_string(), Some(-3));
    assert_eq!(m.to_plain_text(), "Response:-3:");
    assert_eq!(to_command_line("open", 5), "open:5");
    assert_eq!(to_command_line("", 5), ":5");
}

#[test]
fn undecodable_payload_is_reclassified() {
    let m = parse_unknown("an Intent in plain words");
    assert!(*m.get_type() == MessageType::Intent);
    assert_eq!(m.get_body(), "an Intent in plain words");
    assert_eq!(m.get_id(), None);
    assert!(*parse_unknown("Response and Register").get_type() == MessageType::Response);
    assert!(*parse_unknown("please Register me").get_type() == MessageType::Register);
    assert!(*parse_unknown("Reject then Finish").get_type() == MessageType::Reject);
    assert!(*parse_unknown("Finish").get_type() == MessageType::Finish);
    assert!(*parse_unknown("intent in lower case").get_type() == MessageType::Unknown);
    assert!(*parse_unknown("").get_type() == MessageType::Unknown);
}

#[test]
fn decoded_message_wins_over_guess() {
    let decoded = Message::new(MessageType::Heartbeat, "".to_string(), None);
    let m = parse_message("{\"Intent\"}", Some(decoded));
    assert!(*m.get_type() == MessageType::Heartbeat);
    let m = parse_message("Reject this", None);
    assert!(*m.get_type() == MessageType::Reject);
    assert_eq!(m.get_body(), "Reject this");
}
