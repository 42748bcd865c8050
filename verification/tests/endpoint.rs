use tapeos::message::{Message, MessageType};
use tapeos::resource::{RegisterServer, Status};
use tapeos::waiter::{
    begin_execution, end_execution, execute_over_message, execution_time, random_execute, Waiter,
    WaiterAction,
};

fn hub() -> RegisterServer {
    RegisterServer::new(
        true,
        Some("127.0.0.1:8888".to_string()),
        Some("127.0.0.1:8889".to_string()),
        ((-100000, 100000), (-100000, 100000), (-100000, 100000)),
    )
}

fn attached() -> Waiter {
    let mut w = Waiter::new(Status::new(true, (0, 0, 0), 0));
    assert_eq!(w.on_rendezvous(&hub()), Some("127.0.0.1:8888".to_string()));
    w
}

#[test]
fn endpoint_hears_only_its_hub() {
    let mut w = Waiter::new(Status::new(true, (0, 0, 0), 0));
    let beat = Message::new(MessageType::Heartbeat, "".to_string(), None);
    assert!(matches!(w.on_message("127.0.0.1:8889", &beat), WaiterAction::Nothing));
    let nameless = RegisterServer::new(true, None, None, ((0, 0), (0, 0), (0, 0)));
    assert_eq!(w.on_rendezvous(&nameless), None);
    assert!(w.submit("hello".to_string()).is_none());
    let mut w = attached();
    assert!(matches!(w.on_message("127.0.0.1:9999", &beat), WaiterAction::Nothing));
    assert!(matches!(w.on_message("127.0.0.1:8889", &beat), WaiterAction::Heartbeat { to } if to == "127.0.0.1:8889"));
}

#[test]
fn endpoint_registers_and_detaches() {
    let mut w = attached();
    assert!(!w.is_attached());
    let ok = Message::new(MessageType::Response, "Registered".to_string(), None);
    assert!(matches!(w.on_message("127.0.0.1:8889", &ok), WaiterAction::Nothing));
    assert!(w.is_attached());
    let first = Message::new(MessageType::Response, "Register First".to_string(), None);
    assert!(matches!(w.on_message("127.0.0.1:8889", &first), WaiterAction::Nothing));
    assert!(!w.is_attached());
    assert!(matches!(w.on_message("127.0.0.1:8889", &ok), WaiterAction::Nothing));
    assert!(!w.is_attached());
    let mut w = attached();
    w.on_message("127.0.0.1:8889", &ok);
    let bye = Message::new(MessageType::Finish, "".to_string(), None);
    w.on_message("127.0.0.1:8889", &bye);
    assert!(!w.is_attached());
    assert!(w.submit("hello".to_string()).is_none());
}

#[test]
fn endpoint_answers_the_hub() {
    let mut w = attached();
    w.status_mut().set_dealing(3);
    let ask = Message::new(MessageType::Status, "".to_string(), None);
    match w.on_message("127.0.0.1:8889", &ask) {
        WaiterAction::ReportStatus { to, status } => {
            assert_eq!(to, "127.0.0.1:8888");
            assert_eq!(status.get_dealing(), 3);
        }
        _ => panic!("the status is reported"),
    }
    let work = Message::new(MessageType::Intent, "store name X".to_string(), Some(4));
    assert!(matches!(
        w.on_message("127.0.0.1:8889", &work),
        WaiterAction::Execute { to, intent, id }
            if to == "127.0.0.1:8888" && intent == "store name X" && id == Some(4)
    ));
    let odd = Message::new(MessageType::Register, "".to_string(), None);
    assert!(matches!(w.on_message("127.0.0.1:8889", &odd), WaiterAction::Nothing));
    let other = Message::new(MessageType::Response, "Intent Received".to_string(), None);
    assert!(matches!(w.on_message("127.0.0.1:8889", &other), WaiterAction::Nothing));
}

#[test]
fn endpoint_tracks_its_own_intents() {
    let mut w = attached();
    let (to, m) = w.submit("store my name".to_string()).unwrap();
    assert_eq!(to, "127.0.0.1:8888");
    assert!(*m.get_type() == MessageType::Intent);
    assert_eq!(m.get_body(), "store my name");
    let id = m.get_id().unwrap();
    let unknown = Message::new(MessageType::Response, "Finish".to_string(), Some(id + 1));
    assert!(matches!(w.on_message("127.0.0.1:8889", &unknown), WaiterAction::Nothing));
    let nameless = Message::new(MessageType::Response, "Finish".to_string(), None);
    assert!(matches!(w.on_message("127.0.0.1:8889", &nameless), WaiterAction::Nothing));
    let done = Message::new(MessageType::Response, "Finish".to_string(), Some(id));
    match w.on_message("127.0.0.1:8889", &done) {
        WaiterAction::Finished(intent) => {
            assert_eq!(intent.get_id(), id);
            assert_eq!(intent.get_description(), "store my name");
        }
        _ => panic!("the intent is done"),
    }
    assert!(matches!(w.on_message("127.0.0.1:8889", &done), WaiterAction::Nothing));
}

#[test]
fn execution_is_booked() {
    let mut s = Status::new(true, (0, 0, 0), 100);
    begin_execution(&mut s, 15000);
    assert_eq!(s.get_busy_time(), 15100);
    assert_eq!(s.get_dealing(), 1);
    assert_eq!(s.get_average_time(), 6000);
    assert_eq!(s.total_busy, 15000);
    end_execution(&mut s, 15000);
    assert_eq!(s.get_busy_time(), 100);
    assert_eq!(s.get_dealing(), 0);
    assert_eq!(s.get_average_time(), 6000);
    assert_eq!(s.total_busy, 15000);
    assert_eq!(execution_time(3), 3000);
    assert_eq!(execution_time(usize::MAX), u64::MAX);
    let m = execute_over_message(Some(7));
    assert_eq!(m.get_body(), "Execute Over");
    assert_eq!(m.get_id(), Some(7));
}

#[test]
fn random_execution_time_is_bounded_by_the_text() {
    for _ in 0..200 {
        let mut s = Status::new(true, (0, 0, 0), 0);
        let t = random_execute("abc", &mut s).unwrap();
        assert!(t == 1000 || t == 2000 || t == 3000);
        assert_eq!(s.get_busy_time(), t);
        assert_eq!(s.get_dealing(), 1);
    }
    let mut s = Status::new(true, (0, 0, 0), 0);
    assert_eq!(random_execute("x", &mut s), Some(1000));
    let mut s = Status::new(true, (0, 0, 0), 0);
    assert_eq!(random_execute("", &mut s), None);
    assert_eq!(s, Status::new(true, (0, 0, 0), 0));
}
