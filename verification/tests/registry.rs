use tapeos::registry::{Registration, Registry};
use tapeos::resource::{
    check_position, Interpreter, Position, RegisterServer, Resource, ResourceAddress, Status,
};
use tapeos::rserver::Rendezvous;

fn resource(name: &str, address: &str) -> Resource {
    Resource::new(
        name.to_string(),
        format!("{} stores things", name),
        ResourceAddress::Internet(address.to_string()),
        Status::new(true, (0, 0, 0), 0),
    )
}

#[test]
fn status_starts_with_five_second_average() {
    let s = Status::new(true, (1, 2, 3), 250);
    assert!(s.get_aviliability());
    assert_eq!(*s.get_position(), Position::new(1, 2, 3));
    assert_eq!(s.get_dealing(), 0);
    assert_eq!(s.get_busy_time(), 250);
    assert_eq!(s.get_average_time(), 5000);
    assert_eq!(s.total_busy, 0);
}

#[test]
fn moving_average_of_five_and_fifteen_seconds_is_six() {
    let mut s = Status::new(true, (0, 0, 0), 0);
    assert_eq!(s.get_average_time(), 5000);
    s.change_average_time(15000);
    assert_eq!(s.get_average_time(), 6000);
    s.change_average_time(6000);
    assert_eq!(s.get_average_time(), 6000);
    s.change_average_time(0);
    assert_eq!(s.get_average_time(), 5400);
    let mut big = Status::new(true, (0, 0, 0), 0);
    big.average_time = u64::MAX;
    big.change_average_time(u64::MAX);
    assert_eq!(big.get_average_time(), u64::MAX);
}

#[test]
fn status_arithmetic_saturates() {
    let mut s = Status::new(true, (0, 0, 0), 10);
    s.change_dealing(false);
    assert_eq!(s.get_dealing(), 0);
    s.change_dealing(true);
    s.change_dealing(true);
    assert_eq!(s.get_dealing(), 2);
    s.set_dealing(255);
    s.change_dealing(true);
    assert_eq!(s.get_dealing(), 255);
    s.add_busy_time(5);
    assert_eq!(s.get_busy_time(), 15);
    s.sub_busy_time(20);
    assert_eq!(s.get_busy_time(), 0);
    s.set_busy_time(u64::MAX - 1);
    s.add_busy_time(7);
    assert_eq!(s.get_busy_time(), u64::MAX);
    assert_eq!(s.add_total_busy(4), 4);
    assert_eq!(s.add_total_busy(u64::MAX), u64::MAX);
    s.set_aviliability(false);
    assert!(!s.get_aviliability());
    s.set_position(Position::new_from_vec(vec![7, 8, 9, 10]));
    assert_eq!(*s.get_position(), Position { x: 7, y: 8, z: 9 });
}

#[test]
fn load_score_is_dealing_times_average_plus_busy() {
    let mut s = Status::new(true, (0, 0, 0), 4500);
    s.set_dealing(3);
    s.change_average_time(15000);
    assert_eq!(s.score(), 3 * 6 + 4);
    let mut worst = Status::new(true, (0, 0, 0), u64::MAX);
    worst.set_dealing(255);
    worst.average_time = u64::MAX;
    assert_eq!(worst.score(), 255 * (u64::MAX / 1000) + u64::MAX / 1000);
}

#[test]
fn status_summary() {
    let mut s = Status::new(true, (-1, 20, 300), 1500);
    s.set_dealing(2);
    assert_eq!(
        s.display(),
        "aviliability: true, position: (-1, 20, 300), dealing: 2, busy_time: 1500, average_time: 5000"
    );
}

#[test]
fn position_volume() {
    assert!(check_position(&Position::new(0, 0, 0)));
    assert!(check_position(&Position::new(99999, -99999, 1)));
    assert!(check_position(&Position::new(100000, 0, -100000)));
    assert!(check_position(&Position::new(0, -100000, 100000)));
    assert!(!check_position(&Position::new(100001, 0, 0)));
    assert!(!check_position(&Position::new(0, -100001, 0)));
    assert!(!check_position(&Position::new(0, 0, 100500)));
}

#[test]
fn resource_fields() {
    let mut r = resource("DB", "127.0.0.1:8001");
    assert_eq!(r.get_name(), "DB");
    assert_eq!(r.get_description(), "DB stores things");
    assert_eq!(r.get_address().text(), "127.0.0.1:8001");
    assert!(r.is_interpreter_none());
    assert_eq!(r.get_missed(), 0);
    r.set_interpreter(Interpreter::LLM("open:open the door;".to_string()));
    assert!(!r.is_interpreter_none());
    assert!(matches!(r.get_interpreter(), Interpreter::LLM(_)));
    r.set_description("a database".to_string());
    assert_eq!(r.get_description(), "a database");
    r.set_address(ResourceAddress::Bluetooth("AA:BB".to_string()));
    assert_eq!(r.get_address().text(), "AA:BB");
    r.get_status().change_dealing(true);
    assert_eq!(r.status().get_dealing(), 1);
    r.set_status(Status::new(false, (1, 1, 1), 0));
    assert!(!r.status().get_aviliability());
    assert_eq!(
        r.info(),
        "DB/a database/aviliability: false, position: (1, 1, 1), dealing: 0, busy_time: 0, average_time: 5000;"
    );
    assert_eq!(r.display_status(), r.status().display());
}

#[test]
fn duplicate_registration_is_refused() {
    let mut reg = Registry::new();
    assert!(reg.register(resource("DB", "a:1")) == Registration::Registered);
    assert!(reg.register(resource("DB", "a:2")) == Registration::Duplicate);
    assert_eq!(reg.len(), 1);
    assert_eq!(reg.lookup("DB").map(|r| r.get_address().text().to_string()), Some("a:1".to_string()));
    assert_eq!(Registration::Registered.reply_text(), "Registered");
    assert_eq!(Registration::Duplicate.reply_text(), "Duplicate");
}

#[test]
fn unknown_names_change_nothing() {
    let mut reg = Registry::new();
    reg.register(resource("DB", "a:1"));
    reg.change_resource_dealing("nobody", true);
    assert_eq!(reg.add_resource_total_busy("nobody", 5), 0);
    reg.add_resource_busy("nobody", 5);
    reg.sub_resource_busy("nobody", 5);
    reg.record_execution("nobody", 5);
    reg.remove_resource_by_name("nobody");
    assert!(!reg.fresh_resource_status("nobody", Status::new(true, (0, 0, 0), 0)));
    assert!(!reg.heartbeat_missed("nobody"));
    reg.heartbeat_answered("nobody");
    assert_eq!(reg.len(), 1);
    assert_eq!(reg.status("DB"), Some(Status::new(true, (0, 0, 0), 0)));
    assert_eq!(reg.status("nobody"), None);
    assert_eq!(reg.calculate_base_dealing("nobody"), u64::MAX);
    assert_eq!(reg.get_resource_average_busy("nobody"), 0);
    assert_eq!(reg.get_resource_info("nobody"), "");
    assert_eq!(reg.get_resource_description("nobody"), "");
    assert_eq!(reg.get_resource_status_str("nobody"), "");
    assert!(reg.lookup("nobody").is_none());
}

#[test]
fn registry_load_accounting() {
    let mut reg = Registry::new();
    reg.register(resource("DB", "a:1"));
    reg.change_resource_dealing("DB", true);
    reg.change_resource_dealing("DB", true);
    reg.change_resource_dealing("DB", false);
    reg.add_resource_busy("DB", 3000);
    reg.sub_resource_busy("DB", 500);
    reg.record_execution("DB", 15000);
    let s = reg.status("DB").unwrap();
    assert_eq!(s.get_dealing(), 1);
    assert_eq!(s.get_busy_time(), 2500);
    assert_eq!(s.get_average_time(), 6000);
    assert_eq!(s.total_busy, 15000);
    assert_eq!(reg.add_resource_total_busy("DB", 1000), 16000);
    assert_eq!(reg.get_resource_average_busy("DB"), 6000);
    assert_eq!(reg.calculate_base_dealing("DB"), 1 * 6 + 2);
    reg.change_resource_dealing("DB", false);
    reg.change_resource_dealing("DB", false);
    assert_eq!(reg.status("DB").unwrap().get_dealing(), 0);
}

#[test]
fn catalog_lists_entries_in_order() {
    let mut reg = Registry::new();
    assert_eq!(reg.get_all_resource_info(), "");
    reg.register(resource("DB", "a:1"));
    reg.register(resource("Drive", "a:2"));
    let status = "aviliability: true, position: (0, 0, 0), dealing: 0, busy_time: 0, average_time: 5000";
    assert_eq!(
        reg.get_all_resource_info(),
        format!("DB/DB stores things/{};Drive/Drive stores things/{};", status, status)
    );
    assert_eq!(reg.get_resource_info("Drive"), format!("Drive/Drive stores things/{};", status));
    assert_eq!(reg.get_resource_description("DB"), "DB stores things");
    assert_eq!(reg.get_resource_status_str("DB"), status);
    assert_eq!(reg.resources().len(), 2);
}

#[test]
fn status_report_from_outside_the_volume_removes_the_resource() {
    let mut reg = Registry::new();
    reg.register(resource("DB", "a:1"));
    reg.register(resource("Drive", "a:2"));
    reg.update_status("DB", Status::new(false, (5, 5, 5), 9));
    assert_eq!(reg.status("DB"), Some(Status::new(false, (5, 5, 5), 9)));
    reg.update_status("DB", Status::new(true, (100000, 0, -100000), 3));
    assert_eq!(reg.status("DB"), Some(Status::new(true, (100000, 0, -100000), 3)));
    reg.update_status("DB", Status::new(true, (100001, 0, 0), 0));
    assert!(reg.lookup("DB").is_none());
    assert_eq!(reg.len(), 1);
    assert!(reg.lookup("Drive").is_some());
}

#[test]
fn resource_is_found_by_address() {
    let mut reg = Registry::new();
    reg.register(resource("DB", "a:1"));
    reg.register(resource("Drive", "a:2"));
    reg.register(resource("Twin", "a:2"));
    assert_eq!(reg.find_resource_by_addr("a:2"), Some("Drive".to_string()));
    assert_eq!(reg.find_resource_by_addr("a:3"), None);
}

#[test]
fn three_missed_heartbeats_remove_a_resource() {
    let mut reg = Registry::new();
    reg.register(resource("DB", "a:1"));
    assert!(!reg.heartbeat_missed("DB"));
    assert!(!reg.heartbeat_missed("DB"));
    reg.heartbeat_answered("DB");
    assert!(!reg.heartbeat_missed("DB"));
    assert!(!reg.heartbeat_missed("DB"));
    assert_eq!(reg.lookup("DB").map(|r| r.get_missed()), Some(2));
    assert!(reg.heartbeat_missed("DB"));
    assert!(reg.lookup("DB").is_none());
    assert_eq!(reg.len(), 0);
}

fn hub(low: i64, high: i64, port: &str) -> RegisterServer {
    RegisterServer::new(
        true,
        Some(format!("127.0.0.1:{}", port)),
        Some(format!("127.0.0.2:{}", port)),
        ((low, high), (low, high), (low, high)),
    )
}

#[test]
fn rendezvous_points_to_the_last_hub_that_covers() {
    let mut r = Rendezvous::new();
    let newcomer = || RegisterServer::new(false, None, None, ((0, 0), (0, 0), (0, 0)));
    assert!(r.announce(newcomer()).is_none());
    assert!(r.announce(hub(-100000, 100000, "8888")).is_none());
    assert!(r.announce(hub(-5, 5, "9999")).is_some());
    assert_eq!(r.announce(hub(0, 0, "7777")).unwrap().get_iaddr(), "127.0.0.1:9999");
    let suit = r.announce(newcomer()).unwrap();
    assert!(suit.is_tape());
    assert_eq!(suit.get_iaddr(), "127.0.0.1:9999");
    assert_eq!(suit.get_oaddr(), "127.0.0.2:9999");
    let far = RegisterServer::new(false, None, None, ((50, 60), (0, 0), (0, 0)));
    assert_eq!(r.announce(far).unwrap().get_iaddr(), "127.0.0.1:8888");
    let edge = RegisterServer::new(false, None, None, ((-100000, 0), (0, 0), (0, 0)));
    assert!(r.announce(edge).is_none());
}

#[test]
fn announcement_fields() {
    let h = hub(-1, 1, "1");
    assert_eq!(h.iaddr(), Some("127.0.0.1:1".to_string()));
    assert_eq!(h.oaddr(), Some("127.0.0.2:1".to_string()));
    let p = RegisterServer::new(false, None, None, ((0, 0), (0, 0), (0, 0)));
    assert!(!p.is_tape());
    assert_eq!(p.iaddr(), None);
    assert!(h.is_position_suit(&p));
    assert!(!p.is_position_suit(&h));
    assert!(h.duplicate().is_position_suit(&p));
}
