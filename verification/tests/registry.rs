use session_supervisor::events::{ConnectionEvent, Event, WorkerEvent};
use session_supervisor::registry::{Lifecycle, Registry, WorkerInfo};

fn report(phone: &str, status: &str, qr: &str, pairing_code: &str) -> WorkerEvent {
    WorkerEvent {
        event: Some(Event::Connection(ConnectionEvent {
            phone: phone.to_string(),
            status: status.to_string(),
            qr: qr.to_string(),
            pairing_code: pairing_code.to_string(),
        })),
    }
}

fn info(phone: &str, status: &str, pairing_code: Option<&str>, is_running: bool) -> WorkerInfo {
    WorkerInfo {
        phone: phone.to_string(),
        status: status.to_string(),
        pairing_code: pairing_code.map(|code| code.to_string()),
        is_running,
    }
}

#[test]
fn lifecycle_labels_are_the_status_texts() {
    assert_eq!(Lifecycle::Starting.label(), "starting");
    assert_eq!(Lifecycle::Paused.label(), "paused");
    assert_eq!(Lifecycle::Resuming.label(), "resuming");
    assert_eq!(Lifecycle::Crashed.label(), "crashed");
}

#[test]
fn fresh_and_dormant_states() {
    assert_eq!(WorkerInfo::fresh("15550001"), info("15550001", "starting", None, true));
    assert_eq!(WorkerInfo::dormant("15550001"), info("15550001", "paused", None, false));
    assert_eq!(WorkerInfo::stored("15550001", "crashed"), info("15550001", "crashed", None, false));
    assert_eq!(WorkerInfo::stored("", ""), info("", "", None, false));
}

#[test]
fn snapshot_copies_every_field() {
    let full = info("15550001", "connected", Some("123456"), true);
    assert_eq!(full.snapshot(), full);
    let bare = info("15550002", "paused", None, false);
    assert_eq!(bare.snapshot(), bare);
}

#[test]
fn is_connected_knows_two_statuses() {
    assert!(info("1", "connected", None, true).is_connected());
    assert!(info("1", "active", None, true).is_connected());
    assert!(!info("1", "starting", None, true).is_connected());
    assert!(!info("1", "Connected", None, true).is_connected());
    assert!(!info("1", "", None, true).is_connected());
}

#[test]
fn new_registry_knows_nobody() {
    let registry = Registry::new();
    assert_eq!(registry.len(), 0);
    assert!(!registry.contains("15550001"));
    assert_eq!(registry.get("15550001"), None);
    assert_eq!(registry.list_all(), Vec::<WorkerInfo>::new());
}

#[test]
fn upsert_adds_and_replaces() {
    let mut registry = Registry::new();
    registry.upsert(WorkerInfo::fresh("15550001"));
    registry.upsert(WorkerInfo::fresh("15550002"));
    assert_eq!(registry.len(), 2);
    assert_eq!(registry.get("15550001"), Some(&info("15550001", "starting", None, true)));
    registry.upsert(info("15550001", "connected", Some("123456"), true));
    assert_eq!(registry.len(), 2);
    assert_eq!(registry.get("15550001"), Some(&info("15550001", "connected", Some("123456"), true)));
    assert_eq!(registry.get("15550002"), Some(&info("15550002", "starting", None, true)));
}

#[test]
fn insert_if_absent_leaves_known_sessions_alone() {
    let mut registry = Registry::new();
    assert!(registry.insert_if_absent(info("15550001", "connected", Some("123456"), true)));
    assert!(!registry.insert_if_absent(WorkerInfo::fresh("15550001")));
    assert_eq!(registry.len(), 1);
    assert_eq!(registry.get("15550001"), Some(&info("15550001", "connected", Some("123456"), true)));
}

#[test]
fn remove_forgets_one_session() {
    let mut registry = Registry::new();
    registry.upsert(WorkerInfo::fresh("15550001"));
    registry.upsert(WorkerInfo::fresh("15550002"));
    registry.upsert(WorkerInfo::fresh("15550003"));
    assert_eq!(registry.remove("15550002"), Some(info("15550002", "starting", None, true)));
    assert_eq!(registry.remove("15550002"), None);
    assert_eq!(registry.len(), 2);
    assert!(registry.contains("15550001"));
    assert!(!registry.contains("15550002"));
    assert!(registry.contains("15550003"));
}

#[test]
fn list_all_gives_every_session_once() {
    let mut registry = Registry::new();
    registry.upsert(WorkerInfo::fresh("15550001"));
    registry.upsert(WorkerInfo::dormant("15550002"));
    registry.upsert(info("15550001", "connected", None, true));
    assert_eq!(
        registry.list_all(),
        vec![info("15550001", "connected", None, true), info("15550002", "paused", None, false)]
    );
}

#[test]
fn set_status_changes_only_the_status() {
    let mut registry = Registry::new();
    registry.upsert(info("15550001", "connected", Some("123456"), true));
    assert!(registry.set_status("15550001", "crashed"));
    assert_eq!(registry.get("15550001"), Some(&info("15550001", "crashed", Some("123456"), true)));
    assert!(!registry.set_status("15550002", "crashed"));
    assert_eq!(registry.len(), 1);
}

#[test]
fn set_paused_marks_status_and_running_flag() {
    let mut registry = Registry::new();
    registry.upsert(info("15550001", "connected", Some("123456"), true));
    assert!(registry.set_paused("15550001", true));
    assert_eq!(registry.get("15550001"), Some(&info("15550001", "paused", Some("123456"), false)));
    assert!(registry.set_paused("15550001", false));
    assert_eq!(registry.get("15550001"), Some(&info("15550001", "resuming", Some("123456"), true)));
    assert!(!registry.set_paused("15550002", true));
    assert_eq!(registry.len(), 1);
}

#[test]
fn connection_event_updates_status_and_pairing_code() {
    let mut registry = Registry::new();
    registry.upsert(WorkerInfo::fresh("15550001"));
    registry.handle_event(report("15550001", "connected", "", "123456"));
    assert_eq!(registry.get("15550001"), Some(&info("15550001", "connected", Some("123456"), true)));
}

#[test]
fn pairing_code_wins_over_qr() {
    let mut registry = Registry::new();
    registry.upsert(WorkerInfo::fresh("15550001"));
    registry.handle_event(report("15550001", "pairing", "2@qr-payload", "ABCD-1234"));
    assert_eq!(registry.get("15550001"), Some(&info("15550001", "pairing", Some("ABCD-1234"), true)));
}

#[test]
fn qr_becomes_the_pairing_code_and_sticks() {
    let mut registry = Registry::new();
    registry.upsert(WorkerInfo::fresh("15550001"));
    registry.handle_event(report("15550001", "qr", "2@qr-payload", ""));
    assert_eq!(registry.get("15550001"), Some(&info("15550001", "qr", Some("2@qr-payload"), true)));
    registry.handle_event(report("15550001", "connecting", "", ""));
    assert_eq!(
        registry.get("15550001"),
        Some(&info("15550001", "connecting", Some("2@qr-payload"), true))
    );
    registry.handle_event(report("15550001", "qr", "2@next", ""));
    assert_eq!(registry.get("15550001"), Some(&info("15550001", "qr", Some("2@next"), true)));
}

#[test]
fn later_reports_overwrite_the_status() {
    let mut registry = Registry::new();
    registry.upsert(WorkerInfo::fresh("15550001"));
    registry.handle_event(report("15550001", "connecting", "", ""));
    registry.handle_event(report("15550001", "connected", "", ""));
    registry.handle_event(report("15550001", "", "", ""));
    assert_eq!(registry.get("15550001"), Some(&info("15550001", "", None, true)));
}

#[test]
fn reports_for_unknown_sessions_are_dropped() {
    let mut registry = Registry::new();
    registry.upsert(WorkerInfo::fresh("15550001"));
    registry.handle_event(report("15550002", "connected", "", "123456"));
    registry.apply_connection(ConnectionEvent {
        phone: "15550003".to_string(),
        status: "connected".to_string(),
        qr: String::new(),
        pairing_code: String::new(),
    });
    assert_eq!(registry.list_all(), vec![info("15550001", "starting", None, true)]);
}

#[test]
fn reports_do_not_touch_the_running_flag() {
    let mut registry = Registry::new();
    registry.upsert(WorkerInfo::dormant("15550001"));
    registry.handle_event(report("15550001", "connected", "", ""));
    assert_eq!(registry.get("15550001"), Some(&info("15550001", "connected", None, false)));
}

#[test]
fn log_lines_and_empty_events_change_nothing() {
    let mut registry = Registry::new();
    registry.upsert(WorkerInfo::fresh("15550001"));
    registry.handle_event(WorkerEvent { event: Some(Event::RawLog("15550001".to_string())) });
    registry.handle_event(WorkerEvent { event: None });
    assert_eq!(registry.list_all(), vec![info("15550001", "starting", None, true)]);
}
