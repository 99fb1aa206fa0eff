use session_supervisor::frame::apply_payload;
use session_supervisor::manager::{Roster, SessionManager};
use session_supervisor::registry::WorkerInfo;
use session_supervisor::supervisor::{Phase, Supervisor, SupervisorEvent};
use session_supervisor::teardown::{Stage, TeardownStep};
use tokio::sync::broadcast::error::TryRecvError;

fn info(phone: &str, status: &str, pairing_code: Option<&str>, is_running: bool) -> WorkerInfo {
    WorkerInfo {
        phone: phone.to_string(),
        status: status.to_string(),
        pairing_code: pairing_code.map(|code| code.to_string()),
        is_running,
    }
}

#[test]
fn roster_is_a_set_of_sessions() {
    let mut roster = Roster::new();
    assert!(!roster.contains("15550001"));
    assert!(roster.insert("15550001"));
    assert!(!roster.insert("15550001"));
    assert!(roster.insert("15550002"));
    assert!(roster.contains("15550001"));
    assert!(roster.remove("15550001"));
    assert!(!roster.remove("15550001"));
    assert!(!roster.contains("15550001"));
    assert!(roster.contains("15550002"));
}

#[test]
fn new_manager_knows_nobody() {
    let manager = SessionManager::new();
    assert_eq!(manager.workers.len(), 0);
    assert!(!manager.supervises("15550001"));
}

#[test]
fn start_inserts_a_starting_session_and_asks_for_a_loop() {
    let mut manager = SessionManager::new();
    let mut listener = manager.tx.subscribe().receiver;
    assert!(manager.start_instance("15550001"));
    assert!(manager.supervises("15550001"));
    assert_eq!(manager.workers.get("15550001"), Some(&info("15550001", "starting", None, true)));
    assert!(matches!(listener.try_recv(), Err(TryRecvError::Empty)));
}

#[test]
fn repeated_start_asks_for_no_second_loop() {
    let mut manager = SessionManager::new();
    assert!(manager.start_instance("15550001"));
    assert!(!manager.start_instance("15550001"));
    assert!(!manager.start_instance("15550001"));
    assert!(manager.start_instance("15550002"));
    assert_eq!(manager.workers.len(), 2);
}

#[test]
fn start_leaves_a_known_session_as_it_is() {
    let mut manager = SessionManager::new();
    manager.workers.upsert(info("15550001", "connected", Some("123456"), true));
    assert!(manager.start_instance("15550001"));
    assert_eq!(
        manager.workers.get("15550001"),
        Some(&info("15550001", "connected", Some("123456"), true))
    );
}

#[test]
fn pause_publishes_and_marks_at_once() {
    let mut manager = SessionManager::new();
    manager.start_instance("15550001");
    let mut listener = manager.tx.subscribe().receiver;
    manager.pause_instance("15550001", true);
    assert_eq!(listener.try_recv().unwrap(), "15550001:pause");
    assert_eq!(manager.workers.get("15550001"), Some(&info("15550001", "paused", None, false)));
    manager.pause_instance("15550001", false);
    assert_eq!(listener.try_recv().unwrap(), "15550001:resume");
    assert_eq!(manager.workers.get("15550001"), Some(&info("15550001", "resuming", None, true)));
    assert!(matches!(listener.try_recv(), Err(TryRecvError::Empty)));
}

#[test]
fn pause_of_an_unknown_session_is_published_all_the_same() {
    let mut manager = SessionManager::new();
    let mut listener = manager.tx.subscribe().receiver;
    manager.pause_instance("15550009", true);
    assert_eq!(listener.try_recv().unwrap(), "15550009:pause");
    assert_eq!(manager.workers.len(), 0);
    assert!(!manager.supervises("15550009"));
}

#[test]
fn pause_without_listeners_still_marks_the_session() {
    let mut manager = SessionManager::new();
    manager.start_instance("15550001");
    manager.pause_instance("15550001", true);
    assert_eq!(manager.workers.get("15550001"), Some(&info("15550001", "paused", None, false)));
}

#[test]
fn paused_session_gets_no_second_loop() {
    let mut manager = SessionManager::new();
    assert!(manager.start_instance("15550001"));
    manager.pause_instance("15550001", true);
    assert!(!manager.start_instance("15550001"));
    assert!(!manager.resume_instance("15550001"));
    assert!(manager.supervises("15550001"));
}

#[test]
fn resume_of_a_supervised_session_goes_over_the_bus() {
    let mut manager = SessionManager::new();
    manager.start_instance("15550001");
    manager.pause_instance("15550001", true);
    let mut listener = manager.tx.subscribe().receiver;
    assert!(!manager.resume_instance("15550001"));
    assert_eq!(listener.try_recv().unwrap(), "15550001:resume");
    assert_eq!(manager.workers.get("15550001"), Some(&info("15550001", "resuming", None, true)));
}

#[test]
fn resume_of_a_session_without_loop_starts_it() {
    let mut manager = SessionManager::new();
    let mut listener = manager.tx.subscribe().receiver;
    assert!(!manager.restore_session("15550001", "paused"));
    assert!(manager.resume_instance("15550001"));
    assert!(manager.supervises("15550001"));
    assert!(matches!(listener.try_recv(), Err(TryRecvError::Empty)));
    assert_eq!(manager.workers.get("15550001"), Some(&info("15550001", "paused", None, false)));
    assert!(manager.resume_instance("15550002"));
    assert_eq!(manager.workers.get("15550002"), Some(&info("15550002", "starting", None, true)));
}

#[test]
fn restore_keeps_paused_sessions_dormant() {
    let mut manager = SessionManager::new();
    assert!(!manager.restore_session("15550001", "paused"));
    assert!(!manager.supervises("15550001"));
    assert_eq!(manager.workers.get("15550001"), Some(&info("15550001", "paused", None, false)));
}

#[test]
fn restore_starts_every_other_session() {
    let mut manager = SessionManager::new();
    for (phone, status) in
        [("1", "connected"), ("2", "starting"), ("3", "crashed"), ("4", ""), ("5", "Paused")]
    {
        assert!(manager.restore_session(phone, status));
        assert!(manager.supervises(phone));
        assert_eq!(manager.workers.get(phone), Some(&info(phone, "starting", None, true)));
    }
    assert!(!manager.restore_session("1", "connected"));
}

#[test]
fn ended_loop_makes_room_for_a_new_one() {
    let mut manager = SessionManager::new();
    assert!(manager.start_instance("15550001"));
    manager.supervisor_exited("15550001");
    assert!(!manager.supervises("15550001"));
    assert_eq!(manager.workers.get("15550001"), Some(&info("15550001", "starting", None, true)));
    assert!(manager.start_instance("15550001"));
    manager.supervisor_exited("15550002");
    assert!(manager.supervises("15550001"));
}

#[test]
fn clear_stops_the_loop_and_forgets_the_session() {
    let mut manager = SessionManager::new();
    manager.start_instance("15550001");
    manager.start_instance("15550002");
    let mut listener = manager.tx.subscribe().receiver;
    let teardown = manager.clear_session("15550001");
    assert_eq!(listener.try_recv().unwrap(), "15550001:stop");
    assert!(!manager.workers.contains("15550001"));
    assert!(!manager.supervises("15550001"));
    assert!(manager.workers.contains("15550002"));
    assert!(manager.supervises("15550002"));
    assert_eq!(teardown.stage(), Stage::ConnectCache);
    assert_eq!(teardown.step(), TeardownStep::ConnectCache);
    assert!(manager.start_instance("15550001"));
}

#[test]
fn clear_of_an_unknown_session_still_tells_it_to_stop() {
    let mut manager = SessionManager::new();
    let mut listener = manager.tx.subscribe().receiver;
    let mut teardown = manager.clear_session("15550009");
    assert_eq!(listener.try_recv().unwrap(), "15550009:stop");
    teardown.report(session_supervisor::teardown::StepOutcome::Done);
    assert_eq!(teardown.step(), TeardownStep::ListCacheKeys("15550009:*".to_string()));
}

#[test]
fn published_commands_drive_the_supervisor() {
    let mut manager = SessionManager::new();
    assert!(manager.start_instance("15550001"));
    let mut listener = manager.tx.subscribe().receiver;
    let mut supervisor = Supervisor::new("15550001");
    supervisor.on_event(&SupervisorEvent::Bound(43123), &mut manager.workers);
    supervisor.on_event(&SupervisorEvent::Spawned(4242), &mut manager.workers);
    manager.pause_instance("15550002", true);
    manager.pause_instance("15550001", true);
    let other = SupervisorEvent::Control(listener.try_recv().unwrap());
    supervisor.on_event(&other, &mut manager.workers);
    assert_eq!(supervisor.phase(), Phase::Running);
    let pause = SupervisorEvent::Control(listener.try_recv().unwrap());
    supervisor.on_event(&pause, &mut manager.workers);
    supervisor.on_event(&SupervisorEvent::ChildExited, &mut manager.workers);
    assert_eq!(supervisor.phase(), Phase::Paused);
    assert_eq!(manager.workers.get("15550001"), Some(&info("15550001", "paused", None, false)));
    assert!(!manager.resume_instance("15550001"));
    let resume = SupervisorEvent::Control(listener.try_recv().unwrap());
    supervisor.on_event(&resume, &mut manager.workers);
    assert_eq!(supervisor.phase(), Phase::Starting);
    supervisor.on_event(&SupervisorEvent::Spawned(4300), &mut manager.workers);
    assert_eq!(supervisor.phase(), Phase::Running);
    assert_eq!(manager.workers.get("15550001"), Some(&info("15550001", "starting", None, true)));
    manager.clear_session("15550001");
    let stop = SupervisorEvent::Control(listener.try_recv().unwrap());
    supervisor.on_event(&stop, &mut manager.workers);
    supervisor.on_event(&SupervisorEvent::ChildExited, &mut manager.workers);
    assert_eq!(supervisor.phase(), Phase::Terminated);
    assert_eq!(manager.workers.len(), 0);
}

#[test]
fn started_session_takes_the_report_of_its_worker() {
    let mut manager = SessionManager::new();
    assert!(manager.start_instance("15550001"));
    assert_eq!(manager.workers.get("15550001"), Some(&info("15550001", "starting", None, true)));
    let mut content = Vec::new();
    prost::encoding::string::encode(1, &"15550001".to_string(), &mut content);
    prost::encoding::string::encode(2, &"connected".to_string(), &mut content);
    prost::encoding::string::encode(4, &"123456".to_string(), &mut content);
    let mut payload = Vec::new();
    prost::encoding::encode_key(1, prost::encoding::WireType::LengthDelimited, &mut payload);
    prost::encoding::encode_varint(content.len() as u64, &mut payload);
    payload.extend(content);
    assert!(apply_payload(&mut manager.workers, &payload));
    assert_eq!(
        manager.workers.get("15550001"),
        Some(&info("15550001", "connected", Some("123456"), true))
    );
}
