use session_supervisor::control::{
    control_message, parse_control, Command, ControlBus, DEFAULT_BACKLOG,
};
use tokio::sync::broadcast::error::TryRecvError;

#[test]
fn control_message_joins_id_and_command_with_a_colon() {
    assert_eq!(control_message("15550001", Command::Pause), "15550001:pause");
    assert_eq!(control_message("15550001", Command::Resume), "15550001:resume");
    assert_eq!(control_message("15550001", Command::Stop), "15550001:stop");
    assert_eq!(control_message("", Command::Stop), ":stop");
}

#[test]
fn command_text_is_the_word_on_the_bus() {
    assert_eq!(Command::Pause.text(), "pause");
    assert_eq!(Command::Resume.text(), "resume");
    assert_eq!(Command::Stop.text(), "stop");
}

#[test]
fn parse_control_reads_the_three_commands() {
    assert_eq!(parse_control("15550001:pause", "15550001"), Some(Command::Pause));
    assert_eq!(parse_control("15550001:resume", "15550001"), Some(Command::Resume));
    assert_eq!(parse_control("15550001:stop", "15550001"), Some(Command::Stop));
}

#[test]
fn parse_control_ignores_other_sessions() {
    assert_eq!(parse_control("15550002:pause", "15550001"), None);
    assert_eq!(parse_control("1555000:pause", "15550001"), None);
    assert_eq!(parse_control("155500011:pause", "15550001"), None);
    assert_eq!(parse_control(":pause", "15550001"), None);
}

#[test]
fn parse_control_ignores_what_is_no_command() {
    assert_eq!(parse_control("15550001", "15550001"), None);
    assert_eq!(parse_control("15550001:", "15550001"), None);
    assert_eq!(parse_control("15550001:restart", "15550001"), None);
    assert_eq!(parse_control("15550001:PAUSE", "15550001"), None);
    assert_eq!(parse_control("15550001:pause ", "15550001"), None);
    assert_eq!(parse_control("15550001:pause:now", "15550001"), None);
    assert_eq!(parse_control("", "15550001"), None);
    assert_eq!(parse_control("", ""), None);
}

#[test]
fn parse_control_splits_on_the_first_colon() {
    assert_eq!(parse_control("a:b:pause", "a:b"), None);
    assert_eq!(parse_control("a:b:pause", "a"), None);
    assert_eq!(parse_control(":stop", ""), Some(Command::Stop));
}

#[test]
fn parse_control_handles_text_beyond_ascii() {
    assert_eq!(parse_control("séance:pause", "séance"), Some(Command::Pause));
    assert_eq!(parse_control("séance:pause", "seance"), None);
    assert_eq!(parse_control("会话:stop", "会话"), Some(Command::Stop));
}

#[test]
fn built_messages_are_read_back() {
    for command in [Command::Pause, Command::Resume, Command::Stop] {
        let message = control_message("15550001", command);
        assert_eq!(parse_control(&message, "15550001"), Some(command));
        assert_eq!(parse_control(&message, "15550002"), None);
    }
}

#[test]
fn publish_without_subscribers_is_silent() {
    let mut bus = ControlBus::new();
    bus.publish("15550001", Command::Pause);
    bus.publish("15550001", Command::Stop);
    let mut late = bus.subscribe().receiver;
    assert!(matches!(late.try_recv(), Err(TryRecvError::Empty)));
}

#[test]
fn subscribers_hear_what_is_published_after_they_subscribed() {
    let mut bus = ControlBus::new();
    bus.publish("15550001", Command::Pause);
    let mut first = bus.subscribe().receiver;
    bus.publish("15550001", Command::Resume);
    let mut second = bus.subscribe().receiver;
    bus.publish("15550002", Command::Stop);
    assert_eq!(first.try_recv().unwrap(), "15550001:resume");
    assert_eq!(first.try_recv().unwrap(), "15550002:stop");
    assert!(matches!(first.try_recv(), Err(TryRecvError::Empty)));
    assert_eq!(second.try_recv().unwrap(), "15550002:stop");
    assert!(matches!(second.try_recv(), Err(TryRecvError::Empty)));
}

#[test]
fn slow_subscribers_miss_what_exceeds_the_backlog() {
    let mut bus = ControlBus::new();
    let mut slow = bus.subscribe().receiver;
    bus.publish("first", Command::Pause);
    for _ in 0..DEFAULT_BACKLOG {
        bus.publish("later", Command::Pause);
    }
    assert!(matches!(slow.try_recv(), Err(TryRecvError::Lagged(1))));
    assert_eq!(slow.try_recv().unwrap(), "later:pause");
}

#[test]
fn default_backlog_keeps_a_burst() {
    let mut bus = ControlBus::new();
    let mut listener = bus.subscribe().receiver;
    assert_eq!(DEFAULT_BACKLOG, 1024);
    for _ in 0..DEFAULT_BACKLOG {
        bus.publish("15550001", Command::Pause);
    }
    for _ in 0..DEFAULT_BACKLOG {
        assert_eq!(listener.try_recv().unwrap(), "15550001:pause");
    }
    assert!(matches!(listener.try_recv(), Err(TryRecvError::Empty)));
}
