use drawbridge_vpn::dashboard::{hero_card, profile_row, ButtonRole};
use drawbridge_vpn::events::{ConnectionStatus, LogEvent};
use drawbridge_vpn::session::{ConnectStart, Session};

fn connected_session() -> Session {
    let mut s = Session::new("Logging to /tmp/x.log".to_string());
    assert!(matches!(s.start_connect(Some(Ok(()))), ConnectStart::Started));
    s.apply_event(LogEvent::Connected(4242));
    s
}

#[test]
fn status_labels_read_as_the_window_shows_them() {
    assert_eq!(ConnectionStatus::Idle.label(), "Idle");
    assert_eq!(ConnectionStatus::LoggingIn.label(), "Logging In");
    assert_eq!(ConnectionStatus::WaitingMfa.label(), "Waiting for MFA");
    assert_eq!(ConnectionStatus::ConnectingVpn.label(), "Connecting VPN");
    assert_eq!(ConnectionStatus::Connected.label(), "Connected");
    assert_eq!(ConnectionStatus::Failed.label(), "Failed");
}

#[test]
fn the_first_line_names_the_log_file() {
    assert_eq!(Session::startup_line(Some("/x/drawbridgevpn.log")), "Logging to /x/drawbridgevpn.log");
    assert_eq!(Session::startup_line(None), "Failed to resolve the log file path");
    let s = Session::new("first".to_string());
    assert_eq!(s.log_lines, vec!["first".to_string()]);
    assert_eq!(s.status, ConnectionStatus::Idle);
}

#[test]
fn connecting_without_a_profile_is_refused() {
    let mut s = Session::new("first".to_string());
    match s.start_connect(None) {
        ConnectStart::Refused(line) => assert_eq!(line, "ERROR: No profile selected"),
        other => panic!("{other:?}"),
    }
    assert_eq!(s.log_lines.last().unwrap(), "ERROR: No profile selected");
    assert_eq!(s.status, ConnectionStatus::Idle);
    assert!(!s.worker_running);
}

#[test]
fn connecting_without_credentials_fails() {
    let mut s = Session::new("first".to_string());
    match s.start_connect(Some(Err("Failed to load the credentials from the Keychain: gone".to_string()))) {
        ConnectStart::Refused(line) => {
            assert_eq!(line, "ERROR: Failed to load the credentials from the Keychain: gone")
        }
        other => panic!("{other:?}"),
    }
    assert_eq!(s.status, ConnectionStatus::Failed);
    assert_eq!(s.log_lines.len(), 2);
}

#[test]
fn starting_a_connection_clears_the_log() {
    let mut s = Session::new("first".to_string());
    s.push_log("old".to_string());
    assert!(matches!(s.start_connect(Some(Ok(()))), ConnectStart::Started));
    assert!(s.log_lines.is_empty());
    assert_eq!(s.status, ConnectionStatus::LoggingIn);
    assert!(s.worker_running && s.has_channel && !s.timer_running && !s.monitor_running);
}

#[test]
fn worker_reports_move_the_session_along() {
    let mut s = Session::new("first".to_string());
    s.start_connect(Some(Ok(())));
    let fx = s.apply_event(LogEvent::Status(ConnectionStatus::WaitingMfa));
    assert!(fx.write_line.is_none());
    assert_eq!(s.status, ConnectionStatus::WaitingMfa);
    let fx = s.apply_event(LogEvent::Log("Filling password".to_string()));
    assert_eq!(fx.write_line.as_deref(), Some("Filling password"));
    assert_eq!(s.log_lines, vec!["Filling password".to_string()]);
    let fx = s.apply_event(LogEvent::Connected(99));
    assert!(fx.start_monitor && fx.start_timer && !fx.stop_monitor);
    assert_eq!(s.connected_pid, Some(99));
    assert_eq!(s.status, ConnectionStatus::Connected);
    assert!(s.monitor_running && s.timer_running);
}

#[test]
fn an_error_report_fails_the_attempt() {
    let mut s = connected_session();
    let fx = s.apply_event(LogEvent::Error("boom".to_string()));
    assert_eq!(fx.write_line.as_deref(), Some("ERROR: boom"));
    assert!(fx.stop_monitor);
    assert_eq!(s.status, ConnectionStatus::Failed);
    assert!(!s.worker_running && !s.timer_running && !s.monitor_running);
    assert_eq!(s.connected_pid, Some(4242));
}

#[test]
fn a_disconnect_report_undoes_the_connect() {
    let mut s = connected_session();
    let fx = s.apply_event(LogEvent::Disconnected);
    assert!(fx.stop_monitor && !fx.start_monitor);
    assert_eq!(s.status, ConnectionStatus::Idle);
    assert_eq!(s.connected_pid, None);
    assert!(!s.worker_running && !s.timer_running && !s.monitor_running);
    s.apply_event(LogEvent::Disconnected);
    assert_eq!(s.status, ConnectionStatus::Idle);
}

#[test]
fn without_a_channel_connected_starts_no_monitor() {
    let mut s = Session::new("first".to_string());
    let fx = s.apply_event(LogEvent::Connected(1));
    assert!(!fx.start_monitor && fx.start_timer);
    assert!(!s.monitor_running);
}

#[test]
fn disconnecting_needs_a_session() {
    let mut s = Session::new("first".to_string());
    assert_eq!(s.start_disconnect(), Err("ERROR: No active session to disconnect".to_string()));
    assert!(!s.worker_running);
    let mut c = connected_session();
    assert_eq!(c.start_disconnect(), Ok(()));
    assert!(c.worker_running);
}

#[test]
fn shutting_down_twice_logs_once() {
    let mut s = connected_session();
    assert_eq!(s.shutdown().as_deref(), Some("Quitting: stopping the VPN tunnel"));
    let lines = s.log_lines.len();
    assert_eq!(s.shutdown(), None);
    assert_eq!(s.log_lines.len(), lines);
    let mut idle = Session::new("first".to_string());
    assert_eq!(idle.shutdown().as_deref(), Some("Quitting"));
}

#[test]
fn the_window_redraws_while_busy_or_connected() {
    let mut s = Session::new("first".to_string());
    assert!(!s.needs_repaint());
    s.start_connect(Some(Ok(())));
    assert!(s.needs_repaint());
    s.apply_event(LogEvent::Error("x".to_string()));
    assert!(!s.needs_repaint());
}

#[test]
fn the_hero_card_follows_the_session() {
    let idle = Session::new("first".to_string());
    let card = hero_card(&idle, true, Some(5));
    assert_eq!(card.caption, "CONNECTION TIME");
    assert_eq!(card.clock, "00:00:00");
    assert_eq!(card.button, ButtonRole::Connect);
    assert_eq!(card.button_label, "Connect");
    assert!(card.button_enabled && !card.show_rates);
    assert!(!hero_card(&idle, false, None).button_enabled);

    let mut busy = Session::new("first".to_string());
    busy.start_connect(Some(Ok(())));
    let card = hero_card(&busy, true, None);
    assert_eq!(card.button, ButtonRole::Busy);
    assert_eq!(card.button_label, "Logging In");
    assert!(!card.button_enabled);

    let connected = connected_session();
    let card = hero_card(&connected, true, Some(3725));
    assert_eq!(card.caption, "CONNECTED FOR");
    assert_eq!(card.clock, "01:02:05");
    assert_eq!(card.button, ButtonRole::Disconnect);
    assert_eq!(card.button_label, "Disconnect");
    assert!(card.button_enabled && card.show_rates);
}

#[test]
fn profile_rows_show_selection_and_connection() {
    let s = connected_session();
    let row = profile_row(&s, "a", Some("a"));
    assert!(row.is_selected && row.shows_connected && !row.connect_enabled);
    let other = profile_row(&s, "b", Some("a"));
    assert!(!other.is_selected && !other.shows_connected);
    let idle = Session::new("x".to_string());
    assert!(profile_row(&idle, "a", None).connect_enabled);
}
