use drawbridge_vpn::logfile::{append_line, elapsed_stamp, log_location, log_location_in, path, LogLocation};

#[test]
fn stamps_show_seconds_with_three_decimals_in_seven_columns() {
    assert_eq!(elapsed_stamp(0), "[  0.000s]");
    assert_eq!(elapsed_stamp(1234), "[  1.234s]");
    assert_eq!(elapsed_stamp(12_005), "[ 12.005s]");
    assert_eq!(elapsed_stamp(999_999), "[999.999s]");
    assert_eq!(elapsed_stamp(1_234_567), "[1234.567s]");
    assert_eq!(elapsed_stamp(70), "[  0.070s]");
}

#[test]
fn each_line_of_a_message_becomes_a_record() {
    let mut out = String::new();
    append_line(&mut out, "[  1.000s]", "one");
    assert_eq!(out, "[  1.000s] one\n");
    let mut out = String::new();
    append_line(&mut out, "S", "a\nb\n");
    assert_eq!(out, "S a\nS b\nS \n");
    let mut out = String::from("before\n");
    append_line(&mut out, "S", "");
    assert_eq!(out, "before\nS \n");
}

#[test]
fn records_match_splitting_on_newlines() {
    for line in ["x", "x\ny", "\n\n", "tail\n", "HTML: a\nb\nc"] {
        let mut out = String::new();
        append_line(&mut out, "[st]", line);
        let expected: String = line.split('\n').map(|seg| format!("[st] {seg}\n")).collect();
        assert_eq!(out, expected);
    }
}

#[test]
fn the_log_lives_in_the_app_directory() {
    let loc = log_location_in("/Users/me/Library/Application Support");
    assert_eq!(loc.dir, "/Users/me/Library/Application Support/DrawbridgeVPN");
    assert_eq!(loc.file, "/Users/me/Library/Application Support/DrawbridgeVPN/drawbridgevpn.log");
    if let Some(l) = log_location() {
        assert!(l.file.ends_with("/DrawbridgeVPN/drawbridgevpn.log"));
        assert_eq!(format!("{}/drawbridgevpn.log", l.dir), l.file);
    }
}

#[test]
fn the_log_path_needs_its_directory() {
    let loc = || Some(LogLocation { dir: "/d/DrawbridgeVPN".to_string(), file: "/d/DrawbridgeVPN/drawbridgevpn.log".to_string() });
    assert_eq!(path(loc(), true), Some("/d/DrawbridgeVPN/drawbridgevpn.log".to_string()));
    assert_eq!(path(loc(), false), None);
    assert_eq!(path(None, true), None);
}
