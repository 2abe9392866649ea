use drawbridge_vpn::profile::Profile;
use drawbridge_vpn::vpn::{
    applescript_double_quote_escape, byte_deltas, connect_poll, connect_shell_command,
    disconnect_applescript, exited_early_error, find_openfortivpn_executable,
    openfortivpn_candidate_paths, build_connect_shell_command,
    openfortivpn_log_text, pkill_failed_error, pkill_output_worth_logging,
    ppp_interfaces_with_ip, privileged_shell_applescript, shell_single_quote,
    tunnel_appeared, tunnel_byte_totals, tunnel_interface_bytes, tunnel_timeout_error,
    ConnectPoll, DISCONNECT_SHELL_COMMAND,
};

fn profile() -> Profile {
    Profile {
        id: "id".to_string(),
        name: "Work".to_string(),
        vpn_host: "vpn.example.com".to_string(),
        vpn_port: "443".to_string(),
        email: "a@b.com".to_string(),
        cert_digest: "ab12".to_string(),
        use_chrome: false,
    }
}

#[test]
fn single_quoting_survives_embedded_quotes() {
    assert_eq!(shell_single_quote("plain"), "'plain'");
    assert_eq!(shell_single_quote("it's"), "'it'\\''s'");
    assert_eq!(shell_single_quote(""), "''");
}

#[test]
fn applescript_escaping_doubles_backslashes_then_quotes() {
    assert_eq!(applescript_double_quote_escape("a\\b\"c"), "a\\\\b\\\"c");
    assert_eq!(
        privileged_shell_applescript("echo \"hi\""),
        "do shell script \"echo \\\"hi\\\"\" with administrator privileges"
    );
    assert!(disconnect_applescript().starts_with("do shell script \"before=$(pgrep"));
    assert!(DISCONNECT_SHELL_COMMAND.contains("pkill -9 -x openfortivpn"));
}

#[test]
fn the_connect_command_quotes_every_argument() {
    let cmd = connect_shell_command("/opt/homebrew/bin/openfortivpn", &profile(), "c'ok", 77);
    assert_eq!(
        cmd,
        "mkdir -p -m 711 '/var/log/drawbridgevpn' && : > '/var/log/drawbridgevpn/openfortivpn.log' && chmod 644 '/var/log/drawbridgevpn/openfortivpn.log'; '/opt/homebrew/bin/openfortivpn' 'vpn.example.com:443' '--cookie=SVPNCOOKIE=c'\\''ok' '--trusted-cert=ab12' >> '/var/log/drawbridgevpn/openfortivpn.log' 2>&1 & VPNPID=$!; while kill -0 $VPNPID 2>/dev/null && kill -0 77 2>/dev/null; do sleep 1; done; kill -TERM $VPNPID 2>/dev/null; wait $VPNPID 2>/dev/null; pkill -x pppd 2>/dev/null; true"
    );
}

#[test]
fn openfortivpn_is_the_first_candidate_found() {
    assert_eq!(find_openfortivpn_executable(&vec![false, true, true]), "/usr/local/bin/openfortivpn");
    assert_eq!(find_openfortivpn_executable(&vec![false, true]), "/usr/local/bin/openfortivpn");
    assert_eq!(find_openfortivpn_executable(&vec![false, false, false]), "openfortivpn");
    assert_eq!(
        openfortivpn_candidate_paths(),
        vec!["/opt/homebrew/bin/openfortivpn", "/usr/local/bin/openfortivpn", "/usr/bin/openfortivpn"]
    );
    let cmd = build_connect_shell_command(&vec![true], &profile(), "c", 1);
    assert!(cmd.contains("; '/opt/homebrew/bin/openfortivpn' 'vpn.example.com:443'"));
    let bare = build_connect_shell_command(&vec![false, false, false], &profile(), "c", 1);
    assert!(bare.contains("; 'openfortivpn' 'vpn.example.com:443'"));
}

#[test]
fn ppp_interfaces_with_an_address_are_listed_once() {
    let text = "lo0: flags=8049<UP>\n\tinet 127.0.0.1 netmask 0xff000000\nppp0: flags=8051<UP>\n\tinet 10.0.0.2 --> 10.0.0.1\nppp1: flags=8010<POINTOPOINT>\nen0: flags=8863<UP>\n\tinet 192.168.1.2\n";
    assert_eq!(ppp_interfaces_with_ip(text), vec!["ppp0".to_string()]);
    assert!(ppp_interfaces_with_ip("").is_empty());
}

#[test]
fn a_tunnel_appears_when_a_new_interface_shows_up() {
    let base = vec!["ppp0".to_string()];
    assert!(!tunnel_appeared(&base, &vec!["ppp0".to_string()]));
    assert!(tunnel_appeared(&base, &vec!["ppp0".to_string(), "ppp1".to_string()]));
    assert!(!tunnel_appeared(&base, &vec![]));
}

#[test]
fn netstat_bytes_are_summed_once_per_tunnel() {
    let text = "Name  Mtu   Network       Address            Ipkts Ierrs     Ibytes    Opkts Oerrs     Obytes  Coll\n\
ppp0  1500  10.0.0.2      10.0.0.2              10     0       1000       20     0       2000     0\n\
ppp0  1500  <Link#12>                          10     0       1000       20     0       2000     0\n\
en0   1500  <Link#4>      aa:bb:cc:dd:ee:ff     99     0      99999       99     0      99999     0\n\
ppp1  1500  10.0.0.3      10.0.0.3               1     0         5        1     0          7     0\n";
    assert_eq!(tunnel_byte_totals(text), (1005, 2007));
    assert_eq!(tunnel_interface_bytes(text), (1005, 2007));
}

#[test]
fn the_connect_wait_prefers_the_tunnel_then_the_exit_then_the_deadline() {
    assert!(matches!(connect_poll(true, Some("1".to_string()), 100, 10), ConnectPoll::Up));
    assert!(matches!(connect_poll(false, Some("exit status: 1".to_string()), 0, 10), ConnectPoll::Exited(s) if s == "exit status: 1"));
    assert!(matches!(connect_poll(false, None, 10, 10), ConnectPoll::TimedOut));
    assert!(matches!(connect_poll(false, None, 9, 10), ConnectPoll::Wait));
}

#[test]
fn connect_errors_carry_the_openfortivpn_log() {
    assert_eq!(openfortivpn_log_text(Ok("log".to_string())), "log");
    assert_eq!(
        openfortivpn_log_text(Err("No such file".to_string())),
        "(could not read /var/log/drawbridgevpn/openfortivpn.log: No such file)"
    );
    assert_eq!(
        exited_early_error("exit status: 1", "bad cookie"),
        "openfortivpn exited before the tunnel came up (status exit status: 1): bad cookie"
    );
    assert_eq!(tunnel_timeout_error("x"), "Timed out waiting for the ppp tunnel interface to come up: x");
}

#[test]
fn byte_deltas_never_go_negative() {
    assert_eq!(byte_deltas((100, 50), (150, 80)), (50, 30));
    assert_eq!(byte_deltas((100, 50), (10, 50)), (0, 0));
}

#[test]
fn pkill_reports() {
    assert_eq!(pkill_failed_error("exit status: 1", "denied"), "pkill exited with status exit status: 1: denied");
    assert!(pkill_output_worth_logging("x", ""));
    assert!(!pkill_output_worth_logging("", ""));
}
