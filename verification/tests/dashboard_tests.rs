use drawbridge_vpn::dashboard::{edit_window_title, format_hms, host_and_port, profile_color_index};
use drawbridge_vpn::profile::Profile;

#[test]
fn clock_is_hours_minutes_seconds() {
    assert_eq!(format_hms(0), "00:00:00");
    assert_eq!(format_hms(59), "00:00:59");
    assert_eq!(format_hms(61), "00:01:01");
    assert_eq!(format_hms(3600), "01:00:00");
    assert_eq!(format_hms(36000 + 600 + 6), "10:10:06");
    assert_eq!(format_hms(100 * 3600 + 1), "100:00:01");
}

#[test]
fn avatar_colour_is_the_byte_sum_modulo_five() {
    assert_eq!(profile_color_index(""), 0);
    assert_eq!(profile_color_index("a"), 97 % 5);
    assert_eq!(profile_color_index("ab"), (97 + 98) % 5);
    assert_eq!(profile_color_index("é"), (0xC3 + 0xA9) % 5);
    let id = "3f2504e0-4f89-11d3-9a0c-0305e82c3301";
    let sum: u32 = id.bytes().map(|b| b as u32).sum();
    assert_eq!(profile_color_index(id), sum as usize % 5);
}

#[test]
fn address_line_and_form_title() {
    let mut p = Profile::new_empty();
    p.vpn_host = "vpn.example.com".to_string();
    p.vpn_port = "10443".to_string();
    assert_eq!(host_and_port(&p), "vpn.example.com:10443");
    assert_eq!(edit_window_title(true), "Add Profile");
    assert_eq!(edit_window_title(false), "Edit Profile");
}
