use qrlan::netparse::{
    enumerate_linux, enumerate_windows_profiles, fetch_password_for_ssid, find_wifi_device,
    macos_device_requirement, macos_ports_outcome, macos_preferred_outcome,
    parse_netsh_profile_detail, parse_netsh_profile_names, parse_nmcli_output,
    parse_preferred_networks, windows_profile_record,
};

#[test]
fn nmcli_wireless_line_is_parsed() {
    // 486f6d65204e6574 is the hexadecimal form of "Home Net"
    let out = "HomeProfile:486f6d65204e6574:wpa-psk:pw123:802-11-wireless\n";
    let nets = parse_nmcli_output(out);
    assert_eq!(nets.len(), 1);
    assert_eq!(nets[0].ssid, "Home Net");
    assert_eq!(nets[0].password.as_deref(), Some("pw123"));
    assert_eq!(nets[0].security_type.as_deref(), Some("WPA"));
}

#[test]
fn nmcli_non_wireless_lines_are_skipped() {
    let out = "Wired:486f6d65:none::802-3-ethernet\nshort:line\n\n";
    let nets = parse_nmcli_output(out);
    assert!(nets.is_empty());
}

#[test]
fn nmcli_empty_hex_falls_back_to_profile_name() {
    let out = "MyProfile::sae::802-11-wireless\n";
    let nets = parse_nmcli_output(out);
    assert_eq!(nets.len(), 1);
    assert_eq!(nets[0].ssid, "MyProfile");
    assert_eq!(nets[0].password, None);
    assert_eq!(nets[0].security_type.as_deref(), Some("WPA"));
}

#[test]
fn nmcli_bad_hex_falls_back_to_profile_name() {
    let out = "Prof:zzzz:wep-psk:k:802-11-wireless\n";
    let nets = parse_nmcli_output(out);
    assert_eq!(nets.len(), 1);
    assert_eq!(nets[0].ssid, "Prof");
    assert_eq!(nets[0].security_type.as_deref(), Some("WEP"));
}

#[test]
fn nmcli_invalid_utf8_falls_back_to_profile_name() {
    // "ff" decodes to a byte that is not valid UTF-8
    let out = "Prof:ff:owe::802-11-wireless\n";
    let nets = parse_nmcli_output(out);
    assert_eq!(nets.len(), 1);
    assert_eq!(nets[0].ssid, "Prof");
    assert_eq!(nets[0].security_type.as_deref(), Some("nopass"));
}

#[test]
fn nmcli_unknown_key_mgmt_leaves_type_absent() {
    let out = "P:4e6574:ieee8021x::802-11-wireless\n";
    let nets = parse_nmcli_output(out);
    assert_eq!(nets.len(), 1);
    assert_eq!(nets[0].ssid, "Net");
    assert_eq!(nets[0].security_type, None);
}

#[test]
fn record_is_completed_in_place() {
    let mut n = qrlan::WifiNetwork {
        ssid: "Net".to_string(),
        password: None,
        security_type: None,
    };
    n.fill_password("pw".to_string());
    n.fill_security_type("WPA".to_string());
    assert_eq!(n.ssid, "Net");
    assert_eq!(n.password.as_deref(), Some("pw"));
    assert_eq!(n.security_type.as_deref(), Some("WPA"));
}

#[test]
fn enumerate_linux_empty_success_is_no_error() {
    let nets = enumerate_linux(true, "", true, "0", "", "").unwrap();
    assert!(nets.is_empty());
}

#[test]
fn enumerate_linux_success_parses() {
    let r = enumerate_linux(true, "", true, "0", "A:4e6574:none::802-11-wireless\n", "");
    let nets = r.unwrap();
    assert_eq!(nets.len(), 1);
    assert_eq!(nets[0].ssid, "Net");
}

#[test]
fn enumerate_linux_nonzero_exit_is_enumeration_error() {
    let r = enumerate_linux(true, "", false, "exit status: 1", "", "boom");
    let e = match r {
        Err(e) => e,
        Ok(_) => panic!("expected an enumeration error"),
    };
    assert_eq!(e.message(), "nmcli command failed with status exit status: 1: boom.");
}

#[test]
fn enumerate_linux_launch_failure_is_enumeration_error() {
    let r = enumerate_linux(false, "No such file", true, "", "", "");
    let e = match r {
        Err(e) => e,
        Ok(_) => panic!("expected an enumeration error"),
    };
    assert_eq!(
        e.message(),
        "Failed to execute nmcli. Is NetworkManager installed and running? Error: No such file"
    );
}

#[test]
fn netsh_profile_names_are_trimmed_after_colon() {
    let out = "Profiles on interface Wi-Fi:\r\n\r\n    All User Profile     : MyWifi\r\n    All User Profile     : Other Net\r\n";
    let names = parse_netsh_profile_names(out);
    // the header line carries a colon with nothing after it, so only the
    // two profile lines yield names
    assert_eq!(names, vec!["MyWifi".to_string(), "Other Net".to_string()]);
}

#[test]
fn netsh_detail_yields_password_and_security() {
    let out = "    Authentication         : WPA2-Personal\r\n    Key Content            : secret123\r\n";
    let (pw, sec) = parse_netsh_profile_detail(out);
    assert_eq!(pw.as_deref(), Some("secret123"));
    assert_eq!(sec.as_deref(), Some("WPA"));
}

#[test]
fn netsh_detail_not_present_key_is_absent() {
    let out = "    Key Content            : Not Present\r\n    Authentication         : Open\r\n";
    let (pw, sec) = parse_netsh_profile_detail(out);
    assert_eq!(pw, None);
    assert_eq!(sec.as_deref(), Some("nopass"));
}

#[test]
fn netsh_detail_last_occurrence_wins() {
    let out = "Key Content : first\nKey Content : second\n";
    let (pw, _) = parse_netsh_profile_detail(out);
    assert_eq!(pw.as_deref(), Some("second"));
}

#[test]
fn windows_record_without_detail_is_bare() {
    let n = windows_profile_record("Net".to_string(), None);
    assert_eq!(n.ssid, "Net");
    assert_eq!(n.password, None);
    assert_eq!(n.security_type, None);
}

#[test]
fn windows_record_with_detail_is_completed() {
    let n = windows_profile_record(
        "Net".to_string(),
        Some("Authentication : WPA2PSK\nKey Content : pw\n"),
    );
    assert_eq!(n.password.as_deref(), Some("pw"));
    assert_eq!(n.security_type.as_deref(), Some("WPA"));
}

#[test]
fn enumerate_windows_failure_preserves_stderr() {
    let r = enumerate_windows_profiles(true, "", false, "exit status: 1", "", "wlan off");
    let e = match r {
        Err(e) => e,
        Ok(_) => panic!("expected an enumeration error"),
    };
    assert_eq!(
        e.message(),
        "'netsh wlan show profiles' command failed with status exit status: 1: wlan off."
    );
}

#[test]
fn enumerate_windows_launch_failure_message() {
    let e = enumerate_windows_profiles(false, "program not found", false, "", "", "").unwrap_err();
    assert_eq!(
        e.message(),
        "Failed to execute 'netsh wlan show profiles'. Is WLAN AutoConfig service running? Error: program not found"
    );
}

#[test]
fn macos_preferred_launch_failure_message() {
    let e = macos_preferred_outcome("en0", false, "gone", false, "", "", "").unwrap_err();
    assert_eq!(
        e.message(),
        "Failed to execute 'networksetup -listpreferredwirelessnetworks': gone"
    );
}

#[test]
fn wifi_device_is_read_from_port_listing() {
    let out = "Hardware Port: Ethernet\nDevice: en1\n\nHardware Port: Wi-Fi\nDevice: en0\n";
    assert_eq!(find_wifi_device(out).as_deref(), Some("en0"));
}

#[test]
fn wifi_device_airport_names_match_too() {
    let out = "Hardware Port: AirPort\nDevice: en2\n";
    assert_eq!(find_wifi_device(out).as_deref(), Some("en2"));
}

#[test]
fn wifi_device_absent_when_no_port_matches() {
    let out = "Hardware Port: Ethernet\nDevice: en1\n";
    assert_eq!(find_wifi_device(out), None);
}

#[test]
fn wifi_device_search_resumes_after_bad_pair() {
    let out = "Hardware Port: Wi-Fi\nVLAN: none\nHardware Port: Wi-Fi\nDevice: en3\n";
    assert_eq!(find_wifi_device(out).as_deref(), Some("en3"));
}

#[test]
fn preferred_networks_skip_header_and_blanks() {
    let out = "Preferred networks on en0:\n\tHomeNet\n\t\n\tCafe\n";
    let nets = parse_preferred_networks(out);
    assert_eq!(nets.len(), 2);
    assert_eq!(nets[0].ssid, "HomeNet");
    assert_eq!(nets[0].password, None);
    assert_eq!(nets[0].security_type, None);
    assert_eq!(nets[1].ssid, "Cafe");
}

#[test]
fn macos_ports_outcome_messages() {
    assert!(macos_ports_outcome(true, "", true, "", "").is_ok());
    let e = macos_ports_outcome(false, "not found", true, "", "").unwrap_err();
    assert_eq!(
        e.message(),
        "Failed to execute 'networksetup -listallhardwareports': not found"
    );
    let e = macos_ports_outcome(true, "", false, "exit status: 2", "oops").unwrap_err();
    assert_eq!(
        e.message(),
        "'networksetup -listallhardwareports' command failed with status exit status: 2: oops."
    );
}

#[test]
fn macos_device_requirement_reports_absence() {
    assert_eq!(macos_device_requirement(Some("en0".to_string())).unwrap(), "en0");
    let e = macos_device_requirement(None).unwrap_err();
    assert_eq!(e.message(), "No active Wi-Fi interface (e.g., en0, en1) could be found.");
}

#[test]
fn macos_preferred_outcome_flags_non_wifi_interface() {
    let e = macos_preferred_outcome(
        "en1",
        true,
        "",
        false,
        "exit status: 10",
        "",
        "en1 is not a Wi-Fi interface.",
    )
    .unwrap_err();
    assert_eq!(
        e.message(),
        "The identified network interface 'en1' does not appear to be a Wi-Fi interface. Please check your network configuration."
    );
}

#[test]
fn macos_preferred_outcome_general_failure() {
    let e = macos_preferred_outcome("en0", true, "", false, "exit status: 1", "", "boom")
        .unwrap_err();
    assert_eq!(
        e.message(),
        "'networksetup -listpreferredwirelessnetworks' command failed for interface 'en0' with status exit status: 1: boom."
    );
}

#[test]
fn macos_preferred_outcome_success_parses() {
    let nets = macos_preferred_outcome("en0", true, "", true, "", "Header:\n\tNet A\n", "")
        .unwrap();
    assert_eq!(nets.len(), 1);
    assert_eq!(nets[0].ssid, "Net A");
}

#[test]
fn password_lookup_trims_tool_output() {
    let r = fetch_password_for_ssid("Net", true, "", true, "hunter2\n");
    assert_eq!(r.unwrap().as_deref(), Some("hunter2"));
}

#[test]
fn password_lookup_empty_output_is_absent() {
    let r = fetch_password_for_ssid("Net", true, "", true, "  \n");
    assert_eq!(r.unwrap(), None);
}

#[test]
fn password_lookup_denied_is_absent_not_error() {
    let r = fetch_password_for_ssid("Net", true, "", false, "");
    assert_eq!(r.unwrap(), None);
}

#[test]
fn password_lookup_launch_failure_is_error() {
    let e = fetch_password_for_ssid("My Net", false, "not found", true, "").unwrap_err();
    assert_eq!(
        e.message(),
        "Failed to execute 'security find-generic-password' command for SSID 'My Net': not found."
    );
}
