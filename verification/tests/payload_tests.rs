use qrlan::generate_qr_code_data;

#[test]
fn payload_protected_network() {
    let p = generate_qr_code_data("Home 5G", "s3cr3t!", "WPA");
    assert_eq!(p, "WIFI:S:Home 5G;T:WPA;P:s3cr3t!;;");
}

#[test]
fn payload_open_network() {
    let p = generate_qr_code_data("Guest", "", "nopass");
    assert_eq!(p, "WIFI:S:Guest;T:nopass;;");
}

#[test]
fn payload_empty_password_omits_segment() {
    let p = generate_qr_code_data("Net", "", "WPA");
    assert_eq!(p, "WIFI:S:Net;T:WPA;;");
}

#[test]
fn payload_open_type_omits_password_segment() {
    let p = generate_qr_code_data("Net", "secret", "nopass");
    assert_eq!(p, "WIFI:S:Net;T:nopass;;");
}

#[test]
fn payload_wep_network() {
    let p = generate_qr_code_data("Old", "key13", "WEP");
    assert_eq!(p, "WIFI:S:Old;T:WEP;P:key13;;");
}

#[test]
fn payload_framing_prefix_and_double_terminator() {
    for (ssid, pw, sec) in [
        ("A", "", "nopass"),
        ("Guest", "pw", "WPA"),
        ("x y z", "p w", "WEP"),
        ("", "", "WPA"),
    ] {
        let p = generate_qr_code_data(ssid, pw, sec);
        assert!(p.starts_with("WIFI:S:"));
        assert!(p.ends_with(";;"));
    }
}

#[test]
fn payload_password_marker_count() {
    let protected = generate_qr_code_data("Home", "hunter2", "WPA");
    assert_eq!(protected.matches("P:").count(), 1);
    let open = generate_qr_code_data("Home", "hunter2", "nopass");
    assert_eq!(open.matches("P:").count(), 0);
    let empty = generate_qr_code_data("Home", "", "WPA");
    assert_eq!(empty.matches("P:").count(), 0);
}
