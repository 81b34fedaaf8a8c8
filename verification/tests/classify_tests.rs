use qrlan::classify::{
    classify_auth, classify_key_mgmt_str, needs_manual_security, normalize_security_choice,
    resolve_security_type, SecurityType,
};
use qrlan::generate_qr_code_data;

fn chars(s: &str) -> Vec<char> {
    s.chars().collect()
}

#[test]
fn classify_sae_is_wpa() {
    assert_eq!(classify_key_mgmt_str("sae"), Some(SecurityType::Wpa));
}

#[test]
fn classify_wep_psk_is_wep() {
    assert_eq!(classify_key_mgmt_str("wep-psk"), Some(SecurityType::Wep));
}

#[test]
fn classify_owe_is_open() {
    assert_eq!(classify_key_mgmt_str("owe"), Some(SecurityType::Open));
}

#[test]
fn classify_unmapped_token_is_absent() {
    assert_eq!(classify_key_mgmt_str("quantum-key"), None);
    assert_eq!(classify_key_mgmt_str(""), None);
}

#[test]
fn classify_remaining_linux_tokens() {
    assert_eq!(classify_key_mgmt_str("wpa-psk"), Some(SecurityType::Wpa));
    assert_eq!(classify_key_mgmt_str("wpa-eap"), Some(SecurityType::Wpa));
    assert_eq!(classify_key_mgmt_str("wep-key"), Some(SecurityType::Wep));
    assert_eq!(classify_key_mgmt_str("none"), Some(SecurityType::Open));
}

#[test]
fn classify_windows_auth_descriptions() {
    assert_eq!(classify_auth(&chars("WPA2-Personal")), Some(SecurityType::Wpa));
    assert_eq!(classify_auth(&chars("wpa3sae")), Some(SecurityType::Wpa));
    assert_eq!(classify_auth(&chars("WPA2PSK")), Some(SecurityType::Wpa));
    assert_eq!(classify_auth(&chars("WEP")), Some(SecurityType::Wep));
    assert_eq!(classify_auth(&chars("Open")), Some(SecurityType::Open));
    assert_eq!(classify_auth(&chars("Mystery")), None);
}

#[test]
fn wire_tokens() {
    assert_eq!(SecurityType::Wpa.wire_token(), "WPA");
    assert_eq!(SecurityType::Wep.wire_token(), "WEP");
    assert_eq!(SecurityType::Open.wire_token(), "nopass");
}

#[test]
fn manual_security_needed_only_without_detection_and_with_password() {
    assert!(needs_manual_security(&None, "pw"));
    assert!(!needs_manual_security(&None, ""));
    assert!(!needs_manual_security(&Some("WPA".to_string()), "pw"));
}

#[test]
fn normalize_choice_defaults_and_tokens() {
    assert_eq!(normalize_security_choice(""), "WPA");
    assert_eq!(normalize_security_choice("   "), "WPA");
    assert_eq!(normalize_security_choice("wep"), "WEP");
    assert_eq!(normalize_security_choice(" WEP "), "WEP");
    assert_eq!(normalize_security_choice("NoPass"), "nopass");
    assert_eq!(normalize_security_choice("WPA"), "WPA");
    assert_eq!(normalize_security_choice("WPA2"), "WPA");
    assert_eq!(normalize_security_choice("garbage"), "WPA");
}

#[test]
fn resolve_uses_detected_token_first() {
    assert_eq!(resolve_security_type(&Some("WEP".to_string()), "pw", &None), "WEP");
}

#[test]
fn resolve_empty_password_is_open() {
    assert_eq!(resolve_security_type(&None, "", &None), "nopass");
}

#[test]
fn resolve_declined_manual_defaults_to_wpa() {
    assert_eq!(resolve_security_type(&None, "pw", &None), "WPA");
}

#[test]
fn resolve_manual_answer_is_normalized() {
    assert_eq!(resolve_security_type(&None, "pw", &Some("wep".to_string())), "WEP");
    assert_eq!(resolve_security_type(&None, "pw", &Some("nonsense".to_string())), "WPA");
}

#[test]
fn end_to_end_home_5g_scenario() {
    let ssid = "Home 5G";
    let password = "s3cr3t!";
    let security = resolve_security_type(&None, password, &None);
    assert_eq!(security, "WPA");
    let payload = generate_qr_code_data(ssid, password, &security);
    assert_eq!(payload, "WIFI:S:Home 5G;T:WPA;P:s3cr3t!;;");
}

#[test]
fn end_to_end_guest_scenario() {
    let ssid = "Guest";
    let password = "";
    let security = resolve_security_type(&None, password, &None);
    assert_eq!(security, "nopass");
    let payload = generate_qr_code_data(ssid, password, &security);
    assert_eq!(payload, "WIFI:S:Guest;T:nopass;;");
}
