//! Maps each platform's native security vocabulary onto the canonical
//! three-valued set (WPA, WEP, open) and resolves a record's security
//! token when detection left it absent.
//!
//! Unrecognized native tokens always fail soft to "absent", never to an
//! error: the caller can proceed with manual classification.

use vstd::prelude::*;

verus! {

use crate::strutil::chars_eq_str;
use crate::strutil::contains_seq_ic;
use crate::strutil::contains_str_ic;
use crate::strutil::spec_trim;
use crate::strutil::str_to_chars;
use crate::strutil::trim_chars;
use crate::strutil::chars_eq_str_ic;
use crate::strutil::eq_ignore_ascii;
use crate::strutil::chars_to_string;

/// The canonical security classification of a network.
#[derive(Clone, Copy, Debug, PartialEq, Eq, Structural)]
pub enum SecurityType {
    /// WPA, WPA2 or WPA3, personal or enterprise.
    Wpa,
    /// WEP.
    Wep,
    /// An open network.
    Open,
}

impl SecurityType {
    /// The token this classification carries in the join-code payload.
    pub open spec fn spec_wire_token(self) -> Seq<char> {
        match self {
            SecurityType::Wpa => "WPA"@,
            SecurityType::Wep => "WEP"@,
            SecurityType::Open => "nopass"@,
        }
    }

    /// The wire token as a string.
    pub fn wire_token(self) -> (r: String)
        ensures
            r@ == self.spec_wire_token(),
    {
        match self {
            SecurityType::Wpa => String::from_str("WPA"),
            SecurityType::Wep => String::from_str("WEP"),
            SecurityType::Open => String::from_str("nopass"),
        }
    }
}

/// The classification of one key-management token from the Linux network
/// manager's terse connection listing. Unrecognized tokens are `None`.
pub open spec fn spec_classify_key_mgmt(token: Seq<char>) -> Option<SecurityType> {
    if token == "wpa-psk"@ || token == "sae"@ || token == "wpa-eap"@ {
        Some(SecurityType::Wpa)
    } else if token == "wep-psk"@ || token == "wep-key"@ {
        Some(SecurityType::Wep)
    } else if token == "none"@ || token == "owe"@ {
        Some(SecurityType::Open)
    } else {
        None
    }
}

/// Classifies one key-management token from the Linux network manager's
/// listing: the WPA family (including WPA3's SAE and enterprise EAP) maps
/// to WPA, the WEP variants to WEP, and `none` or opportunistic wireless
/// encryption to open; anything else is unrecognized.
pub fn classify_key_mgmt(token: &[char]) -> (r: Option<SecurityType>)
    ensures
        r == spec_classify_key_mgmt(token@),
{
    if chars_eq_str(token, "wpa-psk") || chars_eq_str(token, "sae") || chars_eq_str(
        token,
        "wpa-eap",
    ) {
        Some(SecurityType::Wpa)
    } else if chars_eq_str(token, "wep-psk") || chars_eq_str(token, "wep-key") {
        Some(SecurityType::Wep)
    } else if chars_eq_str(token, "none") || chars_eq_str(token, "owe") {
        Some(SecurityType::Open)
    } else {
        None
    }
}

/// Convenience form of [`classify_key_mgmt`] on a string slice.
pub fn classify_key_mgmt_str(token: &str) -> (r: Option<SecurityType>)
    ensures
        r == spec_classify_key_mgmt(token@),
{
    let chars = str_to_chars(token);
    classify_key_mgmt(chars.as_slice())
}

/// The classification of one authentication description from the Windows
/// profile listing, compared without regard to ASCII case.
pub open spec fn spec_classify_auth(auth: Seq<char>) -> Option<SecurityType> {
    if contains_seq_ic(auth, "WPA2PSK"@) || contains_seq_ic(auth, "WPAPSK"@) || contains_seq_ic(
        auth,
        "WPA2-PERSONAL"@,
    ) || contains_seq_ic(auth, "WPA-PERSONAL"@) || contains_seq_ic(auth, "WPA3SAE"@)
        || contains_seq_ic(auth, "WPA3-PERSONAL"@) {
        Some(SecurityType::Wpa)
    } else if contains_seq_ic(auth, "WEP"@) {
        Some(SecurityType::Wep)
    } else if contains_seq_ic(auth, "OPEN"@) {
        Some(SecurityType::Open)
    } else {
        None
    }
}

/// Classifies one authentication description from the Windows profile
/// listing: the WPA/WPA2/WPA3 personal descriptions map to WPA, anything
/// mentioning WEP to WEP, and the open descriptions to open; anything else
/// is unrecognized.
pub fn classify_auth(auth: &[char]) -> (r: Option<SecurityType>)
    ensures
        r == spec_classify_auth(auth@),
{
    if contains_str_ic(auth, "WPA2PSK") || contains_str_ic(auth, "WPAPSK") || contains_str_ic(
        auth,
        "WPA2-PERSONAL",
    ) || contains_str_ic(auth, "WPA-PERSONAL") || contains_str_ic(auth, "WPA3SAE")
        || contains_str_ic(auth, "WPA3-PERSONAL") {
        Some(SecurityType::Wpa)
    } else if contains_str_ic(auth, "WEP") {
        Some(SecurityType::Wep)
    } else if contains_str_ic(auth, "OPEN") {
        Some(SecurityType::Open)
    } else {
        None
    }
}

/// Whether security-type resolution must ask the user: detection yielded
/// nothing and the password is non-empty, so the network cannot simply be
/// assumed open.
pub fn needs_manual_security(detected: &Option<String>, password: &str) -> (r: bool)
    ensures
        r == (detected is None && password@.len() > 0),
{
    detected.is_none() && !password.is_empty()
}

/// The wire token chosen for one manual security answer: an empty answer
/// defaults to WPA, `wep` and `nopass` (in any ASCII case) select
/// themselves, and anything else falls back to WPA.
pub open spec fn spec_normalize_choice(choice: Seq<char>) -> Seq<char> {
    let t = spec_trim(choice);
    if t.len() == 0 {
        "WPA"@
    } else if eq_ignore_ascii(t, "WEP"@) {
        "WEP"@
    } else if eq_ignore_ascii(t, "NOPASS"@) {
        "nopass"@
    } else {
        "WPA"@
    }
}

/// Normalizes a manual security answer to a wire token.
pub fn normalize_security_choice(choice: &str) -> (r: String)
    ensures
        r@ == spec_normalize_choice(choice@),
{
    let chars = str_to_chars(choice);
    let t = trim_chars(chars.as_slice());
    if t.len() == 0 {
        String::from_str("WPA")
    } else if chars_eq_str_ic(t, "WEP") {
        String::from_str("WEP")
    } else if chars_eq_str_ic(t, "NOPASS") {
        String::from_str("nopass")
    } else {
        String::from_str("WPA")
    }
}

/// The security token a record ends up with: the detected token when
/// detection succeeded; otherwise `nopass` for an empty password; otherwise
/// the normalized manual answer, or WPA when the caller declined to give
/// one.
pub open spec fn spec_resolve_security(
    detected: Option<Seq<char>>,
    password: Seq<char>,
    manual: Option<Seq<char>>,
) -> Seq<char> {
    match detected {
        Some(d) => d,
        None => if password.len() == 0 {
            "nopass"@
        } else {
            match manual {
                Some(m) => spec_normalize_choice(m),
                None => "WPA"@,
            }
        },
    }
}

/// Resolves the security token for a record, per the policy above. The
/// caller prompts for `manual` only when [`needs_manual_security`] says so;
/// a `manual` of `None` means the user was asked and declined.
pub fn resolve_security_type(detected: &Option<String>, password: &str, manual: &Option<String>) -> (r:
    String)
    ensures
        r@ == spec_resolve_security(detected.deep_view(), password@, manual.deep_view()),
{
    match detected {
        Some(d) => d.clone(),
        None => {
            if password.is_empty() {
                String::from_str("nopass")
            } else {
                match manual {
                    Some(m) => normalize_security_choice(m.as_str()),
                    None => String::from_str("WPA"),
                }
            }
        },
    }
}

} // verus!
