//! Builds the Wi-Fi join-code payload text.
//!
//! The wire format is `WIFI:S:<ssid>;T:<security>;[P:<password>;];` where
//! the password segment appears only for a protected network with a
//! non-empty password. Values are embedded verbatim, without the escaping
//! the join-code convention defines for `;`, `:`, `\` and `,`; that keeps
//! the produced text identical to what widely deployed generators emit.

use vstd::prelude::*;

verus! {

use crate::strutil::str_eq;

/// True when the payload for this password and security token carries a
/// `P:` segment: the password is non-empty and the network is not open.
pub open spec fn payload_has_password(password: Seq<char>, security: Seq<char>) -> bool {
    password.len() > 0 && security != "nopass"@
}

/// The payload text for the given SSID, password and security token.
pub open spec fn wifi_payload(ssid: Seq<char>, password: Seq<char>, security: Seq<char>) -> Seq<
    char,
> {
    "WIFI:S:"@ + ssid + ";T:"@ + security + ";"@ + (if payload_has_password(password, security) {
        "P:"@ + password + ";"@
    } else {
        Seq::<char>::empty()
    }) + ";"@
}

/// Builds the join-code payload for the given SSID, password and security
/// token. Total and deterministic; the password segment is included
/// exactly when the password is non-empty and the token is not `nopass`.
pub fn generate_qr_code_data(ssid: &str, password: &str, security_type: &str) -> (r: String)
    ensures
        r@ == wifi_payload(ssid@, password@, security_type@),
{
    let mut s = String::from_str("WIFI:S:");
    s.append(ssid);
    s.append(";T:");
    s.append(security_type);
    s.append(";");
    if !password.is_empty() && !str_eq(security_type, "nopass") {
        s.append("P:");
        s.append(password);
        s.append(";");
    }
    s.append(";");
    proof {
        assert(s@ =~= wifi_payload(ssid@, password@, security_type@));
    }
    s
}

// ---------------------------------------------------------------------------
// Laws of the payload text
// ---------------------------------------------------------------------------
/// A password marker: the two characters `P:` at position `i` of `s`.
pub open spec fn p_marker_at(s: Seq<char>, i: int) -> bool {
    0 <= i && i + 2 <= s.len() && s[i] == 'P' && s[i + 1] == ':'
}

/// The number of password markers in `s`.
pub open spec fn p_markers(s: Seq<char>) -> nat
    decreases s.len(),
{
    if s.len() < 2 {
        0
    } else {
        (if s[0] == 'P' && s[1] == ':' {
            1nat
        } else {
            0nat
        }) + p_markers(s.drop_first())
    }
}

/// Markers in a concatenation: those of each part, plus one that straddles
/// the boundary when the left part ends in `P` and the right begins with
/// `:`.
proof fn lemma_p_markers_concat(a: Seq<char>, b: Seq<char>)
    ensures
        p_markers(a + b) == p_markers(a) + p_markers(b) + (if a.len() > 0 && b.len() > 0
            && a.last() == 'P' && b[0] == ':' {
            1nat
        } else {
            0nat
        }),
    decreases a.len(),
{
    if a.len() == 0 {
        assert(a + b =~= b);
    } else if a.len() == 1 {
        assert((a + b).drop_first() =~= b);
        if b.len() == 0 {
            assert(a + b =~= a);
        }
    } else {
        assert((a + b).drop_first() =~= a.drop_first() + b);
        lemma_p_markers_concat(a.drop_first(), b);
    }
}

/// A sequence without the marker characters in a row has no markers.
proof fn lemma_p_markers_zero(s: Seq<char>)
    requires
        forall|i: int| !p_marker_at(s, i),
    ensures
        p_markers(s) == 0,
    decreases s.len(),
{
    if s.len() >= 2 {
        assert(!p_marker_at(s, 0));
        assert forall|i: int| !p_marker_at(s.drop_first(), i) by {
            if 0 <= i && i + 2 <= s.drop_first().len() {
                assert(s.drop_first()[i] == s[i + 1]);
                assert(s.drop_first()[i + 1] == s[i + 2]);
                assert(!p_marker_at(s, i + 1));
            }
        }
        lemma_p_markers_zero(s.drop_first());
    }
}

/// A sequence with no markers has none at any position.
proof fn lemma_no_marker_of_zero(s: Seq<char>, i: int)
    requires
        p_markers(s) == 0,
    ensures
        !p_marker_at(s, i),
    decreases s.len(),
{
    if p_marker_at(s, i) {
        if i == 0 {
            assert(p_markers(s) >= 1);
        } else {
            assert(s.drop_first()[i - 1] == s[i]);
            assert(s.drop_first()[i] == s[i + 1]);
            assert(p_marker_at(s.drop_first(), i - 1));
            lemma_no_marker_of_zero(s.drop_first(), i - 1);
        }
    }
}

/// Two distinct markers mean at least two markers counted.
proof fn lemma_two_markers(s: Seq<char>, i: int, j: int)
    requires
        p_marker_at(s, i),
        p_marker_at(s, j),
        i < j,
    ensures
        p_markers(s) >= 2,
    decreases s.len(),
{
    if i == 0 {
        assert(p_marker_at(s.drop_first(), j - 1));
        assert(p_markers(s.drop_first()) >= 1) by {
            lemma_marker_counts(s.drop_first(), j - 1);
        }
    } else {
        assert(p_marker_at(s.drop_first(), i - 1));
        assert(p_marker_at(s.drop_first(), j - 1));
        lemma_two_markers(s.drop_first(), i - 1, j - 1);
    }
}

/// A marker at some position means at least one marker counted.
proof fn lemma_marker_counts(s: Seq<char>, i: int)
    requires
        p_marker_at(s, i),
    ensures
        p_markers(s) >= 1,
    decreases s.len(),
{
    if i > 0 {
        assert(p_marker_at(s.drop_first(), i - 1));
        lemma_marker_counts(s.drop_first(), i - 1);
    }
}

/// The payload in its two shapes, written out as plain concatenations.
proof fn lemma_payload_decomposition(ssid: Seq<char>, password: Seq<char>, security: Seq<char>)
    ensures
        payload_has_password(password, security) ==> wifi_payload(ssid, password, security)
            == "WIFI:S:"@ + ssid + ";T:"@ + security + ";"@ + "P:"@ + password + ";"@ + ";"@,
        !payload_has_password(password, security) ==> wifi_payload(ssid, password, security)
            == "WIFI:S:"@ + ssid + ";T:"@ + security + ";"@ + ";"@,
{
    if payload_has_password(password, security) {
        assert(wifi_payload(ssid, password, security) =~= "WIFI:S:"@ + ssid + ";T:"@ + security
            + ";"@ + "P:"@ + password + ";"@ + ";"@);
    } else {
        assert(wifi_payload(ssid, password, security) =~= "WIFI:S:"@ + ssid + ";T:"@ + security
            + ";"@ + ";"@);
    }
}

/// Law: the payload always begins with `WIFI:S:` and ends with the double
/// terminator `;;`, whatever the inputs.
pub proof fn lemma_payload_framing(ssid: Seq<char>, password: Seq<char>, security: Seq<char>)
    ensures
        wifi_payload(ssid, password, security).len() >= 12,
        wifi_payload(ssid, password, security).subrange(0, 7) == "WIFI:S:"@,
        wifi_payload(ssid, password, security).last() == ';',
        wifi_payload(ssid, password, security)[wifi_payload(ssid, password, security).len() - 2]
            == ';',
{
    reveal_strlit("WIFI:S:");
    reveal_strlit(";T:");
    reveal_strlit(";");
    reveal_strlit("P:");
    lemma_payload_decomposition(ssid, password, security);
    let p = wifi_payload(ssid, password, security);
    assert(p.subrange(0, 7) =~= "WIFI:S:"@);
}

/// The head of every payload: everything before the optional password
/// segment and the final terminator. It holds no `P:` marker when the SSID
/// and the security token hold none.
proof fn lemma_head_marker_free(ssid: Seq<char>, security: Seq<char>)
    requires
        forall|i: int| !p_marker_at(ssid, i),
        forall|i: int| !p_marker_at(security, i),
    ensures
        p_markers("WIFI:S:"@ + ssid + ";T:"@ + security + ";"@) == 0,
{
    reveal_strlit("WIFI:S:");
    reveal_strlit(";T:");
    reveal_strlit(";");
    lemma_p_markers_zero(ssid);
    lemma_p_markers_zero(security);
    assert(forall|i: int| !p_marker_at("WIFI:S:"@, i));
    lemma_p_markers_zero("WIFI:S:"@);
    assert(forall|i: int| !p_marker_at(";T:"@, i));
    lemma_p_markers_zero(";T:"@);
    assert(forall|i: int| !p_marker_at(";"@, i));
    lemma_p_markers_zero(";"@);
    lemma_p_markers_concat("WIFI:S:"@, ssid);
    lemma_p_markers_concat("WIFI:S:"@ + ssid, ";T:"@);
    lemma_p_markers_concat("WIFI:S:"@ + ssid + ";T:"@, security);
    lemma_p_markers_concat("WIFI:S:"@ + ssid + ";T:"@ + security, ";"@);
}

/// Law: when the security token is `nopass` or the password is empty, the
/// payload holds no `P:` marker at all — provided the SSID and the token
/// themselves hold none, without which nothing of the kind can be said.
pub proof fn lemma_payload_no_password_segment(
    ssid: Seq<char>,
    password: Seq<char>,
    security: Seq<char>,
)
    requires
        !payload_has_password(password, security),
        forall|i: int| !p_marker_at(ssid, i),
        forall|i: int| !p_marker_at(security, i),
    ensures
        forall|i: int| !p_marker_at(wifi_payload(ssid, password, security), i),
{
    reveal_strlit("WIFI:S:");
    reveal_strlit(";T:");
    reveal_strlit(";");
    lemma_payload_decomposition(ssid, password, security);
    let p = wifi_payload(ssid, password, security);
    let head = "WIFI:S:"@ + ssid + ";T:"@ + security + ";"@;
    lemma_head_marker_free(ssid, security);
    lemma_p_markers_concat(head, ";"@);
    assert(p_markers(";"@) == 0) by {
        lemma_p_markers_zero(";"@);
    }
    assert(p_markers(p) == 0);
    assert forall|i: int| !p_marker_at(p, i) by {
        lemma_no_marker_of_zero(p, i);
    }
}

/// Law: a protected network's payload holds exactly one `P:` marker, at
/// the password segment, with the password and its terminator right after
/// it — provided the SSID, the token and the password themselves hold no
/// marker, without which nothing of the kind can be said.
pub proof fn lemma_payload_single_password_segment(
    ssid: Seq<char>,
    password: Seq<char>,
    security: Seq<char>,
)
    requires
        payload_has_password(password, security),
        forall|i: int| !p_marker_at(ssid, i),
        forall|i: int| !p_marker_at(security, i),
        forall|i: int| !p_marker_at(password, i),
    ensures
        ({
            let p = wifi_payload(ssid, password, security);
            let seg = 11 + ssid.len() + security.len();
            &&& p_marker_at(p, seg as int)
            &&& p.subrange(seg as int + 2, seg as int + 2 + password.len()) == password
            &&& p[seg as int + 2 + password.len()] == ';'
            &&& forall|i: int| p_marker_at(p, i) ==> i == seg
        }),
{
    reveal_strlit("WIFI:S:");
    reveal_strlit(";T:");
    reveal_strlit(";");
    reveal_strlit("P:");
    lemma_payload_decomposition(ssid, password, security);
    let p = wifi_payload(ssid, password, security);
    let head = "WIFI:S:"@ + ssid + ";T:"@ + security + ";"@;
    lemma_head_marker_free(ssid, security);
    lemma_p_markers_zero(password);
    assert(p_markers(";"@) == 0) by {
        lemma_p_markers_zero(";"@);
    }
    let seg = head.len();
    assert(p =~= head + "P:"@ + password + ";"@ + ";"@);
    assert(p[seg as int] == 'P' && p[seg as int + 1] == ':');
    assert(p_marker_at(p, seg as int));
    assert(p.subrange(seg as int + 2, seg as int + 2 + password.len()) =~= password);
    assert(p[seg as int + 2 + password.len()] == ';');
    assert(p_markers("P:"@) == 1) by {
        assert(p_markers("P:"@.drop_first()) == 0);
    }
    lemma_p_markers_concat(head, "P:"@);
    lemma_p_markers_concat(head + "P:"@, password);
    lemma_p_markers_concat(head + "P:"@ + password, ";"@);
    lemma_p_markers_concat(head + "P:"@ + password + ";"@, ";"@);
    assert(p_markers(p) == 1);
    assert forall|i: int| p_marker_at(p, i) implies i == seg by {
        if i < seg {
            lemma_two_markers(p, i, seg as int);
        } else if i > seg {
            lemma_two_markers(p, seg as int, i);
        }
    }
}

} // verus!
