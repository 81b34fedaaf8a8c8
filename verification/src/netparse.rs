//! Parsers for the platform tools' network listings.
//!
//! Each platform's profile-listing command emits line-oriented text; these
//! functions reduce it to canonical records. Parsing is best-effort: a line
//! that does not match the expected shape is skipped, never an error. A
//! command that could not be run or exited with failure is an
//! [`EnumerationError`](crate::model::EnumerationError) carrying the tool's
//! own words.

use vstd::prelude::*;

verus! {

use vstd::slice::slice_subrange;
use vstd::utf8::valid_utf8;
use vstd::utf8::decode_utf8;
use crate::classify::SecurityType;
use crate::classify::classify_auth;
use crate::classify::classify_key_mgmt;
use crate::classify::spec_classify_auth;
use crate::classify::spec_classify_key_mgmt;
use crate::model::CredentialLookupError;
use crate::model::EnumerationError;
use crate::model::SpecNetwork;
use crate::model::WifiNetwork;
use crate::strutil::chars_eq_str;
use crate::strutil::chars_eq_str_ic;
use crate::strutil::chars_to_string;
use crate::strutil::contains_seq;
use crate::strutil::contains_str;
use crate::strutil::eq_ignore_ascii;
use crate::strutil::lines_of;
use crate::strutil::spec_lines;
use crate::strutil::spec_split;
use crate::strutil::spec_trim;
use crate::strutil::split_chars;
use crate::strutil::starts_with_seq;
use crate::strutil::starts_with_str;
use crate::strutil::str_to_chars;
use crate::strutil::trim_chars;
use crate::strutil::views_of;

// ---------------------------------------------------------------------------
// Decoding helpers, each the verified face of one outside function
// ---------------------------------------------------------------------------
/// A hexadecimal digit.
pub open spec fn is_hex_digit(c: char) -> bool {
    ('0' <= c <= '9') || ('a' <= c <= 'f') || ('A' <= c <= 'F')
}

/// The value of one hexadecimal digit.
pub open spec fn hex_val(c: char) -> int {
    if '0' <= c <= '9' {
        c as int - '0' as int
    } else if 'a' <= c <= 'f' {
        c as int - 'a' as int + 10
    } else {
        c as int - 'A' as int + 10
    }
}

/// The bytes a hexadecimal text denotes: each pair of digits is one byte,
/// and an odd length or any non-digit character is a failure.
pub open spec fn spec_hex_decode(s: Seq<char>) -> Option<Seq<u8>> {
    if s.len() % 2 == 0 && (forall|i: int| 0 <= i < s.len() ==> is_hex_digit(s[i])) {
        Some(Seq::new(s.len() / 2, |i: int| (hex_val(s[2 * i]) * 16 + hex_val(s[2 * i + 1])) as u8))
    } else {
        None
    }
}

/// Relies on hex::decode: pairs of upper- or lower-case hexadecimal digits
/// become bytes; an odd length or a character that is no hexadecimal digit
/// is an error.
#[verifier::external_body]
fn hex_decode_chars(s: &[char]) -> (r: Option<Vec<u8>>)
    ensures
        r.deep_view() == spec_hex_decode(s@),
{
    let text: String = s.iter().collect();
    hex::decode(text).ok()
}

/// Relies on String::from_utf8: the bytes decoded as UTF-8, or nothing
/// when they are not valid UTF-8.
#[verifier::external_body]
fn utf8_to_string(bytes: Vec<u8>) -> (r: Option<String>)
    ensures
        (r is Some) == valid_utf8(bytes@),
        r matches Some(s) ==> s@ == decode_utf8(bytes@),
{
    String::from_utf8(bytes).ok()
}

// ---------------------------------------------------------------------------
// Record views
// ---------------------------------------------------------------------------
/// The sequence of views of a sequence of records.
pub open spec fn views_of_networks(s: Seq<WifiNetwork>) -> Seq<SpecNetwork> {
    s.map_values(|n: WifiNetwork| n@)
}

/// The wire token of a classification, where one was recognized.
pub open spec fn token_of(o: Option<SecurityType>) -> Option<Seq<char>> {
    match o {
        Some(t) => Some(t.spec_wire_token()),
        None => None,
    }
}

// ---------------------------------------------------------------------------
// The Linux listing
// ---------------------------------------------------------------------------
/// The record one line of the terse connection listing denotes, if any.
/// A line is `name:ssidhex:keymgmt:psk:type`; only wireless entries count.
/// The SSID field is hexadecimal and falls back to the connection name when
/// it is empty or does not decode to UTF-8 text; an empty PSK is an absent
/// password; the key-management token is classified, unrecognized tokens
/// leaving the type absent. A record whose SSID ends up empty is dropped.
pub open spec fn spec_nmcli_record(line: Seq<char>) -> Option<SpecNetwork> {
    let parts = spec_split(line, ':');
    if parts.len() >= 5 && parts[4] == "802-11-wireless"@ {
        let con_name = parts[0];
        let ssid_hex = parts[1];
        let ssid = if ssid_hex.len() == 0 {
            con_name
        } else {
            match spec_hex_decode(ssid_hex) {
                Some(bytes) => if valid_utf8(bytes) {
                    decode_utf8(bytes)
                } else {
                    con_name
                },
                None => con_name,
            }
        };
        let password = if parts[3].len() == 0 {
            None
        } else {
            Some(parts[3])
        };
        let security_type = token_of(spec_classify_key_mgmt(parts[2]));
        if ssid.len() > 0 {
            Some(SpecNetwork { ssid, password, security_type })
        } else {
            None
        }
    } else {
        None
    }
}

/// The records of a sequence of lines, in order, skipping lines that carry
/// none.
pub open spec fn spec_records_of(
    lines: Seq<Seq<char>>,
    record: spec_fn(Seq<char>) -> Option<SpecNetwork>,
) -> Seq<SpecNetwork>
    decreases lines.len(),
{
    if lines.len() == 0 {
        Seq::<SpecNetwork>::empty()
    } else {
        let rest = spec_records_of(lines.drop_last(), record);
        match record(lines.last()) {
            Some(n) => rest.push(n),
            None => rest,
        }
    }
}

/// The records the whole terse connection listing denotes.
pub open spec fn spec_parse_nmcli(out: Seq<char>) -> Seq<SpecNetwork> {
    spec_records_of(spec_lines(out), |l: Seq<char>| spec_nmcli_record(l))
}

/// Parses one line of the terse connection listing.
fn parse_nmcli_line(line: &[char]) -> (r: Option<WifiNetwork>)
    ensures
        (r is Some) == (spec_nmcli_record(line@) is Some),
        r matches Some(n) ==> spec_nmcli_record(line@) == Some(n@),
{
    let parts = split_chars(line, ':');
    proof {
        assert(views_of(parts@) == spec_split(line@, ':'));
    }
    if parts.len() >= 5 && chars_eq_str(parts[4].as_slice(), "802-11-wireless") {
        let ssid: String;
        if parts[1].len() == 0 {
            ssid = chars_to_string(parts[0].as_slice());
        } else {
            match hex_decode_chars(parts[1].as_slice()) {
                Some(bytes) => {
                    proof {
                        assert(bytes.deep_view() =~= bytes@);
                    }
                    match utf8_to_string(bytes) {
                        Some(s) => {
                            ssid = s;
                        },
                        None => {
                            ssid = chars_to_string(parts[0].as_slice());
                        },
                    }
                },
                None => {
                    ssid = chars_to_string(parts[0].as_slice());
                },
            }
        }
        let password = if parts[3].len() == 0 {
            None
        } else {
            Some(chars_to_string(parts[3].as_slice()))
        };
        let security_type = match classify_key_mgmt(parts[2].as_slice()) {
            Some(t) => Some(t.wire_token()),
            None => None,
        };
        if !ssid.as_str().is_empty() {
            let n = WifiNetwork { ssid, password, security_type };
            proof {
                assert(n@ =~= spec_nmcli_record(line@).unwrap());
            }
            Some(n)
        } else {
            None
        }
    } else {
        None
    }
}

/// Parses the terse connection listing into records, best-effort: lines
/// that do not denote a wireless profile are skipped.
pub fn parse_nmcli_output(out: &str) -> (r: Vec<WifiNetwork>)
    ensures
        views_of_networks(r@) == spec_parse_nmcli(out@),
{
    let chars = str_to_chars(out);
    let lines = lines_of(chars.as_slice());
    let ghost all = views_of(lines@);
    let mut nets: Vec<WifiNetwork> = Vec::new();
    let mut i: usize = 0;
    proof {
        assert(views_of_networks(nets@) =~= spec_records_of(
            all.take(0),
            |l: Seq<char>| spec_nmcli_record(l),
        ));
    }
    while i < lines.len()
        invariant
            i <= lines@.len(),
            all == views_of(lines@),
            views_of_networks(nets@) == spec_records_of(
                all.take(i as int),
                |l: Seq<char>| spec_nmcli_record(l),
            ),
        decreases lines@.len() - i,
    {
        let ghost old_nets = nets@;
        proof {
            assert(all.take(i as int + 1).drop_last() =~= all.take(i as int));
            assert(all.take(i as int + 1).last() == lines@[i as int]@);
        }
        match parse_nmcli_line(lines[i].as_slice()) {
            Some(n) => {
                nets.push(n);
                proof {
                    assert(views_of_networks(nets@) =~= views_of_networks(old_nets).push(n@));
                }
            },
            None => {},
        }
        i += 1;
    }
    proof {
        assert(all.take(lines@.len() as int) =~= all);
    }
    nets
}

/// The outcome of running the Linux profile listing: the parsed records
/// when the tool ran and succeeded; otherwise an enumeration failure whose
/// message preserves the tool's own words. `launch_error` describes why the
/// tool could not be started; `status_text` and `stderr` describe a run
/// that exited with failure.
pub fn enumerate_linux(
    launched: bool,
    launch_error: &str,
    success: bool,
    status_text: &str,
    stdout: &str,
    stderr: &str,
) -> (r: Result<Vec<WifiNetwork>, EnumerationError>)
    ensures
        (r is Ok) == (launched && success),
        r matches Ok(v) ==> views_of_networks(v@) == spec_parse_nmcli(stdout@),
        !launched ==> (r matches Err(e) && e.message@
            == "Failed to execute nmcli. Is NetworkManager installed and running? Error: "@
            + launch_error@),
        launched && !success ==> (r matches Err(e) && e.message@
            == "nmcli command failed with status "@ + status_text@ + ": "@ + stderr@ + "."@),
{
    if !launched {
        let mut m = String::from_str(
            "Failed to execute nmcli. Is NetworkManager installed and running? Error: ",
        );
        m.append(launch_error);
        Err(EnumerationError { message: m })
    } else if !success {
        let mut m = String::from_str("nmcli command failed with status ");
        m.append(status_text);
        m.append(": ");
        m.append(stderr);
        m.append(".");
        Err(EnumerationError { message: m })
    } else {
        Ok(parse_nmcli_output(stdout))
    }
}

// ---------------------------------------------------------------------------
// The Windows listing
// ---------------------------------------------------------------------------
/// The profile name one line of the profile listing carries, if any: the
/// trimmed text between the first colon and the second, or to the end of
/// the line where there is no second — so a name holding a colon of its
/// own is cut at it — when what remains is not empty.
pub open spec fn spec_profile_name(line: Seq<char>) -> Option<Seq<char>> {
    let parts = spec_split(line, ':');
    if parts.len() >= 2 {
        let t = spec_trim(parts[1]);
        if t.len() > 0 {
            Some(t)
        } else {
            None
        }
    } else {
        None
    }
}

/// The profile names of a sequence of lines, in order.
pub open spec fn spec_profile_names(lines: Seq<Seq<char>>) -> Seq<Seq<char>>
    decreases lines.len(),
{
    if lines.len() == 0 {
        Seq::<Seq<char>>::empty()
    } else {
        let rest = spec_profile_names(lines.drop_last());
        match spec_profile_name(lines.last()) {
            Some(n) => rest.push(n),
            None => rest,
        }
    }
}

/// Parses the Windows profile listing into the profile names it mentions:
/// on each line, the trimmed second colon-separated field, skipping lines
/// without a colon or with nothing in that field.
pub fn parse_netsh_profile_names(out: &str) -> (r: Vec<String>)
    ensures
        r.deep_view() == spec_profile_names(spec_lines(out@)),
{
    let chars = str_to_chars(out);
    let lines = lines_of(chars.as_slice());
    let ghost all = views_of(lines@);
    let mut names: Vec<String> = Vec::new();
    let mut i: usize = 0;
    proof {
        assert(names.deep_view() =~= spec_profile_names(all.take(0)));
    }
    while i < lines.len()
        invariant
            i <= lines@.len(),
            all == views_of(lines@),
            names.deep_view() == spec_profile_names(all.take(i as int)),
        decreases lines@.len() - i,
    {
        let ghost old_names = names.deep_view();
        proof {
            assert(all.take(i as int + 1).drop_last() =~= all.take(i as int));
            assert(all.take(i as int + 1).last() == lines@[i as int]@);
        }
        let parts = split_chars(lines[i].as_slice(), ':');
        if parts.len() >= 2 {
            let t = trim_chars(parts[1].as_slice());
            if t.len() > 0 {
                let name = chars_to_string(t);
                names.push(name);
                proof {
                    assert(names.deep_view() =~= old_names.push(t@));
                }
            }
        }
        i += 1;
    }
    proof {
        assert(all.take(lines@.len() as int) =~= all);
    }
    names
}

/// The value of the last line that begins (after trimming) with the given
/// label and carries a colon, as in `Label ... : value`: the trimmed text
/// between the line's first colon and its second, or to the end of the
/// line where there is no second — a value holding a colon of its own is
/// cut at it.
pub open spec fn spec_detail_field(lines: Seq<Seq<char>>, label: Seq<char>) -> Option<Seq<char>>
    decreases lines.len(),
{
    if lines.len() == 0 {
        None
    } else {
        let t = spec_trim(lines.last());
        let parts = spec_split(t, ':');
        if starts_with_seq(t, label) && parts.len() >= 2 {
            Some(spec_trim(parts[1]))
        } else {
            spec_detail_field(lines.drop_last(), label)
        }
    }
}

/// The password a detail listing's key content denotes: absent when the
/// field is missing, empty, or reads `not present` in any ASCII case.
pub open spec fn spec_win_password(kc: Option<Seq<char>>) -> Option<Seq<char>> {
    match kc {
        Some(k) => if k.len() > 0 && !eq_ignore_ascii(k, "not present"@) {
            Some(k)
        } else {
            None
        },
        None => None,
    }
}

/// The security token a detail listing's authentication field denotes.
pub open spec fn spec_win_security(auth: Option<Seq<char>>) -> Option<Seq<char>> {
    match auth {
        Some(a) => token_of(spec_classify_auth(a)),
        None => None,
    }
}

/// Parses one profile's detail listing: the stored key (shown only with
/// sufficient rights) becomes the password, and the authentication
/// description is classified into a security token. Either may be absent.
pub fn parse_netsh_profile_detail(out: &str) -> (r: (Option<String>, Option<String>))
    ensures
        r.0.deep_view() == spec_win_password(
            spec_detail_field(spec_lines(out@), "Key Content"@),
        ),
        r.1.deep_view() == spec_win_security(
            spec_detail_field(spec_lines(out@), "Authentication"@),
        ),
{
    let chars = str_to_chars(out);
    let lines = lines_of(chars.as_slice());
    let ghost all = views_of(lines@);
    let mut key_content: Option<String> = None;
    let mut authentication: Option<String> = None;
    let mut i: usize = 0;
    while i < lines.len()
        invariant
            i <= lines@.len(),
            all == views_of(lines@),
            key_content.deep_view() == spec_detail_field(all.take(i as int), "Key Content"@),
            authentication.deep_view() == spec_detail_field(
                all.take(i as int),
                "Authentication"@,
            ),
        decreases lines@.len() - i,
    {
        proof {
            assert(all.take(i as int + 1).drop_last() =~= all.take(i as int));
            assert(all.take(i as int + 1).last() == lines@[i as int]@);
        }
        let t = trim_chars(lines[i].as_slice());
        if starts_with_str(t, "Key Content") {
            let parts = split_chars(t, ':');
            if parts.len() >= 2 {
                key_content = Some(chars_to_string(trim_chars(parts[1].as_slice())));
            }
        } else if starts_with_str(t, "Authentication") {
            let parts = split_chars(t, ':');
            if parts.len() >= 2 {
                authentication = Some(chars_to_string(trim_chars(parts[1].as_slice())));
            }
        }
        proof {
            reveal_strlit("Key Content");
            reveal_strlit("Authentication");
            assert(!(starts_with_seq(t@, "Key Content"@) && starts_with_seq(
                t@,
                "Authentication"@,
            ))) by {
                if starts_with_seq(t@, "Key Content"@) && starts_with_seq(t@, "Authentication"@) {
                    assert(t@.subrange(0, 11)[0] == t@.subrange(0, 14)[0]);
                }
            }
        }
        i += 1;
    }
    proof {
        assert(all.take(lines@.len() as int) =~= all);
    }
    let password = match key_content {
        Some(k) => {
            let kc = str_to_chars(k.as_str());
            if kc.len() > 0 && !chars_eq_str_ic(kc.as_slice(), "not present") {
                Some(k)
            } else {
                None
            }
        },
        None => None,
    };
    let security = match authentication {
        Some(a) => {
            let ac = str_to_chars(a.as_str());
            match classify_auth(ac.as_slice()) {
                Some(ty) => Some(ty.wire_token()),
                None => None,
            }
        },
        None => None,
    };
    (password, security)
}

/// One Windows record: the profile name, completed from its detail listing
/// where that listing could be obtained.
pub fn windows_profile_record(ssid: String, detail: Option<&str>) -> (r: WifiNetwork)
    ensures
        r@.ssid == ssid@,
        detail matches Some(d) ==> r@.password == spec_win_password(
            spec_detail_field(spec_lines(d@), "Key Content"@),
        ) && r@.security_type == spec_win_security(
            spec_detail_field(spec_lines(d@), "Authentication"@),
        ),
        detail is None ==> r@.password is None && r@.security_type is None,
{
    match detail {
        Some(d) => {
            let (password, security_type) = parse_netsh_profile_detail(d);
            WifiNetwork { ssid, password, security_type }
        },
        None => WifiNetwork { ssid, password: None, security_type: None },
    }
}

/// The outcome of running the Windows profile listing: the profile names
/// when the tool ran and succeeded, else an enumeration failure preserving
/// the tool's words. The caller completes each name into a record from its
/// detail listing.
pub fn enumerate_windows_profiles(
    launched: bool,
    launch_error: &str,
    success: bool,
    status_text: &str,
    stdout: &str,
    stderr: &str,
) -> (r: Result<Vec<String>, EnumerationError>)
    ensures
        (r is Ok) == (launched && success),
        r matches Ok(v) ==> v.deep_view() == spec_profile_names(spec_lines(stdout@)),
        !launched ==> (r matches Err(e) && e.message@
            == "Failed to execute 'netsh wlan show profiles'. Is WLAN AutoConfig service running? Error: "@
            + launch_error@),
        launched && !success ==> (r matches Err(e) && e.message@
            == "'netsh wlan show profiles' command failed with status "@ + status_text@ + ": "@
            + stderr@ + "."@),
{
    if !launched {
        let mut m = String::from_str(
            "Failed to execute 'netsh wlan show profiles'. Is WLAN AutoConfig service running? Error: ",
        );
        m.append(launch_error);
        Err(EnumerationError { message: m })
    } else if !success {
        let mut m = String::from_str("'netsh wlan show profiles' command failed with status ");
        m.append(status_text);
        m.append(": ");
        m.append(stderr);
        m.append(".");
        Err(EnumerationError { message: m })
    } else {
        Ok(parse_netsh_profile_names(stdout))
    }
}

// ---------------------------------------------------------------------------
// The macOS listing
// ---------------------------------------------------------------------------
/// The Wi-Fi device named by the hardware-port listing: after the first
/// line mentioning a Wi-Fi or AirPort hardware port, the following line's
/// text after `Device: `, trimmed. A port line whose follower does not name
/// a device resumes the search after the pair.
pub open spec fn spec_find_device(lines: Seq<Seq<char>>) -> Option<Seq<char>>
    decreases lines.len(),
{
    if lines.len() == 0 {
        None
    } else if contains_seq(lines[0], "Hardware Port: Wi-Fi"@) || contains_seq(
        lines[0],
        "Hardware Port: AirPort"@,
    ) {
        if lines.len() >= 2 {
            if starts_with_seq(lines[1], "Device: "@) {
                Some(spec_trim(lines[1].skip(8)))
            } else {
                spec_find_device(lines.skip(2))
            }
        } else {
            None
        }
    } else {
        spec_find_device(lines.skip(1))
    }
}

/// Finds the Wi-Fi device name in the hardware-port listing.
pub fn find_wifi_device(out: &str) -> (r: Option<String>)
    ensures
        r.deep_view() == spec_find_device(spec_lines(out@)),
{
    let chars = str_to_chars(out);
    let lines = lines_of(chars.as_slice());
    let ghost all = views_of(lines@);
    let mut i: usize = 0;
    proof {
        assert(all.skip(0) =~= all);
    }
    while i < lines.len()
        invariant
            i <= lines@.len(),
            all == views_of(lines@),
            all == spec_lines(out@),
            spec_find_device(all) == spec_find_device(all.skip(i as int)),
        decreases lines@.len() - i,
    {
        let ghost rest = all.skip(i as int);
        proof {
            assert(rest[0] == lines@[i as int]@);
        }
        let line = lines[i].as_slice();
        if contains_str(line, "Hardware Port: Wi-Fi") || contains_str(
            line,
            "Hardware Port: AirPort",
        ) {
            if i + 1 < lines.len() {
                proof {
                    assert(rest[1] == lines@[i as int + 1]@);
                }
                let next = lines[i + 1].as_slice();
                if starts_with_str(next, "Device: ") {
                    proof {
                        reveal_strlit("Device: ");
                    }
                    let dev = trim_chars(slice_subrange(next, 8, next.len()));
                    let name = chars_to_string(dev);
                    proof {
                        assert(next@.subrange(8, next@.len() as int) =~= rest[1].skip(8));
                        assert(spec_find_device(rest) == Some(dev@));
                    }
                    return Some(name);
                } else {
                    proof {
                        assert(rest.skip(2) =~= all.skip(i as int + 2));
                    }
                    i += 2;
                }
            } else {
                proof {
                    assert(rest.len() == 1);
                }
                return None;
            }
        } else {
            proof {
                assert(rest.skip(1) =~= all.skip(i as int + 1));
            }
            i += 1;
        }
    }
    proof {
        assert(all.skip(i as int) =~= Seq::<Seq<char>>::empty());
    }
    None
}

/// The records of the preferred-network listing's lines: each line after
/// the header, trimmed, a non-empty name becoming a record with password
/// and security type left absent.
pub open spec fn spec_preferred_records(lines: Seq<Seq<char>>) -> Seq<SpecNetwork>
    decreases lines.len(),
{
    if lines.len() == 0 {
        Seq::<SpecNetwork>::empty()
    } else {
        let rest = spec_preferred_records(lines.drop_last());
        let t = spec_trim(lines.last());
        if t.len() > 0 {
            rest.push(SpecNetwork { ssid: t, password: None, security_type: None })
        } else {
            rest
        }
    }
}

/// The records the preferred-network listing denotes: its lines after the
/// header line, trimmed, empty ones skipped.
pub open spec fn spec_parse_preferred(out: Seq<char>) -> Seq<SpecNetwork> {
    let lines = spec_lines(out);
    if lines.len() == 0 {
        Seq::<SpecNetwork>::empty()
    } else {
        spec_preferred_records(lines.drop_first())
    }
}

/// Parses the preferred-network listing into records: one per non-empty
/// line after the header, with password and security type left absent.
pub fn parse_preferred_networks(out: &str) -> (r: Vec<WifiNetwork>)
    ensures
        views_of_networks(r@) == spec_parse_preferred(out@),
{
    let chars = str_to_chars(out);
    let lines = lines_of(chars.as_slice());
    let ghost all = views_of(lines@);
    let mut nets: Vec<WifiNetwork> = Vec::new();
    if lines.len() == 0 {
        proof {
            assert(views_of_networks(nets@) =~= spec_parse_preferred(out@));
        }
        return nets;
    }
    let ghost body = all.drop_first();
    let mut i: usize = 1;
    proof {
        assert(views_of_networks(nets@) =~= spec_preferred_records(body.take(0)));
    }
    while i < lines.len()
        invariant
            1 <= i <= lines@.len(),
            all == views_of(lines@),
            all.len() >= 1,
            body == all.drop_first(),
            views_of_networks(nets@) == spec_preferred_records(body.take(i as int - 1)),
        decreases lines@.len() - i,
    {
        let ghost old_nets = nets@;
        proof {
            assert(body.take(i as int).drop_last() =~= body.take(i as int - 1));
            assert(body.take(i as int).last() == lines@[i as int]@);
        }
        let t = trim_chars(lines[i].as_slice());
        if t.len() > 0 {
            let ssid = chars_to_string(t);
            let n = WifiNetwork { ssid, password: None, security_type: None };
            nets.push(n);
            proof {
                assert(views_of_networks(nets@) =~= views_of_networks(old_nets).push(n@));
            }
        }
        i += 1;
    }
    proof {
        assert(body.take(lines@.len() as int - 1) =~= body);
    }
    nets
}

/// The outcome of running the hardware-port listing: nothing to parse on
/// success (the caller goes on to find the device), else an enumeration
/// failure preserving the tool's words.
pub fn macos_ports_outcome(
    launched: bool,
    launch_error: &str,
    success: bool,
    status_text: &str,
    stderr: &str,
) -> (r: Result<(), EnumerationError>)
    ensures
        (r is Ok) == (launched && success),
        !launched ==> (r matches Err(e) && e.message@
            == "Failed to execute 'networksetup -listallhardwareports': "@ + launch_error@),
        launched && !success ==> (r matches Err(e) && e.message@
            == "'networksetup -listallhardwareports' command failed with status "@ + status_text@
            + ": "@ + stderr@ + "."@),
{
    if !launched {
        let mut m = String::from_str("Failed to execute 'networksetup -listallhardwareports': ");
        m.append(launch_error);
        Err(EnumerationError { message: m })
    } else if !success {
        let mut m = String::from_str(
            "'networksetup -listallhardwareports' command failed with status ",
        );
        m.append(status_text);
        m.append(": ");
        m.append(stderr);
        m.append(".");
        Err(EnumerationError { message: m })
    } else {
        Ok(())
    }
}

/// Requires a Wi-Fi device to have been found: passes one through, and
/// turns its absence into the enumeration failure the caller reports.
pub fn macos_device_requirement(device: Option<String>) -> (r: Result<String, EnumerationError>)
    ensures
        device matches Some(d) ==> (r matches Ok(o) && o@ == d@),
        device is None ==> (r matches Err(e) && e.message@
            == "No active Wi-Fi interface (e.g., en0, en1) could be found."@),
{
    match device {
        Some(d) => Ok(d),
        None => Err(
            EnumerationError {
                message: String::from_str(
                    "No active Wi-Fi interface (e.g., en0, en1) could be found.",
                ),
            },
        ),
    }
}

/// The outcome of listing the preferred networks of an interface: the
/// parsed records when the tool ran and succeeded; a pointed message when
/// the tool says the interface is no Wi-Fi interface; else the general
/// failure preserving the tool's words.
pub fn macos_preferred_outcome(
    interface: &str,
    launched: bool,
    launch_error: &str,
    success: bool,
    status_text: &str,
    stdout: &str,
    stderr: &str,
) -> (r: Result<Vec<WifiNetwork>, EnumerationError>)
    ensures
        (r is Ok) == (launched && success),
        r matches Ok(v) ==> views_of_networks(v@) == spec_parse_preferred(stdout@),
        !launched ==> (r matches Err(e) && e.message@
            == "Failed to execute 'networksetup -listpreferredwirelessnetworks': "@
            + launch_error@),
        launched && !success && contains_seq(stderr@, "is not a Wi-Fi interface"@) ==> (r matches
            Err(e) && e.message@ == "The identified network interface '"@ + interface@
            + "' does not appear to be a Wi-Fi interface. Please check your network configuration."@),
        launched && !success && !contains_seq(stderr@, "is not a Wi-Fi interface"@) ==> (r matches
            Err(e) && e.message@
            == "'networksetup -listpreferredwirelessnetworks' command failed for interface '"@
            + interface@ + "' with status "@ + status_text@ + ": "@ + stderr@ + "."@),
{
    if !launched {
        let mut m = String::from_str(
            "Failed to execute 'networksetup -listpreferredwirelessnetworks': ",
        );
        m.append(launch_error);
        Err(EnumerationError { message: m })
    } else if !success {
        let err_chars = str_to_chars(stderr);
        if contains_str(err_chars.as_slice(), "is not a Wi-Fi interface") {
            let mut m = String::from_str("The identified network interface '");
            m.append(interface);
            m.append(
                "' does not appear to be a Wi-Fi interface. Please check your network configuration.",
            );
            Err(EnumerationError { message: m })
        } else {
            let mut m = String::from_str(
                "'networksetup -listpreferredwirelessnetworks' command failed for interface '",
            );
            m.append(interface);
            m.append("' with status ");
            m.append(status_text);
            m.append(": ");
            m.append(stderr);
            m.append(".");
            Err(EnumerationError { message: m })
        }
    } else {
        Ok(parse_preferred_networks(stdout))
    }
}

// ---------------------------------------------------------------------------
// The credential store
// ---------------------------------------------------------------------------
/// The outcome of the secret-store lookup for one SSID: the trimmed output
/// when the tool ran, succeeded and printed something; nothing when it ran
/// and found nothing or was denied; and a lookup failure only when the tool
/// itself could not be started.
pub fn fetch_password_for_ssid(
    ssid: &str,
    launched: bool,
    launch_error: &str,
    success: bool,
    stdout: &str,
) -> (r: Result<Option<String>, CredentialLookupError>)
    ensures
        (r is Ok) == launched,
        launched ==> (r matches Ok(p) && p.deep_view() == (if success && spec_trim(stdout@).len()
            > 0 {
            Some(spec_trim(stdout@))
        } else {
            None::<Seq<char>>
        })),
        !launched ==> (r matches Err(e) && e.message@
            == "Failed to execute 'security find-generic-password' command for SSID '"@ + ssid@
            + "': "@ + launch_error@ + "."@),
{
    if !launched {
        let mut m = String::from_str(
            "Failed to execute 'security find-generic-password' command for SSID '",
        );
        m.append(ssid);
        m.append("': ");
        m.append(launch_error);
        m.append(".");
        Err(CredentialLookupError { message: m })
    } else if success {
        let chars = str_to_chars(stdout);
        let t = trim_chars(chars.as_slice());
        if t.len() > 0 {
            Ok(Some(chars_to_string(t)))
        } else {
            Ok(None)
        }
    } else {
        Ok(None)
    }
}

} // verus!
