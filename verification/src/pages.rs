//! The HTTP side of the device: the WiFi setup page, the status page, which
//! of the two `GET /` serves, and the handling of the setup form posted to
//! `POST /save`.

use vstd::prelude::*;
use vstd::string::*;
use vstd::utf8::*;

use crate::config::Valve;
use crate::form::{
    field_lookup, first_index_of, form_field, form_value, lemma_first_index_of,
    lemma_url_decode_plain_text, AMPERSAND, EQUALS,
};
use crate::text::{
    decimal, lemma_encode_utf8_avoids_char, lemma_encode_utf8_concat, str_from_utf8, usize_to_string,
};

verus! {

/// The setup page: a form that posts the home network's SSID and password to
/// `/save`.
pub const SETUP_HTML: &'static str = "<!doctype html><html><head><meta name=viewport content='width=device-width,initial-scale=1'><title>ESPrinkler setup</title><style>body{font-family:sans-serif;max-width:24rem;margin:2rem auto;padding:0 1rem}input{width:100%;padding:.5rem;margin:.25rem 0 1rem;box-sizing:border-box}button{padding:.6rem 1rem}</style></head><body><h1>ESPrinkler setup</h1><p>Connect this device to your home WiFi.</p><form method=post action=/save><label>Network (SSID)</label><input name=ssid required><label>Password</label><input name=password type=password><button type=submit>Save &amp; connect</button></form></body></html>";

/// The status page up to the number of valves.
pub const STATUS_HEAD: &'static str = "<!doctype html><html><head><meta name=viewport content='width=device-width,initial-scale=1'><title>ESPrinkler</title><style>body{font-family:sans-serif;max-width:28rem;margin:2rem auto;padding:0 1rem}</style></head><body><h1>ESPrinkler</h1><p>Connected. ";

/// The status page between the number of valves and the list of valves.
pub const STATUS_MID: &'static str = " valve(s):</p><ul>";

/// The status page after the list of valves.
pub const STATUS_TAIL: &'static str = "</ul><p><em>Manual control &amp; schedules coming soon.</em></p></body></html>";

/// The form field that carries the network's SSID.
pub const SSID_FIELD: &'static str = "ssid";

/// The form field that carries the network's password.
pub const PASSWORD_FIELD: &'static str = "password";

/// The reply to a saved form, before the device reboots to join the network.
pub const SAVED_TEXT: &'static str = "Saved. Rebooting to join your WiFi\u{2026}";

/// The reply to a form without an SSID.
pub const MISSING_SSID_TEXT: &'static str = "Missing SSID";

/// The HTTP status of the reply to a form without an SSID.
pub const BAD_REQUEST: u16 = 400;

/// The WiFi setup page.
pub fn setup_page() -> (page: String)
    ensures
        page@ == SETUP_HTML@,
{
    <String as StringExecFns>::from_str(SETUP_HTML)
}

/// The list entry for the valve at index `i` (numbered from 1).
pub open spec fn valve_row(i: nat, name: Seq<char>) -> Seq<char> {
    "<li>Valve "@ + decimal(i + 1) + ": "@ + name + "</li>"@
}

/// The list entries of all valves, in order.
pub open spec fn valve_rows(names: Seq<String>) -> Seq<char>
    decreases names.len(),
{
    if names.len() == 0 {
        Seq::empty()
    } else {
        valve_rows(names.drop_last()) + valve_row((names.len() - 1) as nat, names.last()@)
    }
}

/// The status page for these valve names.
pub open spec fn status_html(names: Seq<String>) -> Seq<char> {
    STATUS_HEAD@ + decimal(names.len()) + STATUS_MID@ + valve_rows(names) + STATUS_TAIL@
}

/// The status page: the number of valves, then one entry per valve,
/// "Valve <n>: <name>" with `n` counting from 1.
pub fn status_page(valve_names: &[String]) -> (page: String)
    ensures
        page@ == status_html(valve_names@),
{
    let mut page = <String as StringExecFns>::from_str(STATUS_HEAD);
    let count = usize_to_string(valve_names.len());
    page.append(count.as_str());
    page.append(STATUS_MID);
    let ghost head = STATUS_HEAD@ + decimal(valve_names@.len()) + STATUS_MID@;
    proof {
        assert(valve_names@.take(0) =~= Seq::<String>::empty());
        assert(page@ =~= head + valve_rows(valve_names@.take(0)));
    }
    let mut i: usize = 0;
    while i < valve_names.len()
        invariant
            i <= valve_names@.len(),
            head == STATUS_HEAD@ + decimal(valve_names@.len()) + STATUS_MID@,
            page@ == head + valve_rows(valve_names@.take(i as int)),
        decreases valve_names@.len() - i,
    {
        let ghost before = page@;
        let number = usize_to_string(i + 1);
        page.append("<li>Valve ");
        page.append(number.as_str());
        page.append(": ");
        page.append(valve_names[i].as_str());
        page.append("</li>");
        proof {
            let next = valve_names@.take(i + 1);
            assert(next.drop_last() =~= valve_names@.take(i as int));
            assert(next.last() == valve_names@[i as int]);
            assert(page@ =~= head + valve_rows(next));
        }
        i = i + 1;
    }
    page.append(STATUS_TAIL);
    proof {
        assert(valve_names@.take(valve_names@.len() as int) =~= valve_names@);
        assert(page@ =~= status_html(valve_names@));
    }
    page
}

/// The names of the configured valves, in order.
pub fn valve_names(valves: &Vec<Valve>) -> (names: Vec<String>)
    ensures
        names@.len() == valves@.len(),
        forall|i: int| 0 <= i < valves@.len() ==> names@[i] == valves@[i].name,
{
    let mut names: Vec<String> = Vec::new();
    let mut i: usize = 0;
    while i < valves.len()
        invariant
            i <= valves@.len(),
            names@.len() == i,
            forall|j: int| 0 <= j < i ==> names@[j] == valves@[j].name,
        decreases valves@.len() - i,
    {
        names.push(valves[i].name.clone());
        i = i + 1;
    }
    names
}

/// The page that `GET /` serves: the status page once the device has joined
/// the home network (`in_sta`), else the setup page.
pub fn root_page(in_sta: bool, valve_names: &[String]) -> (page: String)
    ensures
        page@ == (if in_sta {
            status_html(valve_names@)
        } else {
            SETUP_HTML@
        }),
{
    if in_sta {
        status_page(valve_names)
    } else {
        setup_page()
    }
}

/// The reply to a `POST /save`.
pub enum SaveReply {
    /// Refuse the form with this status and body.
    Rejected { status: u16, body: String },
    /// Store these credentials, answer with `body`, and reboot to join.
    Accepted { ssid: String, password: String, body: String },
}

/// The bytes of the text that a request body is read as: the body when it is
/// valid UTF-8, else nothing.
pub open spec fn request_text(body: Seq<u8>) -> Seq<u8> {
    if valid_utf8(body) {
        body
    } else {
        Seq::empty()
    }
}

/// Handles the setup form posted to `/save`: the body is read as UTF-8 text
/// (as empty text when it is not valid UTF-8), and its `ssid` and `password`
/// fields are decoded; the form is refused with 400 "Missing SSID" when the
/// SSID is empty, and accepted otherwise.
pub fn save_request(body: &[u8]) -> (reply: SaveReply)
    ensures
        ({
            let text = request_text(body@);
            let ssid = form_value(text, SSID_FIELD.spec_bytes());
            let password = form_value(text, PASSWORD_FIELD.spec_bytes());
            match reply {
                SaveReply::Rejected { status, body } => ssid.len() == 0 && status == BAD_REQUEST
                    && body@ == MISSING_SSID_TEXT@,
                SaveReply::Accepted { ssid: s, password: p, body } => ssid.len() != 0 && s@
                    == ssid && p@ == password && body@ == SAVED_TEXT@,
            }
        }),
{
    let text = match str_from_utf8(body) {
        Some(s) => s,
        None => "",
    };
    proof {
        reveal_strlit("");
        assert(text.spec_bytes() =~= request_text(body@));
    }
    let ssid = form_field(text, SSID_FIELD);
    let password = form_field(text, PASSWORD_FIELD);
    if ssid.as_str().is_empty() {
        SaveReply::Rejected {
            status: BAD_REQUEST,
            body: <String as StringExecFns>::from_str(MISSING_SSID_TEXT),
        }
    } else {
        SaveReply::Accepted {
            ssid,
            password,
            body: <String as StringExecFns>::from_str(SAVED_TEXT),
        }
    }
}

/// The text of the setup form as a browser submits it for this SSID and
/// password when neither needs escaping.
pub open spec fn setup_form_text(ssid: Seq<char>, password: Seq<char>) -> Seq<char> {
    SSID_FIELD@ + "="@ + ssid + "&"@ + PASSWORD_FIELD@ + "="@ + password
}

/// Whether `s` holds `needle` at some position.
pub open spec fn contains_text(s: Seq<char>, needle: Seq<char>) -> bool {
    exists|i: int|
        0 <= i && i + needle.len() <= s.len() && #[trigger] s.subrange(i, i + needle.len()) == needle
}

/// What the save handler reads back from a submitted setup form is what was
/// typed: for an SSID and a password without `&`, `%` or `+`, the fields of
/// the submitted body are that SSID and that password.
pub proof fn lemma_save_reads_back_setup_form(ssid: Seq<char>, password: Seq<char>)
    requires
        forall|i: int|
            0 <= i < ssid.len() ==> #[trigger] ssid[i] != '&' && ssid[i] != '%' && ssid[i] != '+',
        forall|i: int|
            0 <= i < password.len() ==> #[trigger] password[i] != '&' && password[i] != '%'
                && password[i] != '+',
    ensures
        ({
            let body = request_text(encode_utf8(setup_form_text(ssid, password)));
            &&& form_value(body, SSID_FIELD.spec_bytes()) == ssid
            &&& form_value(body, PASSWORD_FIELD.spec_bytes()) == password
        }),
{
    reveal_strlit("ssid");
    reveal_strlit("password");
    reveal_strlit("=");
    reveal_strlit("&");
    let k1c = SSID_FIELD@;
    let k2c = PASSWORD_FIELD@;
    let eqc = "="@;
    let ampc = "&"@;
    let t1 = k1c + eqc;
    let t2 = t1 + ssid;
    let t3 = t2 + ampc;
    let t4 = t3 + k2c;
    let t5 = t4 + eqc;
    let t6 = t5 + password;
    assert(t6 == setup_form_text(ssid, password));
    lemma_encode_utf8_concat(k1c, eqc);
    lemma_encode_utf8_concat(t1, ssid);
    lemma_encode_utf8_concat(t2, ampc);
    lemma_encode_utf8_concat(t3, k2c);
    lemma_encode_utf8_concat(t4, eqc);
    lemma_encode_utf8_concat(t5, password);
    is_ascii_chars_encode_utf8(k1c);
    is_ascii_chars_encode_utf8(k2c);
    is_ascii_chars_encode_utf8(eqc);
    is_ascii_chars_encode_utf8(ampc);
    let k1 = encode_utf8(k1c);
    let k2 = encode_utf8(k2c);
    let e = encode_utf8(eqc);
    let a = encode_utf8(ampc);
    let s = encode_utf8(ssid);
    let p = encode_utf8(password);
    lemma_encode_utf8_avoids_char(ssid, '&');
    lemma_encode_utf8_avoids_char(password, '&');
    let body = encode_utf8(t6);
    assert(body == k1 + e + s + a + k2 + e + p);
    encode_utf8_valid_utf8(t6);
    assert(request_text(body) == body);
    assert(k1 == SSID_FIELD.spec_bytes());
    assert(k2 == PASSWORD_FIELD.spec_bytes());

    // The first pair is `ssid=<ssid>`.
    let n1: int = 5 + s.len() as int;
    assert forall|j: int| 0 <= j < n1 implies body[j] != AMPERSAND by {
        if j >= 5 {
            assert(body[j] == s[j - 5]);
        }
    }
    assert(body[n1] == AMPERSAND);
    lemma_first_index_of(body, AMPERSAND, n1);
    let pair = body.take(n1);
    assert(pair =~= k1 + e + s);
    lemma_first_index_of(pair, EQUALS, 4);
    assert(pair.take(4) =~= k1);
    assert(pair.skip(5) =~= s);
    assert(field_lookup(body, k1) == Some(s));
    lemma_url_decode_plain_text(ssid);

    // The rest is `password=<password>`, with no further pair.
    let rest = body.skip(n1 + 1);
    assert(rest =~= k2 + e + p);
    assert(pair.take(4) != k2) by {
        assert(pair.take(4).len() != k2.len());
    }
    assert(field_lookup(body, k2) == field_lookup(rest, k2));
    assert forall|j: int| 0 <= j < rest.len() implies rest[j] != AMPERSAND by {
        if j >= 9 {
            assert(rest[j] == p[j - 9]);
        }
    }
    lemma_first_index_of(rest, AMPERSAND, rest.len() as int);
    assert(rest.take(rest.len() as int) =~= rest);
    lemma_first_index_of(rest, EQUALS, 8);
    assert(rest.take(8) =~= k2);
    assert(rest.skip(9) =~= p);
    assert(field_lookup(rest, k2) == Some(p));
    lemma_url_decode_plain_text(password);
}

/// The setup page's form posts to `/save`, and its inputs are named by the
/// fields that the save handler reads.
pub proof fn lemma_setup_form_matches_save_handler()
    ensures
        contains_text(SETUP_HTML@, "<form method=post action=/save>"@),
        contains_text(SETUP_HTML@, "<input name="@ + SSID_FIELD@ + " required>"@),
        contains_text(SETUP_HTML@, "<input name="@ + PASSWORD_FIELD@ + " type=password>"@),
{
    reveal_strlit("<!doctype html><html><head><meta name=viewport content='width=device-width,initial-scale=1'><title>ESPrinkler setup</title><style>body{font-family:sans-serif;max-width:24rem;margin:2rem auto;padding:0 1rem}input{width:100%;padding:.5rem;margin:.25rem 0 1rem;box-sizing:border-box}button{padding:.6rem 1rem}</style></head><body><h1>ESPrinkler setup</h1><p>Connect this device to your home WiFi.</p><form method=post action=/save><label>Network (SSID)</label><input name=ssid required><label>Password</label><input name=password type=password><button type=submit>Save &amp; connect</button></form></body></html>");
    reveal_strlit("<form method=post action=/save>");
    reveal_strlit("<input name=");
    reveal_strlit(" required>");
    reveal_strlit(" type=password>");
    reveal_strlit("ssid");
    reveal_strlit("password");
    let page = SETUP_HTML@;
    let form = "<form method=post action=/save>"@;
    let ssid_input = "<input name="@ + SSID_FIELD@ + " required>"@;
    let password_input = "<input name="@ + PASSWORD_FIELD@ + " type=password>"@;
    assert(page.subrange(397, 397int + form.len()) =~= form);
    assert(page.subrange(457, 457int + ssid_input.len()) =~= ssid_input);
    assert(page.subrange(506, 506int + password_input.len()) =~= password_input);
}

/// Text found in `s` is found in `p + s + q` too.
proof fn lemma_contains_in_context(p: Seq<char>, s: Seq<char>, q: Seq<char>, needle: Seq<char>)
    requires
        contains_text(s, needle),
    ensures
        contains_text(p + s + q, needle),
{
    let i = choose|i: int|
        0 <= i && i + needle.len() <= s.len() && #[trigger] s.subrange(i, i + needle.len())
            == needle;
    let j = i + p.len();
    assert((p + s + q).subrange(j, j + needle.len()) =~= s.subrange(i, i + needle.len()));
}

/// The list of valve entries holds, for each valve, "Valve <n>: <name>" with
/// `n` counting from 1 and the whole name.
proof fn lemma_valve_rows_list_each(names: Seq<String>, i: int)
    requires
        0 <= i < names.len(),
    ensures
        contains_text(valve_rows(names), "<li>Valve "@ + decimal((i + 1) as nat) + ": "@ + names[i]@ + "</li>"@),
    decreases names.len(),
{
    let entry = "<li>Valve "@ + decimal((i + 1) as nat) + ": "@ + names[i]@ + "</li>"@;
    let prev = names.drop_last();
    if i < names.len() - 1 {
        assert(prev[i] == names[i]);
        lemma_valve_rows_list_each(prev, i);
        lemma_contains_in_context(
            Seq::empty(),
            valve_rows(prev),
            valve_row((names.len() - 1) as nat, names.last()@),
            entry,
        );
        assert(Seq::<char>::empty() + valve_rows(prev) + valve_row(
            (names.len() - 1) as nat,
            names.last()@,
        ) =~= valve_rows(names));
    } else {
        let k = valve_rows(prev).len() as int;
        assert(valve_row((names.len() - 1) as nat, names.last()@) =~= entry);
        assert(valve_rows(names).subrange(k, k + entry.len()) =~= entry);
    }
}

/// The status page lists every valve, in its own entry, by its number
/// counting from 1 and its name exactly as configured.
pub proof fn lemma_status_page_lists_each_valve(names: Seq<String>, i: int)
    requires
        0 <= i < names.len(),
    ensures
        contains_text(status_html(names), "<li>Valve "@ + decimal((i + 1) as nat) + ": "@ + names[i]@ + "</li>"@),
        contains_text(status_html(names), "Connected. "@ + decimal(names.len()) + " valve(s):"@),
{
    let entry = "<li>Valve "@ + decimal((i + 1) as nat) + ": "@ + names[i]@ + "</li>"@;
    lemma_valve_rows_list_each(names, i);
    let p = STATUS_HEAD@ + decimal(names.len()) + STATUS_MID@;
    lemma_contains_in_context(p, valve_rows(names), STATUS_TAIL@, entry);
    assert(p + valve_rows(names) + STATUS_TAIL@ =~= status_html(names));
    reveal_strlit("<!doctype html><html><head><meta name=viewport content='width=device-width,initial-scale=1'><title>ESPrinkler</title><style>body{font-family:sans-serif;max-width:28rem;margin:2rem auto;padding:0 1rem}</style></head><body><h1>ESPrinkler</h1><p>Connected. ");
    reveal_strlit(" valve(s):</p><ul>");
    reveal_strlit("Connected. ");
    reveal_strlit(" valve(s):");
    let count = "Connected. "@ + decimal(names.len()) + " valve(s):"@;
    let at = STATUS_HEAD@.len() - 11;
    assert(status_html(names).subrange(at, at + count.len()) =~= count);
}

} // verus!
