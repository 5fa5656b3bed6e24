//! The request rules of the HTTP API: what a request must hold to be
//! accepted, and what it is turned into before it reaches the store.

use crate::json::{as_text, get, json_get, text_of, JsonValue};
use crate::models::{Contract, NewLead};
use crate::scraper::upwork::opt_seq;
use crate::text::{
    append_str, chars_of, chars_of_all, ascii_alnum, is_ascii_alnum, join, join_strings,
    list_items, owned, parse_usize, parse_usize_text, radix_string, radix_text, split,
    split_trimmed, starts_with, str_equal, str_starts_with, string_of, strings_of_all, trim,
    trim_chars, trim_nonempty_strings, trim_str, trimmed_all, trimmed_nonempty, utf8_byte_len,
    utf8_len,
};
use vstd::prelude::*;

verus! {

// ---------------------------------------------------------------------------
// Request bodies and queries
// ---------------------------------------------------------------------------

/// An account registration.
pub struct RegisterRequest {
    pub username: String,
    pub password: String,
}

/// A login.
pub struct LoginRequest {
    pub username: String,
    pub password: String,
}

/// Filters for the lead list.
pub struct LeadQuery {
    pub source: Option<String>,
    pub status: Option<String>,
    pub q: Option<String>,
    pub limit: Option<i64>,
}

/// A job or gig link to import as a lead.
pub struct ImportRequest {
    pub url: String,
}

/// The on-chain deployment of an escrow contract.
pub struct DeployRequest {
    pub tx_hash: Option<String>,
    pub contract_address: Option<String>,
}

/// Where LinkedIn should send the user back to.
pub struct LinkedinUrlQuery {
    pub redirect_uri: Option<String>,
}

/// LinkedIn's answer to an authorization request.
pub struct LinkedinCallback {
    pub code: String,
    pub state: Option<String>,
    pub redirect_uri: Option<String>,
}

/// The LinkedIn app settings to save (each optional).
pub struct LinkedinSettings {
    pub client_id: Option<String>,
    pub client_secret: Option<String>,
    pub redirect_uri: Option<String>,
}

/// Background discovery settings to save (each optional).
pub struct AutoUpdateSettings {
    pub enabled: Option<bool>,
    pub interval_mins: Option<u64>,
    pub threshold: Option<i64>,
}

// ---------------------------------------------------------------------------
// Accounts
// ---------------------------------------------------------------------------

/// A character a user name may hold: an ASCII letter or digit, `_`, `-` or `.`.
pub open spec fn username_char(c: char) -> bool {
    is_ascii_alnum(c) || c == '_' || c == '-' || c == '.'
}

/// What is wrong with a user name, judged on its trimmed form: a length
/// outside 3 to 64 bytes, or a character outside the allowed set.
pub open spec fn username_problem(username: Seq<char>) -> Option<Seq<char>> {
    let name = trim(username);
    if utf8_len(name) < 3 || utf8_len(name) > 64 {
        Some("username must be 3-64 characters"@)
    } else if !(forall|i: int| 0 <= i < name.len() ==> username_char(#[trigger] name[i])) {
        Some("username may only contain letters, digits, _ - ."@)
    } else {
        None
    }
}

/// Checks a user name for registration (see [`username_problem`]).
pub fn username_error(username: &str) -> (r: Option<&'static str>)
    ensures
        match r {
            Some(m) => username_problem(username@) == Some(m@),
            None => username_problem(username@) is None,
        },
{
    let cs = chars_of(username);
    let name = trim_chars(&cs);
    let len = utf8_byte_len(&name);
    if len < 3 || len > 64 {
        return Some("username must be 3-64 characters");
    }
    let mut i: usize = 0;
    while i < name.len()
        invariant
            i <= name@.len(),
            name@.len() == name.len(),
            name@ == trim(username@),
            3 <= utf8_len(name@) <= 64,
            forall|k: int| 0 <= k < i ==> username_char(#[trigger] name@[k]),
        decreases name@.len() - i,
    {
        let c = name[i];
        if !(ascii_alnum(c) || c == '_' || c == '-' || c == '.') {
            assert(!username_char(name@[i as int]));
            return Some("username may only contain letters, digits, _ - .");
        }
        i = i + 1;
    }
    None
}

/// What is wrong with a password: fewer than 8 or more than 128 bytes.
pub open spec fn password_problem(password: Seq<char>) -> Option<Seq<char>> {
    if utf8_len(password) < 8 {
        Some("password must be at least 8 characters"@)
    } else if utf8_len(password) > 128 {
        Some("password must be at most 128 characters"@)
    } else {
        None
    }
}

/// Checks a password for registration (see [`password_problem`]).
pub fn password_error(password: &str) -> (r: Option<&'static str>)
    ensures
        match r {
            Some(m) => password_problem(password@) == Some(m@),
            None => password_problem(password@) is None,
        },
{
    let cs = chars_of(password);
    let len = utf8_byte_len(&cs);
    if len < 8 {
        return Some("password must be at least 8 characters");
    }
    if len > 128 {
        return Some("password must be at most 128 characters");
    }
    None
}

/// A login must name a user (not blank) and give a password (not empty).
pub fn login_fields_present(username: &str, password: &str) -> (r: bool)
    ensures
        r == (trim(username@).len() > 0 && password@.len() > 0),
{
    let u = trim_str(username);
    !u.as_str().is_empty() && !password.is_empty()
}

/// The bearer token of an `Authorization` header value.
pub fn bearer_token(header: &str) -> (r: Option<String>)
    ensures
        r is Some <==> starts_with(header@, "Bearer "@),
        r matches Some(t) ==> header@ == "Bearer "@ + t@,
{
    let prefix = chars_of("Bearer ");
    let cs = chars_of(header);
    if str_starts_with(header, "Bearer ") {
        let rest = crate::text::slice_range(&cs, prefix.len(), cs.len());
        assert(header@ =~= prefix@ + rest@);
        Some(string_of(&rest))
    } else {
        None
    }
}

// ---------------------------------------------------------------------------
// Leads
// ---------------------------------------------------------------------------

/// How many leads a list request returns: the requested number (200 when
/// absent), kept between 1 and 1000.
pub fn lead_limit(limit: Option<i64>) -> (r: i64)
    ensures
        r == (match limit {
            Some(n) => if n < 1 {
                1
            } else if n > 1000 {
                1000
            } else {
                n
            },
            None => 200,
        }),
{
    let n = match limit {
        Some(n) => n,
        None => 200,
    };
    if n < 1 {
        1
    } else if n > 1000 {
        1000
    } else {
        n
    }
}

/// The placeholder link of a manual lead given without one.
pub open spec fn manual_url(n: u64) -> Seq<char> {
    "manual://"@ + radix_text(n as nat, 10)
}

/// `m` is the manual lead `l` completed: source "manual" when blank, link
/// `link` when blank, everything else as given.
pub open spec fn completed_lead(l: NewLead, m: NewLead, link: Seq<char>) -> bool {
    &&& m.source@ == (if trim(l.source@).len() == 0 {
        "manual"@
    } else {
        l.source@
    })
    &&& m.url@ == (if trim(l.url@).len() == 0 {
        link
    } else {
        l.url@
    })
    &&& m.title == l.title
    &&& m.description == l.description
    &&& m.budget == l.budget
    &&& m.budget_min == l.budget_min
    &&& m.budget_max == l.budget_max
    &&& m.currency == l.currency
    &&& m.location == l.location
    &&& m.technologies == l.technologies
    &&& m.client_name == l.client_name
    &&& m.posted_date == l.posted_date
}

/// Completes a manually added lead, with `n` numbering its placeholder
/// link; refused when the title is blank.
pub fn complete_manual_lead(l: NewLead, n: u64) -> (r: Result<NewLead, &'static str>)
    ensures
        r is Err <==> trim(l.title@).len() == 0,
        r matches Err(e) ==> e@ == "title required"@,
        r matches Ok(m) ==> completed_lead(l, m, manual_url(n)),
{
    let mut l = l;
    let ghost orig = l;
    if trim_str(l.source.as_str()).as_str().is_empty() {
        l.source = owned("manual");
    }
    if trim_str(l.title.as_str()).as_str().is_empty() {
        return Err("title required");
    }
    if trim_str(l.url.as_str()).as_str().is_empty() {
        let mut u = chars_of("manual://");
        let digits = radix_string(n, 10);
        append_str(&mut u, digits.as_str());
        l.url = string_of(&u);
    }
    Ok(l)
}

/// Calls `rand::random::<u64>()`.
#[verifier::external_body]
pub(crate) fn random_u64() -> u64 {
    rand::random::<u64>()
}

/// Completes a manually added lead, numbering a missing link with a random
/// number (see [`complete_manual_lead`]).
pub fn prepare_manual_lead(l: NewLead) -> (r: Result<NewLead, &'static str>)
    ensures
        r is Err <==> trim(l.title@).len() == 0,
        r matches Err(e) ==> e@ == "title required"@,
        r matches Ok(m) ==> exists|n: u64| completed_lead(l, m, #[trigger] manual_url(n)),
{
    let n = if trim_str(l.url.as_str()).as_str().is_empty() && !trim_str(l.title.as_str()).as_str().is_empty() {
        random_u64()
    } else {
        0
    };
    complete_manual_lead(l, n)
}

/// The statuses a lead can be given.
pub open spec fn lead_statuses() -> Seq<Seq<char>> {
    seq!["new"@, "shortlisted"@, "applied"@, "responded"@, "won"@, "lost"@, "archived"@]
}

/// The statuses a contract can be given.
pub open spec fn contract_statuses() -> Seq<Seq<char>> {
    seq!["deployed"@, "funded"@, "in_progress"@, "submitted"@, "completed"@, "disputed"@, "refunded"@]
}

fn one_of(s: &str, options: &Vec<&str>) -> (r: bool)
    ensures
        r == exists|i: int| 0 <= i < options@.len() && options@[i]@ == s@,
{
    let mut i: usize = 0;
    while i < options.len()
        invariant
            i <= options@.len(),
            forall|k: int| 0 <= k < i ==> options@[k]@ != s@,
        decreases options@.len() - i,
    {
        if str_equal(options[i], s) {
            return true;
        }
        i = i + 1;
    }
    false
}

/// Whether a lead may be given this status.
pub fn is_valid_lead_status(status: &str) -> (r: bool)
    ensures
        r == lead_statuses().contains(status@),
{
    let options = vec!["new", "shortlisted", "applied", "responded", "won", "lost", "archived"];
    let r = one_of(status, &options);
    proof {
        assert forall|i: int| 0 <= i < 7 implies options@[i]@ == #[trigger] lead_statuses()[i] by {}
        if lead_statuses().contains(status@) {
            let k = choose|k: int| 0 <= k < 7 && lead_statuses()[k] == status@;
            assert(options@[k]@ == status@);
        }
        if r {
            let k = choose|k: int| 0 <= k < options@.len() && options@[k]@ == status@;
            assert(lead_statuses()[k] == status@);
        }
    }
    r
}

/// Whether a contract may be given this status.
pub fn is_valid_contract_status(status: &str) -> (r: bool)
    ensures
        r == contract_statuses().contains(status@),
{
    let options = vec!["deployed", "funded", "in_progress", "submitted", "completed", "disputed", "refunded"];
    let r = one_of(status, &options);
    proof {
        assert forall|i: int| 0 <= i < 7 implies options@[i]@ == #[trigger] contract_statuses()[i] by {}
        if contract_statuses().contains(status@) {
            let k = choose|k: int| 0 <= k < 7 && contract_statuses()[k] == status@;
            assert(options@[k]@ == status@);
        }
        if r {
            let k = choose|k: int| 0 <= k < options@.len() && options@[k]@ == status@;
            assert(contract_statuses()[k] == status@);
        }
    }
    r
}

/// The notes of a notes update: its `notes` string, else empty.
pub fn notes_from_body(body: &JsonValue) -> (r: String)
    ensures
        r@ == (match as_text(json_get(*body, "notes"@)) {
            Some(t) => t,
            None => Seq::<char>::empty(),
        }),
{
    match text_of(get(body, "notes")) {
        Some(t) => t,
        None => String::new(),
    }
}

// ---------------------------------------------------------------------------
// Contracts
// ---------------------------------------------------------------------------

/// A chain reference is accepted when it has at least two bytes and starts
/// with `0x`.
pub open spec fn chain_ref_ok(t: Seq<char>) -> bool {
    utf8_len(t) >= 2 && starts_with(t, "0x"@)
}

/// The trimmed text of an optional field (empty when absent).
pub open spec fn trimmed_field(o: Option<String>) -> Seq<char> {
    match o {
        Some(s) => trim(s@),
        None => Seq::<char>::empty(),
    }
}

fn trimmed_text(o: &Option<String>) -> (r: String)
    ensures
        r@ == trimmed_field(*o),
{
    match o {
        Some(s) => trim_str(s.as_str()),
        None => String::new(),
    }
}

/// Reads a deployment: the trimmed transaction hash and contract address,
/// each of which must be a chain reference (see [`chain_ref_ok`]); the hash
/// is checked first.
pub fn deployment_fields(req: &DeployRequest) -> (r: Result<(String, String), &'static str>)
    ensures
        !chain_ref_ok(trimmed_field(req.tx_hash)) ==> (r matches Err(e) && e@
            == "a valid tx_hash (0x…) is required"@),
        chain_ref_ok(trimmed_field(req.tx_hash)) && !chain_ref_ok(trimmed_field(req.contract_address))
            ==> (r matches Err(e) && e@ == "a contract_address (0x…) is required"@),
        chain_ref_ok(trimmed_field(req.tx_hash)) && chain_ref_ok(trimmed_field(req.contract_address))
            ==> (r matches Ok(p) && p.0@ == trimmed_field(req.tx_hash) && p.1@ == trimmed_field(
            req.contract_address,
        )),
{
    let tx = trimmed_text(&req.tx_hash);
    let ca = trimmed_text(&req.contract_address);
    let txc = chars_of(tx.as_str());
    if utf8_byte_len(&txc) < 2 || !str_starts_with(tx.as_str(), "0x") {
        return Err("a valid tx_hash (0x…) is required");
    }
    let cac = chars_of(ca.as_str());
    if utf8_byte_len(&cac) < 2 || !str_starts_with(ca.as_str(), "0x") {
        return Err("a contract_address (0x…) is required");
    }
    Ok((tx, ca))
}

/// Whether a contract with this id is listed.
pub fn has_contract(contracts: &Vec<Contract>, id: i64) -> (r: bool)
    ensures
        r == exists|i: int| 0 <= i < contracts@.len() && contracts@[i].id == id,
{
    let mut i: usize = 0;
    while i < contracts.len()
        invariant
            i <= contracts@.len(),
            forall|k: int| 0 <= k < i ==> contracts@[k].id != id,
        decreases contracts@.len() - i,
    {
        if contracts[i].id == id {
            return true;
        }
        i = i + 1;
    }
    false
}

// ---------------------------------------------------------------------------
// LinkedIn
// ---------------------------------------------------------------------------

/// Where LinkedIn sends the user back to when nothing else is set.
pub open spec fn default_redirect() -> Seq<char> {
    "http://localhost:5173/linkedin/callback"@
}

/// The redirect address used: the requested one, else the saved one, else
/// the default.
pub fn redirect_uri_for(requested: &Option<String>, saved: &Option<String>) -> (r: String)
    ensures
        r@ == (match opt_seq(*requested) {
            Some(u) => u,
            None => match opt_seq(*saved) {
                Some(u) => u,
                None => default_redirect(),
            },
        }),
{
    match requested {
        Some(u) => u.clone(),
        None => match saved {
            Some(u) => u.clone(),
            None => owned("http://localhost:5173/linkedin/callback"),
        },
    }
}

/// The LinkedIn app can be used once its client id and secret are set.
pub fn linkedin_app_ready(client_id: &str, client_secret: &str) -> (r: bool)
    ensures
        r == (client_id@.len() > 0 && client_secret@.len() > 0),
{
    !client_id.is_empty() && !client_secret.is_empty()
}

/// The anti-forgery state for an authorization request: a number in
/// lower-case hexadecimal.
pub fn oauth_state_text(n: u64) -> (r: String)
    ensures
        r@ == radix_text(n as nat, 16),
{
    radix_string(n, 16)
}

/// A fresh anti-forgery state, from a random number.
pub fn new_oauth_state() -> (r: String)
    ensures
        exists|n: u64| r@ == #[trigger] radix_text(n as nat, 16),
{
    let n = random_u64();
    oauth_state_text(n)
}

/// A callback's state is accepted unless it was given, a state was saved,
/// and the two differ.
pub fn state_accepted(given: &Option<String>, saved: &Option<String>) -> (r: bool)
    ensures
        r == !(given is Some && saved is Some && opt_seq(*given) != opt_seq(*saved)),
{
    match (given, saved) {
        (Some(g), Some(s)) => str_equal(g.as_str(), s.as_str()),
        _ => true,
    }
}

/// Setting writes as plain values.
pub open spec fn writes_view(w: Seq<(String, String)>) -> Seq<(Seq<char>, Seq<char>)> {
    w.map_values(|p: (String, String)| (p.0@, p.1@))
}

/// The settings a LinkedIn settings update writes, in order: the client id
/// when given; the secret and the redirect address when given and not blank.
pub open spec fn linkedin_writes(s: LinkedinSettings) -> Seq<(Seq<char>, Seq<char>)> {
    let a = match opt_seq(s.client_id) {
        Some(id) => seq![("linkedin.client_id"@, id)],
        None => Seq::<(Seq<char>, Seq<char>)>::empty(),
    };
    let b = match opt_seq(s.client_secret) {
        Some(x) => if trim(x).len() > 0 {
            seq![("linkedin.client_secret"@, x)]
        } else {
            Seq::<(Seq<char>, Seq<char>)>::empty()
        },
        None => Seq::<(Seq<char>, Seq<char>)>::empty(),
    };
    let c = match opt_seq(s.redirect_uri) {
        Some(x) => if trim(x).len() > 0 {
            seq![("linkedin.redirect_uri"@, x)]
        } else {
            Seq::<(Seq<char>, Seq<char>)>::empty()
        },
        None => Seq::<(Seq<char>, Seq<char>)>::empty(),
    };
    a + b + c
}

pub(crate) fn push_write(out: &mut Vec<(String, String)>, key: &str, value: &String)
    ensures
        writes_view(final(out)@) == writes_view(old(out)@).push((key@, value@)),
{
    let ghost prev = writes_view(out@);
    out.push((owned(key), value.clone()));
    assert(writes_view(out@) =~= prev.push((key@, value@)));
}

/// The settings a LinkedIn settings update writes (see [`linkedin_writes`]).
pub fn linkedin_setting_writes(s: &LinkedinSettings) -> (r: Vec<(String, String)>)
    ensures
        writes_view(r@) == linkedin_writes(*s),
{
    let mut out: Vec<(String, String)> = Vec::new();
    assert(writes_view(out@) =~= Seq::<(Seq<char>, Seq<char>)>::empty());
    match &s.client_id {
        Some(id) => push_write(&mut out, "linkedin.client_id", id),
        None => {},
    }
    let ghost after_a = writes_view(out@);
    match &s.client_secret {
        Some(x) => {
            if !trim_str(x.as_str()).as_str().is_empty() {
                push_write(&mut out, "linkedin.client_secret", x);
            }
        },
        None => {},
    }
    let ghost after_b = writes_view(out@);
    match &s.redirect_uri {
        Some(x) => {
            if !trim_str(x.as_str()).as_str().is_empty() {
                push_write(&mut out, "linkedin.redirect_uri", x);
            }
        },
        None => {},
    }
    assert(writes_view(out@) =~= linkedin_writes(*s));
    out
}

/// Whether an optional setting is present and not empty.
pub fn setting_present(o: &Option<String>) -> (r: bool)
    ensures
        r == (match opt_seq(*o) {
            Some(t) => t.len() > 0,
            None => false,
        }),
{
    match o {
        Some(t) => !t.as_str().is_empty(),
        None => false,
    }
}

// ---------------------------------------------------------------------------
// Settings
// ---------------------------------------------------------------------------

/// The keyword setting saved for a keyword list: trimmed, blanks dropped,
/// joined by ", ".
pub fn keywords_setting_value(list: &Vec<String>) -> (r: String)
    ensures
        r@ == join(trimmed_nonempty(list.deep_view()), ", "@),
{
    let kept = trim_nonempty_strings(list);
    join_strings(&kept, ", ")
}

/// The source setting saved for a source list: trimmed, blanks dropped,
/// joined by ",".
pub fn sources_setting_value(list: &Vec<String>) -> (r: String)
    ensures
        r@ == join(trimmed_nonempty(list.deep_view()), ","@),
{
    let kept = trim_nonempty_strings(list);
    join_strings(&kept, ",")
}

/// The saved sources as shown on the settings page: the setting split on
/// commas and trimmed (blank ones kept); a fixed list when it is unset.
pub fn sources_from_setting(raw: &Option<String>) -> (r: Vec<String>)
    ensures
        r.deep_view() == trimmed_all(
            split(
                match opt_seq(*raw) {
                    Some(t) => t,
                    None => "upwork.freelancer.fiverr"@,
                },
                ',',
            ),
        ),
{
    match raw {
        Some(t) => split_trimmed(t.as_str()),
        None => split_trimmed("upwork.freelancer.fiverr"),
    }
}

/// The number of leads a run stores per fetch: the setting read as a
/// `usize`, else 100.
pub fn max_per_run_from(setting: &Option<String>) -> (r: usize)
    ensures
        r == (match opt_seq(*setting) {
            Some(t) => match parse_usize(t) {
                Some(n) => n,
                None => 100,
            },
            None => 100,
        }),
{
    match setting {
        Some(t) => match parse_usize_text(t.as_str()) {
            Some(n) => n,
            None => 100,
        },
        None => 100,
    }
}

fn copy_strings(v: &Vec<String>) -> (r: Vec<String>)
    ensures
        r.deep_view() == v.deep_view(),
{
    let cs = chars_of_all(v);
    strings_of_all(&cs)
}

/// The sources a scrape request uses: those requested when there are any,
/// else the items of the saved setting.
pub fn scrape_sources(requested: &Option<Vec<String>>, saved: &Option<String>) -> (r: Vec<String>)
    ensures
        (requested matches Some(v) && v@.len() > 0) ==> r.deep_view() == requested->0.deep_view(),
        !(requested matches Some(v) && v@.len() > 0) ==> r.deep_view() == list_items(
            match opt_seq(*saved) {
                Some(t) => t,
                None => Seq::<char>::empty(),
            },
        ),
{
    match requested {
        Some(v) => {
            if v.len() > 0 {
                return copy_strings(v);
            }
        },
        None => {},
    }
    crate::store::keywords_from_setting(saved)
}

/// The keywords a scrape request uses: those requested when there are any,
/// else the saved ones; refused when that leaves none.
pub fn scrape_keywords(requested: &Option<Vec<String>>, saved: &Vec<String>) -> (r: Result<
    Vec<String>,
    &'static str,
>)
    ensures
        ({
            let chosen = if requested matches Some(v) && v@.len() > 0 {
                requested->0.deep_view()
            } else {
                saved.deep_view()
            };
            &&& chosen.len() == 0 ==> (r matches Err(e) && e@ == "no keywords configured"@)
            &&& chosen.len() > 0 ==> (r matches Ok(k) && k.deep_view() == chosen)
        }),
{
    let chosen = match requested {
        Some(v) => if v.len() > 0 {
            copy_strings(v)
        } else {
            copy_strings(saved)
        },
        None => copy_strings(saved),
    };
    if chosen.len() == 0 {
        return Err("no keywords configured");
    }
    Ok(chosen)
}

/// The decimal text of a signed number.
pub open spec fn signed_text(n: int) -> Seq<char> {
    if n < 0 {
        "-"@ + radix_text((-n) as nat, 10)
    } else {
        radix_text(n as nat, 10)
    }
}

/// `i64` written in decimal (`Display`).
pub fn signed_string(n: i64) -> (r: String)
    ensures
        r@ == signed_text(n as int),
{
    if n < 0 {
        let m = (0i128 - n as i128) as u64;
        let mut out = chars_of("-");
        let digits = radix_string(m, 10);
        append_str(&mut out, digits.as_str());
        string_of(&out)
    } else {
        radix_string(n as u64, 10)
    }
}

/// The settings a background discovery update writes, in order, and the
/// error it stops with: the switch (`1` or `0`) when given; then an interval
/// under ten minutes stops the update, any other is written; then the
/// threshold when given.
pub open spec fn auto_update_plan(s: AutoUpdateSettings) -> (Seq<(Seq<char>, Seq<char>)>, Option<Seq<char>>) {
    let a = match s.enabled {
        Some(e) => seq![("auto_pull_enabled"@, if e {
            "1"@
        } else {
            "0"@
        })],
        None => Seq::<(Seq<char>, Seq<char>)>::empty(),
    };
    match s.interval_mins {
        Some(m) if m < 10 => (a, Some("interval must be at least 10 minutes"@)),
        _ => {
            let b = match s.interval_mins {
                Some(m) => seq![("auto_pull_interval_mins"@, radix_text(m as nat, 10))],
                None => Seq::<(Seq<char>, Seq<char>)>::empty(),
            };
            let c = match s.threshold {
                Some(t) => seq![("auto_queue_threshold"@, signed_text(t as int))],
                None => Seq::<(Seq<char>, Seq<char>)>::empty(),
            };
            (a + b + c, None)
        },
    }
}

/// The settings a background discovery update writes and the error it stops
/// with (see [`auto_update_plan`]).
pub fn auto_update_writes(s: &AutoUpdateSettings) -> (r: (Vec<(String, String)>, Option<&'static str>))
    ensures
        writes_view(r.0@) == auto_update_plan(*s).0,
        match r.1 {
            Some(e) => auto_update_plan(*s).1 == Some(e@),
            None => auto_update_plan(*s).1 is None,
        },
{
    let mut out: Vec<(String, String)> = Vec::new();
    assert(writes_view(out@) =~= Seq::<(Seq<char>, Seq<char>)>::empty());
    match s.enabled {
        Some(e) => {
            let v = if e {
                owned("1")
            } else {
                owned("0")
            };
            push_write(&mut out, "auto_pull_enabled", &v);
        },
        None => {},
    }
    match s.interval_mins {
        Some(m) => {
            if m < 10 {
                return (out, Some("interval must be at least 10 minutes"));
            }
            let v = radix_string(m, 10);
            push_write(&mut out, "auto_pull_interval_mins", &v);
        },
        None => {},
    }
    match s.threshold {
        Some(t) => {
            let v = signed_string(t);
            push_write(&mut out, "auto_queue_threshold", &v);
        },
        None => {},
    }
    assert(writes_view(out@) =~= auto_update_plan(*s).0);
    (out, None)
}

// ---------------------------------------------------------------------------
// Settings read back
// ---------------------------------------------------------------------------

/// Keywords saved from the settings page read back as the cleaned list that
/// was saved (trimmed, blanks dropped), as long as no keyword holds a comma.
pub proof fn law_keywords_read_back(list: Seq<Seq<char>>)
    requires
        forall|i: int| 0 <= i < list.len() ==> !(#[trigger] list[i]).contains(','),
    ensures
        list_items(join(trimmed_nonempty(list), ", "@)) == trimmed_nonempty(list),
{
    reveal_strlit(", ");
    crate::text::lemma_trimmed_nonempty_twice(list);
    let cleaned = trimmed_nonempty(list);
    assert forall|i: int| 0 <= i < cleaned.len() implies !(#[trigger] cleaned[i]).contains(',') by {
        if cleaned[i].contains(',') {
            let j = choose|j: int| 0 <= j < list.len() && #[trigger] list[j].contains(',');
        }
    }
    assert(", "@ =~= seq![',', ' ']);
    crate::text::law_list_setting_roundtrip(cleaned, ", "@);
}

/// Sources saved from the settings page are the sources a scrape then uses:
/// the cleaned list that was saved, as long as no source holds a comma.
pub proof fn law_sources_read_back(list: Seq<Seq<char>>)
    requires
        forall|i: int| 0 <= i < list.len() ==> !(#[trigger] list[i]).contains(','),
    ensures
        list_items(join(trimmed_nonempty(list), ","@)) == trimmed_nonempty(list),
{
    reveal_strlit(",");
    crate::text::lemma_trimmed_nonempty_twice(list);
    let cleaned = trimmed_nonempty(list);
    assert forall|i: int| 0 <= i < cleaned.len() implies !(#[trigger] cleaned[i]).contains(',') by {
        if cleaned[i].contains(',') {
            let j = choose|j: int| 0 <= j < list.len() && #[trigger] list[j].contains(',');
        }
    }
    assert(","@ =~= seq![',']);
    crate::text::law_list_setting_roundtrip(cleaned, ","@);
}

} // verus!
