//! Freelancer.com project search results (JSON keyed by project id).

use crate::json::{as_int, as_text, deref_opt, either, get, int_of, json_get, json_parse, parse_json, text_of, JsonValue};
use crate::models::{BudgetParts, NewLead};
use crate::scraper::patterns::{keep_word_chars, replace_non_word, strip_tags, strip_tags_text};
use crate::scraper::replace_all;
use crate::scraper::upwork::opt_seq;
use crate::text::{
    append_str, chars_of, join, join_strings, lowercase, owned, str_equal, string_of, to_lowercase,
    trim, trim_str, truncate, truncated, utf8_byte_len, utf8_len, words, words_chars,
};
use vstd::prelude::*;

verus! {

broadcast use crate::views::lemma_char_vec_deep_view;

// ---------------------------------------------------------------------------
// Small conversions
// ---------------------------------------------------------------------------

/// The currency name for a Freelancer currency code: two-letter country codes
/// and the usual ISO codes map to the ISO code; anything else is kept.
pub open spec fn currency_of(code: Seq<char>) -> Seq<char> {
    if code == "US"@ || code == "USD"@ {
        "USD"@
    } else if code == "EUR"@ {
        "EUR"@
    } else if code == "GBP"@ {
        "GBP"@
    } else if code == "AU"@ || code == "AUD"@ {
        "AUD"@
    } else if code == "CA"@ || code == "CAD"@ {
        "CAD"@
    } else if code == "IN"@ || code == "INR"@ {
        "INR"@
    } else {
        code
    }
}

/// Maps a currency code to its name (see [`currency_of`]).
pub fn currency_name(code: &str) -> (r: String)
    ensures
        r@ == currency_of(code@),
{
    if str_equal(code, "US") || str_equal(code, "USD") {
        owned("USD")
    } else if str_equal(code, "EUR") {
        owned("EUR")
    } else if str_equal(code, "GBP") {
        owned("GBP")
    } else if str_equal(code, "AU") || str_equal(code, "AUD") {
        owned("AUD")
    } else if str_equal(code, "CA") || str_equal(code, "CAD") {
        owned("CAD")
    } else if str_equal(code, "IN") || str_equal(code, "INR") {
        owned("INR")
    } else {
        owned(code)
    }
}

/// A title word worth keeping as a keyword: longer than two bytes and not
/// "need" in any case.
pub open spec fn keeps_word(w: Seq<char>) -> bool {
    utf8_len(w) > 2 && lowercase(w) != "need"@
}

/// The title words worth keeping, in order.
pub open spec fn kept_words(ws: Seq<Seq<char>>) -> Seq<Seq<char>>
    decreases ws.len(),
{
    if ws.len() == 0 {
        ws
    } else {
        let init = kept_words(ws.drop_last());
        if keeps_word(ws.last()) {
            init.push(ws.last())
        } else {
            init
        }
    }
}

/// Keywords from a project title: its first four kept words (punctuation
/// read as spaces), joined by ", ".
pub open spec fn title_keywords(title: Seq<char>) -> Seq<char> {
    let ws = kept_words(words(keep_word_chars(title)));
    join(ws.take(vstd::math::min(4, ws.len() as int)), ", "@)
}

/// Builds keywords from a project title (see [`title_keywords`]).
pub fn keyword_from_title(title: &str) -> (r: String)
    ensures
        r@ == title_keywords(title@),
{
    let cleaned = replace_non_word(title);
    let cs = chars_of(cleaned.as_str());
    let ws = words_chars(&cs);
    let mut all: Vec<String> = Vec::new();
    let mut i: usize = 0;
    while i < ws.len()
        invariant
            i <= ws@.len(),
            ws.deep_view() == words(keep_word_chars(title@)),
            all.deep_view() == kept_words(ws.deep_view().take(i as int)),
        decreases ws@.len() - i,
    {
        let ghost wv = ws.deep_view();
        assert(wv.take(i + 1).drop_last() =~= wv.take(i as int));
        assert(wv.take(i + 1).last() == ws@[i as int]@);
        let w = string_of(&ws[i]);
        let low = to_lowercase(w.as_str());
        if utf8_byte_len(&ws[i]) > 2 && !str_equal(low.as_str(), "need") {
            let ghost prev = all.deep_view();
            all.push(w);
            assert(all.deep_view() =~= prev.push(ws@[i as int]@));
        }
        i = i + 1;
    }
    assert(ws.deep_view().take(i as int) =~= ws.deep_view());
    let n = if all.len() < 4 {
        all.len()
    } else {
        4
    };
    let mut first: Vec<String> = Vec::new();
    let mut k: usize = 0;
    while k < n
        invariant
            k <= n <= all@.len(),
            first.deep_view() == all.deep_view().take(k as int),
        decreases n - k,
    {
        let ghost prev = first.deep_view();
        first.push(all[k].clone());
        assert(first.deep_view() =~= prev.push(all@[k as int]@));
        k = k + 1;
        assert(first.deep_view() =~= all.deep_view().take(k as int));
    }
    join_strings(&first, ", ")
}

/// The `"%Y-%m-%d %H:%M"` text of a Unix timestamp in UTC, as `chrono`
/// formats it; empty when `chrono` cannot represent the instant.
pub uninterp spec fn utc_minute(ts: int) -> Seq<char>;

/// Calls `chrono::Utc.timestamp_opt(ts, 0).single()` and formats the instant
/// with `"%Y-%m-%d %H:%M"` (empty text when there is no single instant); the
/// result is named [`utc_minute`].
#[verifier::external_body]
fn ts_to_date(ts: i64) -> (r: String)
    ensures
        r@ == utc_minute(ts as int),
{
    match chrono::TimeZone::timestamp_opt(&chrono::Utc, ts, 0).single() {
        Some(dt) => dt.format("%Y-%m-%d %H:%M").to_string(),
        None => String::new(),
    }
}

// ---------------------------------------------------------------------------
// Projects in the response
// ---------------------------------------------------------------------------

/// The fields of a project the lead is built from. The budget amounts are
/// kept as the numbers' printed text.
pub struct ProjectFields {
    pub id: String,
    pub title: Option<String>,
    pub description: Option<String>,
    pub slug: Option<String>,
    pub budget_min: Option<String>,
    pub budget_max: Option<String>,
    pub currency: Option<String>,
    pub country: Option<String>,
    pub username: Option<String>,
    pub skills: Option<Vec<String>>,
    pub timestamp: Option<i64>,
}

/// The printed text of a JSON number.
pub open spec fn number_text(o: Option<JsonValue>) -> Option<Seq<char>> {
    match o {
        Some(JsonValue::Number(t, _)) => Some(t@),
        _ => None,
    }
}

/// A member of the project's `budget` object.
pub open spec fn budget_member(p: JsonValue, key: Seq<char>) -> Option<JsonValue> {
    match json_get(p, "budget"@) {
        Some(b) => json_get(b, key),
        None => None,
    }
}

/// A member of the project's `owner` object.
pub open spec fn owner_member(p: JsonValue, key: Seq<char>) -> Option<JsonValue> {
    match json_get(p, "owner"@) {
        Some(o) => json_get(o, key),
        None => None,
    }
}

/// The skill names of a `skills` array: each item's `name` that is a string.
pub open spec fn skill_names(items: Seq<JsonValue>) -> Seq<Seq<char>>
    decreases items.len(),
{
    if items.len() == 0 {
        Seq::<Seq<char>>::empty()
    } else {
        let init = skill_names(items.drop_last());
        match as_text(json_get(items.last(), "name"@)) {
            Some(n) => init.push(n),
            None => init,
        }
    }
}

/// The skill names of a project, when `skills` is an array.
pub open spec fn project_skills(p: JsonValue) -> Option<Seq<Seq<char>>> {
    match json_get(p, "skills"@) {
        Some(JsonValue::Array(a)) => Some(skill_names(a@)),
        _ => None,
    }
}

/// The skills of project fields as plain values.
pub open spec fn skills_view(s: Option<Vec<String>>) -> Option<Seq<Seq<char>>> {
    match s {
        Some(v) => Some(v.deep_view()),
        None => None,
    }
}

/// `f` holds the fields of the project `p` listed under `id`.
pub open spec fn fields_of(id: Seq<char>, p: JsonValue, f: ProjectFields) -> bool {
    &&& f.id@ == id
    &&& opt_seq(f.title) == as_text(json_get(p, "title"@))
    &&& opt_seq(f.description) == as_text(json_get(p, "description"@))
    &&& opt_seq(f.slug) == as_text(either(json_get(p, "job_url"@), json_get(p, "seo_url"@)))
    &&& opt_seq(f.budget_min) == number_text(budget_member(p, "minimum"@))
    &&& opt_seq(f.budget_max) == number_text(budget_member(p, "maximum"@))
    &&& opt_seq(f.currency) == as_text(budget_member(p, "currency"@))
    &&& opt_seq(f.country) == (match owner_member(p, "country"@) {
        Some(c) => as_text(json_get(c, "name"@)),
        None => None,
    })
    &&& opt_seq(f.username) == as_text(owner_member(p, "username"@))
    &&& skills_view(f.skills) == project_skills(p)
    &&& f.timestamp == as_int(either(json_get(p, "time_updated"@), json_get(p, "time_submitted"@)))
}

/// The projects of a response: the members of its `projects` object.
pub open spec fn project_entries(data: JsonValue) -> Seq<(String, JsonValue)> {
    match json_get(data, "projects"@) {
        Some(JsonValue::Object(e)) => e@,
        _ => Seq::<(String, JsonValue)>::empty(),
    }
}

fn number_text_of(o: Option<&JsonValue>) -> (r: Option<String>)
    ensures
        opt_seq(r) == number_text(deref_opt(o)),
{
    match o {
        Some(JsonValue::Number(t, _)) => Some(t.clone()),
        _ => None,
    }
}

fn skill_name_list(items: &Vec<JsonValue>) -> (r: Vec<String>)
    ensures
        r.deep_view() == skill_names(items@),
{
    let mut out: Vec<String> = Vec::new();
    let mut i: usize = 0;
    while i < items.len()
        invariant
            i <= items@.len(),
            out.deep_view() == skill_names(items@.take(i as int)),
        decreases items@.len() - i,
    {
        assert(items@.take(i + 1).drop_last() =~= items@.take(i as int));
        let ghost prev = out.deep_view();
        match text_of(get(&items[i], "name")) {
            Some(n) => {
                out.push(n);
                assert(out.deep_view() =~= prev.push(out@[prev.len() as int]@));
            },
            None => {},
        }
        i = i + 1;
    }
    assert(items@.take(i as int) =~= items@);
    out
}

/// Reads the fields of the project `p` listed under `id` (see [`fields_of`]).
pub fn project_fields(id: &String, p: &JsonValue) -> (r: ProjectFields)
    ensures
        fields_of(id@, *p, r),
{
    let budget = get(p, "budget");
    let (budget_min, budget_max, currency) = match budget {
        Some(b) => (
            number_text_of(get(b, "minimum")),
            number_text_of(get(b, "maximum")),
            text_of(get(b, "currency")),
        ),
        None => (None, None, None),
    };
    let owner = get(p, "owner");
    let (country, username) = match owner {
        Some(o) => (
            match get(o, "country") {
                Some(c) => text_of(get(c, "name")),
                None => None,
            },
            text_of(get(o, "username")),
        ),
        None => (None, None),
    };
    let skills = match get(p, "skills") {
        Some(JsonValue::Array(a)) => Some(skill_name_list(a)),
        _ => None,
    };
    let stamp = match get(p, "time_updated") {
        Some(v) => Some(v),
        None => get(p, "time_submitted"),
    };
    ProjectFields {
        id: id.clone(),
        title: text_of(get(p, "title")),
        description: text_of(get(p, "description")),
        slug: text_of(crate::json::first_found(get(p, "job_url"), get(p, "seo_url"))),
        budget_min,
        budget_max,
        currency,
        country,
        username,
        skills,
        timestamp: int_of(stamp),
    }
}

/// Reads every project of a response, in order (see [`project_entries`]).
pub fn response_projects(data: &JsonValue) -> (r: Vec<ProjectFields>)
    ensures
        r@.len() == project_entries(*data).len(),
        forall|i: int|
            0 <= i < r@.len() ==> fields_of(
                project_entries(*data)[i].0@,
                project_entries(*data)[i].1,
                #[trigger] r@[i],
            ),
{
    let mut out: Vec<ProjectFields> = Vec::new();
    match get(data, "projects") {
        Some(JsonValue::Object(entries)) => {
            let mut i: usize = 0;
            while i < entries.len()
                invariant
                    i <= entries@.len(),
                    project_entries(*data) == entries@,
                    out@.len() == i,
                    forall|k: int|
                        0 <= k < i ==> fields_of(entries@[k].0@, entries@[k].1, #[trigger] out@[k]),
                decreases entries@.len() - i,
            {
                let f = project_fields(&entries[i].0, &entries[i].1);
                out.push(f);
                i = i + 1;
            }
        },
        _ => {},
    }
    out
}

/// Decodes a search response and reads its projects (see
/// [`response_projects`]). A body that is not JSON gives an error that starts
/// with `json parse: ` and goes on with the decoder's message.
pub fn response_projects_of(body: &str) -> (r: Result<Vec<ProjectFields>, String>)
    ensures
        json_parse(body@) is None <==> r is Err,
        r matches Err(e) ==> e@.len() >= 12 && e@.take(12) == "json parse: "@,
        json_parse(body@) matches Some(v) ==> r matches Ok(ps) && ps@.len() == project_entries(
            v,
        ).len() && forall|i: int|
            0 <= i < ps@.len() ==> fields_of(
                project_entries(v)[i].0@,
                project_entries(v)[i].1,
                #[trigger] ps@[i],
            ),
{
    match parse_json(body) {
        Ok(v) => Ok(response_projects(&v)),
        Err(e) => {
            let mut out: Vec<char> = chars_of("json parse: ");
            append_str(&mut out, e.as_str());
            let r = string_of(&out);
            proof {
                reveal_strlit("json parse: ");
                assert(r@.take(12) =~= "json parse: "@);
            }
            Err(r)
        },
    }
}

// ---------------------------------------------------------------------------
// Project to lead
// ---------------------------------------------------------------------------

/// The text of an optional text, or a fallback.
pub open spec fn text_or(o: Option<Seq<char>>, d: Seq<char>) -> Seq<char> {
    match o {
        Some(s) => s,
        None => d,
    }
}

/// The technologies of a project: its first six skill names joined by ", "
/// when that is not empty, else keywords from its title.
pub open spec fn project_tech(skills: Option<Seq<Seq<char>>>, title: Seq<char>) -> Seq<char> {
    match skills {
        Some(s) => {
            let j = join(s.take(vstd::math::min(6, s.len() as int)), ", "@);
            if j.len() > 0 {
                j
            } else {
                title_keywords(title)
            }
        },
        None => title_keywords(title),
    }
}

/// The lead made from a project's fields and its formatted budget.
pub open spec fn project_lead(f: ProjectFields, b: BudgetParts, l: NewLead) -> bool {
    let title = text_or(opt_seq(f.title), "Untitled project"@);
    let desc = match opt_seq(f.description) {
        Some(d) => strip_tags_text(d),
        None => Seq::<char>::empty(),
    };
    &&& l.source@ == "freelancer"@
    &&& l.title@ == trim(title)
    &&& l.description@ == truncated(desc, 4000)
    &&& l.url@ == "https://www.freelancer.com/projects/"@ + text_or(
        opt_seq(f.slug),
        Seq::<char>::empty(),
    ) + "-"@ + f.id@
    &&& opt_seq(l.budget) == opt_seq(b.budget)
    &&& l.budget_min == b.budget_min
    &&& l.budget_max == b.budget_max
    &&& l.currency matches Some(c) && c@ == (match opt_seq(f.currency) {
        Some(code) => currency_of(code),
        None => "USD"@,
    })
    &&& opt_seq(l.location) == opt_seq(f.country)
    &&& l.technologies matches Some(t) && t@ == project_tech(skills_view(f.skills), title)
    &&& opt_seq(l.client_name) == (match opt_seq(f.username) {
        Some(u) => Some(replace_all(u, "_"@, " "@)),
        None => None,
    })
    &&& opt_seq(l.posted_date) == (match f.timestamp {
        Some(ts) => Some(utc_minute(ts as int)),
        None => None,
    })
}

fn copy_opt(o: &Option<String>) -> (r: Option<String>)
    ensures
        opt_seq(r) == opt_seq(*o),
{
    match o {
        Some(s) => Some(s.clone()),
        None => None,
    }
}

fn project_tech_text(skills: &Option<Vec<String>>, title: &str) -> (r: String)
    ensures
        r@ == project_tech(skills_view(*skills), title@),
{
    match skills {
        Some(s) => {
            let n = if s.len() < 6 {
                s.len()
            } else {
                6
            };
            let mut first: Vec<String> = Vec::new();
            let mut k: usize = 0;
            while k < n
                invariant
                    k <= n <= s@.len(),
                    first.deep_view() == s.deep_view().take(k as int),
                decreases n - k,
            {
                let ghost prev = first.deep_view();
                first.push(s[k].clone());
                assert(first.deep_view() =~= prev.push(s@[k as int]@));
                k = k + 1;
                assert(first.deep_view() =~= s.deep_view().take(k as int));
            }
            let j = join_strings(&first, ", ");
            if j.as_str().is_empty() {
                keyword_from_title(title)
            } else {
                j
            }
        },
        None => keyword_from_title(title),
    }
}

/// Builds the lead for a project from its fields and its formatted budget.
pub fn project_to_lead(f: &ProjectFields, budget: &BudgetParts) -> (r: NewLead)
    ensures
        project_lead(*f, *budget, r),
{
    let title = match &f.title {
        Some(t) => t.clone(),
        None => owned("Untitled project"),
    };
    let desc = match &f.description {
        Some(d) => strip_tags(d.as_str()),
        None => String::new(),
    };
    let mut url = chars_of("https://www.freelancer.com/projects/");
    match &f.slug {
        Some(s) => append_str(&mut url, s.as_str()),
        None => {},
    }
    append_str(&mut url, "-");
    append_str(&mut url, f.id.as_str());
    let currency = match &f.currency {
        Some(c) => currency_name(c.as_str()),
        None => owned("USD"),
    };
    let client_name = match &f.username {
        Some(u) => {
            let uc = chars_of(u.as_str());
            let under = chars_of("_");
            let space = chars_of(" ");
            proof {
                reveal_strlit("_");
            }
            let r = crate::scraper::replace_chars(&uc, &under, &space);
            Some(string_of(&r))
        },
        None => None,
    };
    let posted_date = match f.timestamp {
        Some(ts) => Some(ts_to_date(ts)),
        None => None,
    };
    let technologies = project_tech_text(&f.skills, title.as_str());
    NewLead {
        source: owned("freelancer"),
        title: trim_str(title.as_str()),
        description: truncate(desc.as_str(), 4000),
        url: string_of(&url),
        budget: copy_opt(&budget.budget),
        budget_min: budget.budget_min,
        budget_max: budget.budget_max,
        currency: Some(currency),
        location: copy_opt(&f.country),
        technologies: Some(technologies),
        client_name,
        posted_date,
    }
}

/// Builds the leads of a response's projects, each with its formatted budget.
pub fn projects_to_leads(projects: &Vec<ProjectFields>, budgets: &Vec<BudgetParts>) -> (r: Vec<
    NewLead,
>)
    requires
        budgets@.len() == projects@.len(),
    ensures
        r@.len() == projects@.len(),
        forall|i: int| 0 <= i < r@.len() ==> project_lead(projects@[i], budgets@[i], #[trigger] r@[i]),
{
    let mut out: Vec<NewLead> = Vec::new();
    let mut i: usize = 0;
    while i < projects.len()
        invariant
            i <= projects@.len(),
            budgets@.len() == projects@.len(),
            out@.len() == i,
            forall|k: int| 0 <= k < i ==> project_lead(projects@[k], budgets@[k], #[trigger] out@[k]),
        decreases projects@.len() - i,
    {
        let l = project_to_lead(&projects[i], &budgets[i]);
        out.push(l);
        i = i + 1;
    }
    out
}

} // verus!
