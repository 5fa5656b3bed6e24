//! The user's profile, lead fit scoring, outreach drafts, LinkedIn sign-in
//! links and manual lead import.

use crate::clock::{posted_recently, posted_within_two_weeks, Clock};
use crate::api::{push_write, signed_string, signed_text, writes_view};
use crate::json::{as_int, as_text, get, int_of, json_get, text_of, JsonValue};
use crate::models::{Lead, NewLead};
use crate::text::{
    append_str, chars_of, contains, occurs_at, contains_chars, is_alphanumeric, is_blank, join, join_strings,
    list_items, lowercase, owned, parse_list, string_of, to_lowercase, trim, trim_str,
    unicode_alphanumeric, utf8_byte_len, utf8_len, str_equal,
};
use vstd::prelude::*;

verus! {

/// The user's profile, used for scoring and to personalise outreach.
pub struct Profile {
    pub name: Option<String>,
    pub title: Option<String>,
    pub email: Option<String>,
    pub location: Option<String>,
    pub rate: Option<String>,
    pub skills: Vec<String>,
    pub experience: Option<String>,
    pub availability: Option<String>,
    pub bio: Option<String>,
    pub portfolio: Option<String>,
    pub linkedin: Option<String>,
    pub github: Option<String>,
}

/// One outreach draft: `medium` is `proposal`, `linkedin_message` or `email`.
pub struct OutreachDraft {
    pub medium: String,
    pub subject: Option<String>,
    pub body: String,
}

/// The text of an optional string, or `default` when it is absent.
pub open spec fn or_else(o: Option<String>, default: Seq<char>) -> Seq<char> {
    match o {
        Some(s) => s@,
        None => default,
    }
}

/// The text of an optional string, or the empty text.
pub open spec fn or_empty(o: Option<String>) -> Seq<char> {
    or_else(o, Seq::<char>::empty())
}

/// An optional string's text, or the empty text.
pub fn text_or_empty(o: &Option<String>) -> (r: String)
    ensures
        r@ == or_empty(*o),
{
    match o {
        Some(s) => s.clone(),
        None => String::new(),
    }
}

/// An optional string's text, or a fallback.
pub fn text_or(o: &Option<String>, default: &str) -> (r: String)
    ensures
        r@ == or_else(*o, default@),
{
    match o {
        Some(s) => s.clone(),
        None => owned(default),
    }
}

// ---------------------------------------------------------------------------
// Profile settings
// ---------------------------------------------------------------------------

/// The skills stored in the comma-separated `profile.skills` setting
/// (an absent setting reads as empty).
pub fn skills_from_setting(raw: &Option<String>) -> (r: Vec<String>)
    ensures
        r.deep_view() == list_items(or_empty(*raw)),
{
    let text = text_or_empty(raw);
    parse_list(text.as_str())
}

/// The `profile.skills` setting written for a list of skills.
pub fn skills_setting(skills: &Vec<String>) -> (r: String)
    ensures
        r@ == join(skills.deep_view(), ", "@),
{
    join_strings(skills, ", ")
}

/// The settings a saved profile writes, in order: each field under its
/// `profile.` key (absent fields as empty text), skills joined by ", ".
pub open spec fn profile_writes(p: Profile) -> Seq<(Seq<char>, Seq<char>)> {
    seq![
        ("profile.name"@, or_empty(p.name)),
        ("profile.title"@, or_empty(p.title)),
        ("profile.email"@, or_empty(p.email)),
        ("profile.location"@, or_empty(p.location)),
        ("profile.rate"@, or_empty(p.rate)),
        ("profile.skills"@, join(p.skills.deep_view(), ", "@)),
        ("profile.experience"@, or_empty(p.experience)),
        ("profile.availability"@, or_empty(p.availability)),
        ("profile.bio"@, or_empty(p.bio)),
        ("profile.portfolio"@, or_empty(p.portfolio)),
        ("profile.linkedin"@, or_empty(p.linkedin)),
        ("profile.github"@, or_empty(p.github)),
    ]
}

/// The settings a saved profile writes (see [`profile_writes`]).
pub fn profile_setting_writes(p: &Profile) -> (r: Vec<(String, String)>)
    ensures
        writes_view(r@) == profile_writes(*p),
{
    let mut out: Vec<(String, String)> = Vec::new();
    assert(writes_view(out@) =~= Seq::<(Seq<char>, Seq<char>)>::empty());
    push_write(&mut out, "profile.name", &text_or_empty(&p.name));
    push_write(&mut out, "profile.title", &text_or_empty(&p.title));
    push_write(&mut out, "profile.email", &text_or_empty(&p.email));
    push_write(&mut out, "profile.location", &text_or_empty(&p.location));
    push_write(&mut out, "profile.rate", &text_or_empty(&p.rate));
    push_write(&mut out, "profile.skills", &skills_setting(&p.skills));
    push_write(&mut out, "profile.experience", &text_or_empty(&p.experience));
    push_write(&mut out, "profile.availability", &text_or_empty(&p.availability));
    push_write(&mut out, "profile.bio", &text_or_empty(&p.bio));
    push_write(&mut out, "profile.portfolio", &text_or_empty(&p.portfolio));
    push_write(&mut out, "profile.linkedin", &text_or_empty(&p.linkedin));
    push_write(&mut out, "profile.github", &text_or_empty(&p.github));
    assert(writes_view(out@) =~= profile_writes(*p));
    out
}

/// A saved profile's skills read back as its trimmed, non-blank skills, as
/// long as no skill holds a comma.
pub proof fn law_profile_skills_read_back(skills: Seq<Seq<char>>)
    requires
        forall|i: int| 0 <= i < skills.len() ==> !(#[trigger] skills[i]).contains(','),
    ensures
        list_items(join(skills, ", "@)) == crate::text::trimmed_nonempty(skills),
{
    reveal_strlit(", ");
    assert(", "@ =~= seq![',', ' ']);
    crate::text::law_list_setting_roundtrip(skills, ", "@);
}

// ---------------------------------------------------------------------------
// Fit scoring
// ---------------------------------------------------------------------------

/// The characters of `s` that `char::is_alphanumeric` accepts.
pub open spec fn alphanumeric_only(s: Seq<char>) -> Seq<char>
    decreases s.len(),
{
    if s.len() == 0 {
        s
    } else if unicode_alphanumeric(s.last()) {
        alphanumeric_only(s.drop_last()).push(s.last())
    } else {
        alphanumeric_only(s.drop_last())
    }
}

/// Looser skill match (e.g. "react.js" against "reactjs"): the skill's
/// alphanumeric stem is at least two bytes long and occurs in the text.
pub open spec fn stem_matches(skill: Seq<char>, text: Seq<char>) -> bool {
    let stem = alphanumeric_only(skill);
    utf8_len(stem) >= 2 && contains(text, stem)
}

/// Exec form of [`stem_matches`].
pub fn skill_substring(skill: &[char], text: &[char]) -> (r: bool)
    ensures
        r == stem_matches(skill@, text@),
{
    let mut stem: Vec<char> = Vec::new();
    let mut i: usize = 0;
    while i < skill.len()
        invariant
            i <= skill@.len(),
            stem@ == alphanumeric_only(skill@.take(i as int)),
        decreases skill@.len() - i,
    {
        assert(skill@.take(i + 1).drop_last() =~= skill@.take(i as int));
        if is_alphanumeric(skill[i]) {
            stem.push(skill[i]);
        }
        i = i + 1;
    }
    assert(skill@.take(i as int) =~= skill@);
    utf8_byte_len(&stem) >= 2 && contains_chars(text, &stem)
}

/// The lower-cased text a lead is matched against: title, description and
/// technologies separated by spaces.
pub open spec fn lead_text(lead: Lead) -> Seq<char> {
    lowercase(lead.title@ + seq![' '] + lead.description@ + seq![' '] + or_empty(lead.technologies))
}

/// Whether one profile skill matches the lead text.
pub open spec fn skill_matches(skill: Seq<char>, text: Seq<char>) -> bool {
    let sk = lowercase(trim(skill));
    sk.len() > 0 && (contains(text, sk) || stem_matches(sk, text))
}

/// How many of the skills match the lead text.
pub open spec fn matched_count(skills: Seq<Seq<char>>, text: Seq<char>) -> nat
    decreases skills.len(),
{
    if skills.len() == 0 {
        0
    } else {
        matched_count(skills.drop_last(), text) + if skill_matches(skills.last(), text) {
            1nat
        } else {
            0nat
        }
    }
}

/// More overlap never counts fewer skills: when every skill that matches one
/// lead text also matches another, the second text matches at least as many.
pub proof fn law_matched_count_monotone(skills: Seq<Seq<char>>, text1: Seq<char>, text2: Seq<char>)
    requires
        forall|i: int|
            0 <= i < skills.len() && skill_matches(#[trigger] skills[i], text1) ==> skill_matches(
                skills[i],
                text2,
            ),
    ensures
        matched_count(skills, text1) <= matched_count(skills, text2),
    decreases skills.len(),
{
    if skills.len() > 0 {
        let rest = skills.drop_last();
        assert forall|i: int|
            0 <= i < rest.len() && skill_matches(#[trigger] rest[i], text1) implies skill_matches(
                rest[i],
                text2,
            ) by {
            assert(rest[i] == skills[i]);
        }
        law_matched_count_monotone(rest, text1, text2);
        assert(skills.last() == skills[skills.len() - 1]);
    }
}

/// The lower-cased lead text (see [`lead_text`]).
pub fn lead_text_of(lead: &Lead) -> (r: Vec<char>)
    ensures
        r@ == lead_text(*lead),
{
    let mut raw: Vec<char> = chars_of(lead.title.as_str());
    raw.push(' ');
    append_str(&mut raw, lead.description.as_str());
    raw.push(' ');
    let tech = text_or_empty(&lead.technologies);
    append_str(&mut raw, tech.as_str());
    let joined = string_of(&raw);
    proof {
        assert(joined@ =~= lead.title@ + seq![' '] + lead.description@ + seq![' '] + or_empty(
            lead.technologies,
        ));
    }
    let lower = to_lowercase(joined.as_str());
    chars_of(lower.as_str())
}

/// How many profile skills the lead mentions.
pub fn matched_skill_count(lead: &Lead, profile: &Profile) -> (r: usize)
    ensures
        r == matched_count(profile.skills.deep_view(), lead_text(*lead)),
{
    let text = lead_text_of(lead);
    let mut count: usize = 0;
    let mut i: usize = 0;
    while i < profile.skills.len()
        invariant
            i <= profile.skills@.len(),
            text@ == lead_text(*lead),
            count == matched_count(profile.skills.deep_view().take(i as int), text@),
            count <= i,
        decreases profile.skills@.len() - i,
    {
        let ghost sv = profile.skills.deep_view();
        assert(sv.take(i + 1).drop_last() =~= sv.take(i as int));
        assert(sv.take(i + 1).last() == profile.skills@[i as int]@);
        let trimmed = trim_str(profile.skills[i].as_str());
        let lowered = to_lowercase(trimmed.as_str());
        let sk = chars_of(lowered.as_str());
        if sk.len() > 0 && (contains_chars(&text, &sk) || skill_substring(&sk, &text)) {
            count = count + 1;
        }
        i = i + 1;
    }
    assert(profile.skills.deep_view().take(i as int) =~= profile.skills.deep_view());
    count
}

/// Location bonus: 10 for a remote lead, or for one whose location mentions the
/// profile's location.
pub open spec fn location_bonus(lead: Lead, profile: Profile) -> int {
    match lead.location {
        Some(loc) => {
            let l = lowercase(loc@);
            if contains(l, seq!['r', 'e', 'm', 'o', 't', 'e']) {
                10
            } else {
                match profile.location {
                    Some(pl) => if contains(l, lowercase(pl@)) {
                        10
                    } else {
                        0
                    },
                    None => 0,
                }
            }
        },
        None => 0,
    }
}

/// Recency bonus: 5 for a lead posted within the last two weeks.
pub open spec fn recency_bonus(lead: Lead, now: Clock) -> int {
    match lead.posted_date {
        Some(pd) => if posted_within_two_weeks(pd@, now) {
            5
        } else {
            0
        },
        None => 0,
    }
}

/// `x` clamped into `[lo, hi]`.
pub open spec fn clamp(x: int, lo: int, hi: int) -> int {
    if x < lo {
        lo
    } else if x > hi {
        hi
    } else {
        x
    }
}

/// The fit score: the base score plus the skills points (only when the profile
/// lists skills), the location bonus and the recency bonus, clamped to 0..=100.
pub open spec fn fit_score(
    score: i64,
    lead: Lead,
    profile: Profile,
    skill_points: i64,
    now: Clock,
) -> int {
    let skills = if profile.skills@.len() > 0 {
        skill_points as int
    } else {
        0
    };
    clamp(score + skills + location_bonus(lead, profile) + recency_bonus(lead, now), 0, 100)
}

/// A higher base score or a larger skills share never lowers the fit, and
/// neither does a lead that differs only in its title, description or
/// technologies, all at the same time.
pub proof fn law_fit_score_monotone(
    score1: i64,
    score2: i64,
    lead1: Lead,
    lead2: Lead,
    profile: Profile,
    points1: i64,
    points2: i64,
    now: Clock,
)
    requires
        score1 <= score2,
        points1 <= points2,
        lead1.location == lead2.location,
        lead1.posted_date == lead2.posted_date,
    ensures
        fit_score(score1, lead1, profile, points1, now) <= fit_score(
            score2,
            lead2,
            profile,
            points2,
            now,
        ),
{
    assert(location_bonus(lead1, profile) == location_bonus(lead2, profile));
    assert(recency_bonus(lead1, now) == recency_bonus(lead2, now));
}

/// The literal `remote` as characters.
fn remote_chars() -> (r: Vec<char>)
    ensures
        r@ == seq!['r', 'e', 'm', 'o', 't', 'e'],
{
    let mut v: Vec<char> = Vec::new();
    v.push('r');
    v.push('e');
    v.push('m');
    v.push('o');
    v.push('t');
    v.push('e');
    v
}

/// Location bonus (see [`location_bonus`]).
pub fn location_points(lead: &Lead, profile: &Profile) -> (r: i64)
    ensures
        r == location_bonus(*lead, *profile),
{
    match &lead.location {
        None => 0,
        Some(loc) => {
            let l = to_lowercase(loc.as_str());
            let lc = chars_of(l.as_str());
            let remote = remote_chars();
            if contains_chars(&lc, &remote) {
                10
            } else {
                match &profile.location {
                    None => 0,
                    Some(pl) => {
                        let p = to_lowercase(pl.as_str());
                        let pc = chars_of(p.as_str());
                        if contains_chars(&lc, &pc) {
                            10
                        } else {
                            0
                        }
                    },
                }
            }
        },
    }
}

/// Scores a lead against the user profile (see [`fit_score`]). `skill_points`
/// is the skills component, up to 45 points, that the service derives from
/// [`matched_skill_count`] and the number of profile skills.
pub fn score_lead_against_profile(
    score: i64,
    lead: &Lead,
    profile: &Profile,
    skill_points: i64,
    now: &Clock,
) -> (r: i64)
    ensures
        r == fit_score(score, *lead, *profile, skill_points, *now),
        0 <= r <= 100,
{
    let mut s: i128 = score as i128;
    if profile.skills.len() > 0 {
        s = s + skill_points as i128;
    }
    s = s + location_points(lead, profile) as i128;
    match &lead.posted_date {
        Some(pd) => {
            if posted_recently(pd.as_str(), now) {
                s = s + 5;
            }
        },
        None => {},
    }
    if s < 0 {
        0
    } else if s > 100 {
        100
    } else {
        s as i64
    }
}

/// Scores a lead against the profile at the current time (see
/// [`score_lead_against_profile`]); whatever the clock reads, the score is
/// the fit at that reading and lies between 0 and 100.
pub fn score_now(score: i64, lead: &Lead, profile: &Profile, skill_points: i64) -> (r: i64)
    ensures
        exists|now: Clock| r == #[trigger] fit_score(score, *lead, *profile, skill_points, now),
        0 <= r <= 100,
{
    let now = crate::clock::utc_now();
    let r = score_lead_against_profile(score, lead, profile, skill_points, &now);
    assert(r == fit_score(score, *lead, *profile, skill_points, now));
    r
}

// ---------------------------------------------------------------------------
// Outreach drafts
// ---------------------------------------------------------------------------

/// The budget sentence: the posted budget when there is a non-blank one,
/// otherwise the rate hint.
pub open spec fn budget_line(budget: Option<String>, rate: Seq<char>) -> Seq<char> {
    match budget {
        Some(b) => if trim(b@).len() > 0 {
            " I see the posted budget is "@ + b@ + ", and I can work within that."@
        } else {
            rate_sentence(rate)
        },
        None => rate_sentence(rate),
    }
}

/// The rate hint: empty for an empty rate.
pub open spec fn rate_sentence(rate: Seq<char>) -> Seq<char> {
    if rate.len() == 0 {
        Seq::<char>::empty()
    } else {
        " My usual rate is "@ + rate + " and I am happy to align it with your budget."@
    }
}

/// The rate hint sentence (see [`rate_sentence`]).
pub fn rate_hint(rate: &str) -> (r: String)
    ensures
        r@ == rate_sentence(rate@),
{
    if rate.is_empty() {
        String::new()
    } else {
        let mut out: Vec<char> = chars_of(" My usual rate is ");
        append_str(&mut out, rate);
        append_str(&mut out, " and I am happy to align it with your budget.");
        let r = string_of(&out);
        assert(r@ =~= rate_sentence(rate@));
        r
    }
}

/// The fields a draft is built from.
pub struct OutreachFields {
    pub client: String,
    pub name: String,
    pub title: String,
    pub email: String,
    pub skills: String,
    pub portfolio: String,
    pub experience: String,
    pub linkedin: String,
    pub job: String,
    pub budget_line: String,
}

/// Who the draft is addressed to: the lead's non-blank client name, else "Hiring team".
pub open spec fn addressee(lead: Lead) -> Seq<char> {
    match lead.client_name {
        Some(c) => if trim(c@).len() > 0 {
            c@
        } else {
            "Hiring team"@
        },
        None => "Hiring team"@,
    }
}

/// The skills phrase: the profile skills joined by ", ", or "my skills".
pub open spec fn skills_phrase(profile: Profile) -> Seq<char> {
    if profile.skills@.len() == 0 {
        "my skills"@
    } else {
        join(profile.skills.deep_view(), ", "@)
    }
}

/// The draft fields for a lead and a profile, with the defaults for missing
/// profile entries.
pub open spec fn fields_valid(f: OutreachFields, lead: Lead, profile: Profile) -> bool {
    &&& f.client@ == addressee(lead)
    &&& f.name@ == or_empty(profile.name)
    &&& f.title@ == or_else(profile.title, "freelance developer"@)
    &&& f.email@ == or_empty(profile.email)
    &&& f.skills@ == skills_phrase(profile)
    &&& f.portfolio@ == or_else(profile.portfolio, "available on request"@)
    &&& f.experience@ == or_else(profile.experience, "years of"@)
    &&& f.linkedin@ == or_else(profile.linkedin, "available on request"@)
    &&& f.job@ == lead.title@
    &&& f.budget_line@ == budget_line(lead.budget, or_empty(profile.rate))
}

/// The freelance proposal body.
pub open spec fn proposal_body(f: OutreachFields) -> Seq<char> {
    "Hi "@ + f.client@ + ",\n\nI'm "@ + f.name@ + ", a "@ + f.title@ + " with experience in "@
        + f.skills@ + ". I read your posting for \""@ + f.job@
        + "\" and it is a strong match for what I do best."@ + f.budget_line@
        + "\n\nHere is how I'd approach it:\n- A clear plan and timeline up front\n- Open communication and regular progress updates\n- A focus on clean, maintainable, on-time delivery\n\nI'd love to jump on a quick call to confirm the scope. My portfolio: "@
        + f.portfolio@ + ". Looking forward to working with you!\n\nBest regards,\n"@ + f.name@
}

/// The short LinkedIn message body.
pub open spec fn linkedin_body(f: OutreachFields) -> Seq<char> {
    "Hi "@ + f.client@ + ",\n\nI'm "@ + f.name@ + ", a "@ + f.title@
        + ". I noticed you're hiring for \""@ + f.job@
        + "\" and wanted to introduce myself \u{2014} my "@ + f.skills@
        + " background looks like a good fit. Would you be open to a quick chat this week?\n\nBest,\n"@
        + f.name@
}

/// The email subject.
pub open spec fn email_subject(f: OutreachFields) -> Seq<char> {
    "Application: "@ + f.job@ + " \u{2014} "@ + f.title@
}

/// The email body.
pub open spec fn email_body(f: OutreachFields) -> Seq<char> {
    "Dear "@ + f.client@ + ",\n\nI'm applying for the "@ + f.job@ + " role. I am a "@ + f.title@
        + " with "@ + f.experience@ + " working on "@ + f.skills@ + "."@ + f.budget_line@
        + "\n\nI would be glad to share samples of relevant work and to walk through how I'd add value from day one.\n\nHere is how to reach me:\n- Email: "@
        + f.email@ + "\n- Portfolio: "@ + f.portfolio@ + "\n- LinkedIn: "@ + f.linkedin@
        + "\n\nThank you for your time and consideration.\n\nBest regards,\n"@ + f.name@
}

/// Collects the draft fields (see [`fields_valid`]).
pub fn outreach_fields(lead: &Lead, profile: &Profile) -> (r: OutreachFields)
    ensures
        fields_valid(r, *lead, *profile),
{
    let name = text_or_empty(&profile.name);
    let title = text_or(&profile.title, "freelance developer");
    let email = text_or_empty(&profile.email);
    let skills = if profile.skills.len() == 0 {
        owned("my skills")
    } else {
        join_strings(&profile.skills, ", ")
    };
    let rate = text_or_empty(&profile.rate);
    let portfolio = text_or(&profile.portfolio, "available on request");
    let experience = text_or(&profile.experience, "years of");
    let linkedin = text_or(&profile.linkedin, "available on request");
    let client = match &lead.client_name {
        Some(c) => if is_blank(c.as_str()) {
            owned("Hiring team")
        } else {
            c.clone()
        },
        None => owned("Hiring team"),
    };
    let job = lead.title.clone();
    let budget_line = match &lead.budget {
        Some(b) => if is_blank(b.as_str()) {
            rate_hint(rate.as_str())
        } else {
            let mut out: Vec<char> = chars_of(" I see the posted budget is ");
            append_str(&mut out, b.as_str());
            append_str(&mut out, ", and I can work within that.");
            let r = string_of(&out);
            assert(r@ =~= " I see the posted budget is "@ + b@ + ", and I can work within that."@);
            r
        },
        None => rate_hint(rate.as_str()),
    };
    OutreachFields {
        client,
        name,
        title,
        email,
        skills,
        portfolio,
        experience,
        linkedin,
        job,
        budget_line,
    }
}

/// Generates the three outreach drafts for a lead (proposal, LinkedIn message,
/// email), personalised with the profile; template-based, so it works offline.
pub fn generate_outreach(lead: &Lead, profile: &Profile) -> (r: Vec<OutreachDraft>)
    ensures
        r@.len() == 3,
        exists|f: OutreachFields|
            {
                &&& fields_valid(f, *lead, *profile)
                &&& r@[0].medium@ == "proposal"@ && r@[0].subject is None && r@[0].body@
                    == proposal_body(f)
                &&& r@[1].medium@ == "linkedin_message"@ && r@[1].subject is None
                    && r@[1].body@ == linkedin_body(f)
                &&& r@[2].medium@ == "email"@
                &&& r@[2].subject matches Some(s) && s@ == email_subject(f)
                &&& r@[2].body@ == email_body(f)
            },
{
    let f = outreach_fields(lead, profile);

    let mut p: Vec<char> = chars_of("Hi ");
    append_str(&mut p, f.client.as_str());
    append_str(&mut p, ",\n\nI'm ");
    append_str(&mut p, f.name.as_str());
    append_str(&mut p, ", a ");
    append_str(&mut p, f.title.as_str());
    append_str(&mut p, " with experience in ");
    append_str(&mut p, f.skills.as_str());
    append_str(&mut p, ". I read your posting for \"");
    append_str(&mut p, f.job.as_str());
    append_str(&mut p, "\" and it is a strong match for what I do best.");
    append_str(&mut p, f.budget_line.as_str());
    append_str(
        &mut p,
        "\n\nHere is how I'd approach it:\n- A clear plan and timeline up front\n- Open communication and regular progress updates\n- A focus on clean, maintainable, on-time delivery\n\nI'd love to jump on a quick call to confirm the scope. My portfolio: ",
    );
    append_str(&mut p, f.portfolio.as_str());
    append_str(&mut p, ". Looking forward to working with you!\n\nBest regards,\n");
    append_str(&mut p, f.name.as_str());
    let proposal = string_of(&p);
    assert(proposal@ =~= proposal_body(f));

    let mut m: Vec<char> = chars_of("Hi ");
    append_str(&mut m, f.client.as_str());
    append_str(&mut m, ",\n\nI'm ");
    append_str(&mut m, f.name.as_str());
    append_str(&mut m, ", a ");
    append_str(&mut m, f.title.as_str());
    append_str(&mut m, ". I noticed you're hiring for \"");
    append_str(&mut m, f.job.as_str());
    append_str(&mut m, "\" and wanted to introduce myself \u{2014} my ");
    append_str(&mut m, f.skills.as_str());
    append_str(
        &mut m,
        " background looks like a good fit. Would you be open to a quick chat this week?\n\nBest,\n",
    );
    append_str(&mut m, f.name.as_str());
    let message = string_of(&m);
    assert(message@ =~= linkedin_body(f));

    let mut sj: Vec<char> = chars_of("Application: ");
    append_str(&mut sj, f.job.as_str());
    append_str(&mut sj, " \u{2014} ");
    append_str(&mut sj, f.title.as_str());
    let subject = string_of(&sj);
    assert(subject@ =~= email_subject(f));

    let mut e: Vec<char> = chars_of("Dear ");
    append_str(&mut e, f.client.as_str());
    append_str(&mut e, ",\n\nI'm applying for the ");
    append_str(&mut e, f.job.as_str());
    append_str(&mut e, " role. I am a ");
    append_str(&mut e, f.title.as_str());
    append_str(&mut e, " with ");
    append_str(&mut e, f.experience.as_str());
    append_str(&mut e, " working on ");
    append_str(&mut e, f.skills.as_str());
    append_str(&mut e, ".");
    append_str(&mut e, f.budget_line.as_str());
    append_str(
        &mut e,
        "\n\nI would be glad to share samples of relevant work and to walk through how I'd add value from day one.\n\nHere is how to reach me:\n- Email: ",
    );
    append_str(&mut e, f.email.as_str());
    append_str(&mut e, "\n- Portfolio: ");
    append_str(&mut e, f.portfolio.as_str());
    append_str(&mut e, "\n- LinkedIn: ");
    append_str(&mut e, f.linkedin.as_str());
    append_str(&mut e, "\n\nThank you for your time and consideration.\n\nBest regards,\n");
    append_str(&mut e, f.name.as_str());
    let body = string_of(&e);
    assert(body@ =~= email_body(f));

    let mut out: Vec<OutreachDraft> = Vec::new();
    out.push(OutreachDraft { medium: owned("proposal"), subject: None, body: proposal });
    out.push(OutreachDraft { medium: owned("linkedin_message"), subject: None, body: message });
    out.push(OutreachDraft { medium: owned("email"), subject: Some(subject), body });
    out
}

// ---------------------------------------------------------------------------
// LinkedIn sign-in link
// ---------------------------------------------------------------------------

/// Bytes that `urlencoding` leaves as they are: ASCII letters, digits and `-._~`.
pub open spec fn url_safe_byte(b: u8) -> bool {
    (48 <= b <= 57) || (65 <= b <= 90) || (97 <= b <= 122) || b == 45 || b == 46 || b == 95
        || b == 126
}

/// Upper-case hex digit for a value below 16.
pub open spec fn hex_upper(d: u8) -> char {
    if d < 10 {
        (48 + d) as char
    } else {
        (55 + d) as char
    }
}

/// Percent-encoding of some bytes: safe bytes as themselves, every other byte
/// as `%` and two upper-case hex digits.
pub open spec fn percent_encode(bytes: Seq<u8>) -> Seq<char>
    decreases bytes.len(),
{
    if bytes.len() == 0 {
        Seq::<char>::empty()
    } else {
        let b = bytes.last();
        percent_encode(bytes.drop_last()) + if url_safe_byte(b) {
            seq![b as char]
        } else {
            seq!['%', hex_upper(b >> 4), hex_upper(b & 15)]
        }
    }
}

/// Calls `urlencoding::encode`, which (per its documentation and source)
/// percent-encodes every UTF-8 byte except ASCII alphanumerics and `-`, `_`,
/// `.`, `~`, with upper-case hex digits.
#[verifier::external_body]
pub(crate) fn url_encode(s: &str) -> (r: String)
    ensures
        r@ == percent_encode(vstd::utf8::encode_utf8(s@)),
{
    urlencoding::encode(s).into_owned()
}

/// The LinkedIn "Log in with LinkedIn" authorization link for the given app.
pub open spec fn linkedin_authorization_link(
    client_id: Seq<char>,
    redirect_uri: Seq<char>,
    state: Seq<char>,
    scope: Seq<char>,
) -> Seq<char> {
    "https://www.linkedin.com/oauth/v2/authorization?response_type=code&client_id="@ + client_id
        + "&redirect_uri="@ + percent_encode(vstd::utf8::encode_utf8(redirect_uri)) + "&state="@
        + percent_encode(vstd::utf8::encode_utf8(state)) + "&scope="@ + percent_encode(
        vstd::utf8::encode_utf8(scope),
    )
}

/// Builds the LinkedIn OAuth authorization URL (redirect URI, state and scope
/// percent-encoded; the client id as given).
pub fn linkedin_auth_url(client_id: &str, redirect_uri: &str, state: &str, scope: &str) -> (r:
    String)
    ensures
        r@ == linkedin_authorization_link(client_id@, redirect_uri@, state@, scope@),
{
    let redirect = url_encode(redirect_uri);
    let state_enc = url_encode(state);
    let scope_enc = url_encode(scope);
    let mut out: Vec<char> = chars_of(
        "https://www.linkedin.com/oauth/v2/authorization?response_type=code&client_id=",
    );
    append_str(&mut out, client_id);
    append_str(&mut out, "&redirect_uri=");
    append_str(&mut out, redirect.as_str());
    append_str(&mut out, "&state=");
    append_str(&mut out, state_enc.as_str());
    append_str(&mut out, "&scope=");
    append_str(&mut out, scope_enc.as_str());
    let r = string_of(&out);
    assert(r@ =~= linkedin_authorization_link(client_id@, redirect_uri@, state@, scope@));
    r
}

// ---------------------------------------------------------------------------
// Manual leads
// ---------------------------------------------------------------------------

/// The source a pasted URL most likely belongs to.
pub open spec fn source_of_url(url: Seq<char>) -> Seq<char> {
    let u = lowercase(url);
    if contains(u, "upwork"@) {
        "upwork"@
    } else if contains(u, "fiverr"@) {
        "fiverr"@
    } else if contains(u, "freelancer"@) {
        "freelancer"@
    } else if contains(u, "indeed"@) {
        "indeed"@
    } else if contains(u, "linkedin"@) {
        "linkedin"@
    } else if contains(u, "facebook"@) || contains(u, "fb.com"@) || contains(u, "facebook.com"@) {
        "facebook"@
    } else {
        "manual"@
    }
}

fn lit_in(hay: &[char], lit: &str) -> (r: bool)
    ensures
        r == contains(hay@, lit@),
{
    let n = chars_of(lit);
    contains_chars(hay, &n)
}

/// Guesses a lead's source from its URL (see [`source_of_url`]).
pub fn guess_source(url: &str) -> (r: String)
    ensures
        r@ == source_of_url(url@),
{
    let lower = to_lowercase(url);
    let u = chars_of(lower.as_str());
    if lit_in(&u, "upwork") {
        owned("upwork")
    } else if lit_in(&u, "fiverr") {
        owned("fiverr")
    } else if lit_in(&u, "freelancer") {
        owned("freelancer")
    } else if lit_in(&u, "indeed") {
        owned("indeed")
    } else if lit_in(&u, "linkedin") {
        owned("linkedin")
    } else if lit_in(&u, "facebook") || lit_in(&u, "fb.com") || lit_in(&u, "facebook.com") {
        owned("facebook")
    } else {
        owned("manual")
    }
}

/// The display name of a source.
pub open spec fn source_display_name(source: Seq<char>) -> Seq<char> {
    if source == "upwork"@ {
        "Upwork"@
    } else if source == "fiverr"@ {
        "Fiverr"@
    } else if source == "freelancer"@ {
        "Freelancer"@
    } else if source == "indeed"@ {
        "Job"@
    } else if source == "linkedin"@ {
        "LinkedIn"@
    } else if source == "facebook"@ {
        "Facebook"@
    } else {
        "Lead"@
    }
}

/// The display name of a source (see [`source_display_name`]).
pub fn display_source(source: &str) -> (r: &'static str)
    ensures
        r@ == source_display_name(source@),
{
    if str_equal(source, "upwork") {
        "Upwork"
    } else if str_equal(source, "fiverr") {
        "Fiverr"
    } else if str_equal(source, "freelancer") {
        "Freelancer"
    } else if str_equal(source, "indeed") {
        "Job"
    } else if str_equal(source, "linkedin") {
        "LinkedIn"
    } else if str_equal(source, "facebook") {
        "Facebook"
    } else {
        "Lead"
    }
}

/// Description given to every pasted lead.
pub open spec fn manual_lead_description() -> Seq<char> {
    "Pasted manually. Add the role details and your fit notes, then run scoring."@
}

/// Builds a lead from a hand-pasted job or gig URL: the trimmed URL, the
/// guessed source, a "needs review" title and a placeholder description,
/// priced in USD, with no other details.
pub fn lead_from_url(url: &str) -> (r: NewLead)
    ensures
        r.url@ == trim(url@),
        r.source@ == source_of_url(trim(url@)),
        r.title@ == source_display_name(source_of_url(trim(url@))) + " opportunity \u{2014} needs review"@,
        r.description@ == manual_lead_description(),
        r.currency matches Some(c) && c@ == "USD"@,
        r.budget is None && r.budget_min is None && r.budget_max is None,
        r.location is None && r.technologies is None && r.client_name is None,
        r.posted_date is None,
{
    let url = trim_str(url);
    let source = guess_source(url.as_str());
    let mut t: Vec<char> = chars_of(display_source(source.as_str()));
    append_str(&mut t, " opportunity \u{2014} needs review");
    let title = string_of(&t);
    NewLead {
        source,
        title,
        description: owned(
            "Pasted manually. Add the role details and your fit notes, then run scoring.",
        ),
        url,
        budget: None,
        budget_min: None,
        budget_max: None,
        currency: Some(owned("USD")),
        location: None,
        technologies: None,
        client_name: None,
        posted_date: None,
    }
}

// ---------------------------------------------------------------------------
// LinkedIn connection
// ---------------------------------------------------------------------------

/// What a token response grants: its `access_token` string and its
/// `expires_in` integer (0 when absent); an error when there is no token.
pub open spec fn granted_token(body: JsonValue) -> Result<(Seq<char>, int), Seq<char>> {
    match as_text(json_get(body, "access_token"@)) {
        Some(t) => Ok(
            (
                t,
                match as_int(json_get(body, "expires_in"@)) {
                    Some(e) => e as int,
                    None => 0,
                },
            ),
        ),
        None => Err("no access_token in response"@),
    }
}

/// Reads the token and its lifetime from a token response (see
/// [`granted_token`]).
pub fn token_grant(body: &JsonValue) -> (r: Result<(String, i64), String>)
    ensures
        match (r, granted_token(*body)) {
            (Ok(p), Ok(q)) => p.0@ == q.0 && p.1 == q.1,
            (Err(e), Err(m)) => e@ == m,
            _ => false,
        },
{
    let token = match text_of(get(body, "access_token")) {
        Some(t) => t,
        None => return Err(owned("no access_token in response")),
    };
    let expires = match int_of(get(body, "expires_in")) {
        Some(e) => e,
        None => 0,
    };
    Ok((token, expires))
}

/// The settings a granted token writes: the token and its lifetime.
pub fn token_writes(token: &String, expires: i64) -> (r: Vec<(String, String)>)
    ensures
        writes_view(r@) == seq![
            ("linkedin.access_token"@, token@),
            ("linkedin.expires_at"@, signed_text(expires as int)),
        ],
{
    let mut out: Vec<(String, String)> = Vec::new();
    assert(writes_view(out@) =~= Seq::<(Seq<char>, Seq<char>)>::empty());
    push_write(&mut out, "linkedin.access_token", token);
    push_write(&mut out, "linkedin.expires_at", &signed_string(expires));
    assert(writes_view(out@) =~= seq![
        ("linkedin.access_token"@, token@),
        ("linkedin.expires_at"@, signed_text(expires as int)),
    ]);
    out
}

/// The settings a member profile writes: its `sub` as the member id and its
/// `name` as the member name, each when it is a string.
pub open spec fn member_writes(info: JsonValue) -> Seq<(Seq<char>, Seq<char>)> {
    let a = match as_text(json_get(info, "sub"@)) {
        Some(s) => seq![("linkedin.member_id"@, s)],
        None => Seq::<(Seq<char>, Seq<char>)>::empty(),
    };
    let b = match as_text(json_get(info, "name"@)) {
        Some(n) => seq![("linkedin.member_name"@, n)],
        None => Seq::<(Seq<char>, Seq<char>)>::empty(),
    };
    a + b
}

/// The settings a member profile writes (see [`member_writes`]).
pub fn member_setting_writes(info: &JsonValue) -> (r: Vec<(String, String)>)
    ensures
        writes_view(r@) == member_writes(*info),
{
    let mut out: Vec<(String, String)> = Vec::new();
    assert(writes_view(out@) =~= Seq::<(Seq<char>, Seq<char>)>::empty());
    match text_of(get(info, "sub")) {
        Some(s) => push_write(&mut out, "linkedin.member_id", &s),
        None => {},
    }
    match text_of(get(info, "name")) {
        Some(n) => push_write(&mut out, "linkedin.member_name", &n),
        None => {},
    }
    assert(writes_view(out@) =~= member_writes(*info));
    out
}

// ---------------------------------------------------------------------------
// Laws of scoring, outreach and URL import
// ---------------------------------------------------------------------------

/// The location bonus is 10 exactly when the lead names a location that,
/// lower-cased, says "remote" or contains the profile's lower-cased location;
/// it is 0 otherwise. So a lead in "Berlin, Germany" earns it for a profile in
/// "Berlin", and with base 0, no skills and no posting date its fit is 10.
pub proof fn law_location_bonus(lead: Lead, profile: Profile, skill_points: i64, now: Clock)
    ensures
        lead.location is None ==> location_bonus(lead, profile) == 0,
        lead.location matches Some(loc) && contains(lowercase(loc@), "remote"@) ==> location_bonus(
            lead,
            profile,
        ) == 10,
        lead.location matches Some(loc) && profile.location matches Some(pl) && contains(
            lowercase(loc@),
            lowercase(pl@),
        ) ==> location_bonus(lead, profile) == 10,
        lead.location matches Some(loc) && !contains(lowercase(loc@), "remote"@) && (
        profile.location is None || (profile.location matches Some(pl) && !contains(
            lowercase(loc@),
            lowercase(pl@),
        ))) ==> location_bonus(lead, profile) == 0,
        lead.location matches Some(loc) && profile.location matches Some(pl) && contains(
            lowercase(loc@),
            lowercase(pl@),
        ) && profile.skills@.len() == 0 && lead.posted_date is None ==> fit_score(
            0,
            lead,
            profile,
            skill_points,
            now,
        ) == 10,
{
    reveal_strlit("remote");
    assert(seq!['r', 'e', 'm', 'o', 't', 'e'] =~= "remote"@);
}

/// Where the lead shows a non-blank budget, the proposal and the email both
/// quote it in the sentence " I see the posted budget is <budget>, and I can
/// work within that."; where it shows none (or a blank one) and the profile has
/// a rate, both carry the rate sentence instead.
pub proof fn law_outreach_quotes_budget(f: OutreachFields, lead: Lead, profile: Profile)
    requires
        fields_valid(f, lead, profile),
    ensures
        lead.budget matches Some(b) ==> (trim(b@).len() > 0 ==> {
            let line = " I see the posted budget is "@ + b@ + ", and I can work within that."@;
            f.budget_line@ == line && contains(proposal_body(f), line) && contains(
                email_body(f),
                line,
            )
        }),
        (lead.budget is None || (lead.budget matches Some(b) && trim(b@).len() == 0))
            && or_empty(profile.rate).len() == 0 ==> f.budget_line@.len() == 0,
        (lead.budget is None || (lead.budget matches Some(b) && trim(b@).len() == 0)) && (
        profile.rate matches Some(rate) && rate@.len() > 0) ==> {
            let line = " My usual rate is "@ + or_empty(profile.rate)
                + " and I am happy to align it with your budget."@;
            f.budget_line@ == line && contains(proposal_body(f), line) && contains(
                email_body(f),
                line,
            )
        },
{
    let line = f.budget_line@;
    let p_head = "Hi "@ + f.client@ + ",\n\nI'm "@ + f.name@ + ", a "@ + f.title@
        + " with experience in "@ + f.skills@ + ". I read your posting for \""@ + f.job@
        + "\" and it is a strong match for what I do best."@;
    let p_tail = "\n\nHere is how I'd approach it:\n- A clear plan and timeline up front\n- Open communication and regular progress updates\n- A focus on clean, maintainable, on-time delivery\n\nI'd love to jump on a quick call to confirm the scope. My portfolio: "@
        + f.portfolio@ + ". Looking forward to working with you!\n\nBest regards,\n"@ + f.name@;
    assert(proposal_body(f) =~= p_head + line + p_tail);
    lemma_contains_middle(p_head, line, p_tail);
    let e_head = "Dear "@ + f.client@ + ",\n\nI'm applying for the "@ + f.job@ + " role. I am a "@
        + f.title@ + " with "@ + f.experience@ + " working on "@ + f.skills@ + "."@;
    let e_tail = "\n\nI would be glad to share samples of relevant work and to walk through how I'd add value from day one.\n\nHere is how to reach me:\n- Email: "@
        + f.email@ + "\n- Portfolio: "@ + f.portfolio@ + "\n- LinkedIn: "@ + f.linkedin@
        + "\n\nThank you for your time and consideration.\n\nBest regards,\n"@ + f.name@;
    assert(email_body(f) =~= e_head + line + e_tail);
    lemma_contains_middle(e_head, line, e_tail);
}

/// A text contains whatever stands in its middle.
proof fn lemma_contains_middle(a: Seq<char>, m: Seq<char>, b: Seq<char>)
    ensures
        contains(a + m + b, m),
{
    let s = a + m + b;
    assert(s.subrange(a.len() as int, a.len() + m.len() as int) =~= m);
    assert(occurs_at(s, m, a.len() as int));
}

/// A pasted URL is credited to the first of upwork, fiverr, freelancer,
/// indeed, linkedin and facebook (also written "fb.com") that its lower-cased
/// text names, and to "manual" when it names none; a named site is always one
/// the URL mentions. The lead built from it is titled after that source.
pub proof fn law_url_source(url: Seq<char>)
    ensures
        contains(lowercase(url), "upwork"@) ==> source_of_url(url) == "upwork"@,
        !contains(lowercase(url), "upwork"@) && contains(lowercase(url), "fiverr"@)
            ==> source_of_url(url) == "fiverr"@,
        !contains(lowercase(url), "upwork"@) && !contains(lowercase(url), "fiverr"@) && contains(
            lowercase(url),
            "freelancer"@,
        ) ==> source_of_url(url) == "freelancer"@,
        !contains(lowercase(url), "upwork"@) && !contains(lowercase(url), "fiverr"@) && !contains(
            lowercase(url),
            "freelancer"@,
        ) && contains(lowercase(url), "indeed"@) ==> source_of_url(url) == "indeed"@,
        !contains(lowercase(url), "upwork"@) && !contains(lowercase(url), "fiverr"@) && !contains(
            lowercase(url),
            "freelancer"@,
        ) && !contains(lowercase(url), "indeed"@) && contains(lowercase(url), "linkedin"@)
            ==> source_of_url(url) == "linkedin"@,
        !contains(lowercase(url), "upwork"@) && !contains(lowercase(url), "fiverr"@) && !contains(
            lowercase(url),
            "freelancer"@,
        ) && !contains(lowercase(url), "indeed"@) && !contains(lowercase(url), "linkedin"@) && (
        contains(lowercase(url), "facebook"@) || contains(lowercase(url), "fb.com"@))
            ==> source_of_url(url) == "facebook"@,
        !contains(lowercase(url), "upwork"@) && !contains(lowercase(url), "fiverr"@) && !contains(
            lowercase(url),
            "freelancer"@,
        ) && !contains(lowercase(url), "indeed"@) && !contains(lowercase(url), "linkedin"@)
            && !contains(lowercase(url), "facebook"@) && !contains(lowercase(url), "fb.com"@)
            ==> source_of_url(url) == "manual"@,
        source_of_url(url) != "manual"@ && source_of_url(url) != "facebook"@ ==> contains(
            lowercase(url),
            source_of_url(url),
        ),
        source_of_url(url) == "fiverr"@ ==> source_display_name(source_of_url(url)) == "Fiverr"@,
        source_of_url(url) == "upwork"@ ==> source_display_name(source_of_url(url)) == "Upwork"@,
        source_of_url(url) == "freelancer"@ ==> source_display_name(source_of_url(url))
            == "Freelancer"@,
{
    reveal_strlit("upwork");
    reveal_strlit("fiverr");
    reveal_strlit("freelancer");
    reveal_strlit("indeed");
    reveal_strlit("linkedin");
    reveal_strlit("facebook");
    reveal_strlit("manual");
    assert("upwork"@ != "fiverr"@) by {
        assert("upwork"@[0] != "fiverr"@[0]);
    }
    assert("manual"@ != "fiverr"@) by {
        assert("manual"@[0] != "fiverr"@[0]);
    }
    assert("manual"@ != "upwork"@) by {
        assert("manual"@[0] != "upwork"@[0]);
    }
    reveal_strlit("facebook.com");
    let u = lowercase(url);
    if contains(u, "facebook.com"@) {
        let i = choose|i: int| occurs_at(u, "facebook.com"@, i);
        assert(u.subrange(i, i + 8) =~= "facebook"@) by {
            assert forall|k: int| 0 <= k < 8 implies u.subrange(i, i + 8)[k] == "facebook"@[k] by {
                assert(u.subrange(i, i + 12)[k] == "facebook.com"@[k]);
            }
        }
        assert(occurs_at(u, "facebook"@, i));
    }
}

} // verus!
