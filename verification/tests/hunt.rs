use leadgen::clock::Clock;
use leadgen::hunt::{
    display_source, generate_outreach, guess_source, lead_from_url, linkedin_auth_url,
    matched_skill_count, member_setting_writes, profile_setting_writes, rate_hint,
    score_lead_against_profile, score_now, skill_substring, skills_from_setting, token_grant, token_writes,
    Profile,
};
use leadgen::json::JsonValue;
use leadgen::models::Lead;

fn profile() -> Profile {
    Profile {
        name: Some("Aarav".into()),
        title: Some("Full-Stack Developer".into()),
        email: Some("aarav@example.com".into()),
        location: Some("Remote".into()),
        rate: Some("$50/hr".into()),
        skills: vec!["React".into(), "Rust".into(), "Python".into()],
        experience: Some("5+".into()),
        availability: Some("Full-time".into()),
        bio: Some("I build products.".into()),
        portfolio: Some("example.com".into()),
        linkedin: Some("linkedin.com/in/aarav".into()),
        github: Some("github.com/aarav".into()),
    }
}

fn lead() -> Lead {
    Lead {
        id: 1,
        source: "indeed".into(),
        title: "Senior React Engineer".into(),
        description: "Build front-end features with React and TypeScript.".into(),
        url: "https://indeed.com/viewjob?jk=1".into(),
        budget: Some("$120k".into()),
        budget_min: None,
        budget_max: None,
        currency: Some("USD".into()),
        location: Some("Remote".into()),
        technologies: Some("React, TypeScript".into()),
        client_name: Some("Acme".into()),
        posted_date: None,
        status: "new".into(),
        score: 0,
        notes: None,
        created_at: "2026-08-31".into(),
    }
}

/// The skills share of the fit, as the service computes it.
fn skill_points(l: &Lead, p: &Profile) -> i64 {
    if p.skills.is_empty() {
        return 0;
    }
    let m = matched_skill_count(l, p);
    (m as f64 / p.skills.len() as f64 * 45.0).round() as i64
}

fn score(score: i64, l: &Lead, p: &Profile) -> i64 {
    score_now(score, l, p, skill_points(l, p))
}

#[test]
fn scores_skills_overlap() {
    let p = profile();
    let l = lead();
    let s = score(0, &l, &p);
    // React (1 of 3 skills) + Remote should score above zero and below max.
    assert!(s > 20, "expected decent score, got {}", s);
    assert!(s <= 100);
}

#[test]
fn full_skill_match_scores_high() {
    let p = profile();
    let l = Lead {
        title: "Full stack role: React + Rust + Python".into(),
        description: "Prefer someone strong in React front-end, Rust services and Python tooling.".into(),
        technologies: Some("React, Rust, Python".into()),
        ..lead()
    };
    let s = score(0, &l, &p);
    assert!(s >= 50, "expected high score, got {}", s);
}

#[test]
fn unrelated_lead_scores_low() {
    let p = profile();
    let l = Lead {
        title: "Accountant for taxes".into(),
        description: "Bookkeeping, QuickBooks, compliance.".into(),
        technologies: Some("Excel".into()),
        ..lead()
    };
    let s = score(0, &l, &p);
    assert!(s < 15, "expected low score, got {}", s);
}

#[test]
fn generates_outreach_with_profile() {
    let p = profile();
    let l = lead();
    let drafts = generate_outreach(&l, &p);
    assert_eq!(drafts.len(), 3);
    let email_subject = drafts.iter().find(|d| d.medium == "email").unwrap();
    assert!(email_subject.subject.as_deref().unwrap().contains(&l.title));
    assert!(email_subject.body.contains("Aarav"));
    assert!(email_subject.body.contains("React"));
    assert!(email_subject.body.contains("Acme"));
}

#[test]
fn builds_linkedin_auth_url() {
    let url = linkedin_auth_url("cid", "http://localhost:5173/callback", "state123", "openid profile email");
    assert!(url.contains("response_type=code"));
    assert!(url.contains("client_id=cid"));
    assert!(url.contains("redirect_uri=http%3A%2F%2Flocalhost%3A5173%2Fcallback"));
    assert!(url.contains("state=state123"));
}

#[test]
fn guesses_sources_and_builds_manual_lead() {
    assert_eq!(guess_source("https://www.upwork.com/jobs/~x"), "upwork");
    assert_eq!(guess_source("https://www.facebook.com/groups/123"), "facebook");
    assert_eq!(guess_source("https://www.indeed.com/viewjob?jk=9"), "indeed");
    let l = lead_from_url("https://www.linkedin.com/jobs/view/123");
    assert_eq!(l.source, "linkedin");
    assert!(l.url.contains("linkedin"));
}

#[test]
fn profile_roundtrip() {
    let p = profile();
    let writes = profile_setting_writes(&p);
    let get = |k: &str| writes.iter().find(|(key, _)| key == k).map(|(_, v)| v.clone());
    assert_eq!(get("profile.name").as_deref(), Some("Aarav"));
    assert_eq!(skills_from_setting(&get("profile.skills")), vec!["React", "Rust", "Python"]);
    assert_eq!(get("profile.rate").as_deref(), Some("$50/hr"));
}

#[test]
fn fit_score_exact_values() {
    let p = profile();
    let now = Clock { secs: 0, nanos: 0, day: 738_000 };
    // Base 10, skills 15, remote 10.
    assert_eq!(score_lead_against_profile(10, &lead(), &p, 15, &now), 35);
    // Clamped at both ends.
    assert_eq!(score_lead_against_profile(95, &lead(), &p, 45, &now), 100);
    let far = Lead { location: Some("Berlin".into()), ..lead() };
    assert_eq!(score_lead_against_profile(-50, &far, &p, 0, &now), 0);
    // An exact location match counts like remote.
    let here = Lead { location: Some("Remote-first, Berlin".into()), ..lead() };
    assert_eq!(score_lead_against_profile(0, &here, &p, 0, &now), 10);
}

#[test]
fn skill_matching_uses_stems() {
    let chars = |t: &str| t.chars().collect::<Vec<char>>();
    assert!(skill_substring(&chars("react.js"), &chars("we use reactjs daily")));
    assert!(!skill_substring(&chars("react.js"), &chars("we use react daily")));
    assert!(!skill_substring(&chars("c"), &chars("c code")));
    let l = lead();
    assert_eq!(matched_skill_count(&l, &profile()), 1);
}

#[test]
fn rate_hint_mentions_rate() {
    assert_eq!(
        rate_hint("$50/hr"),
        " My usual rate is $50/hr and I am happy to align it with your budget."
    );
    assert_eq!(rate_hint(""), "");
}

#[test]
fn display_names_for_sources() {
    assert_eq!(display_source("upwork"), "Upwork");
    assert_eq!(display_source("indeed"), "Job");
    assert_eq!(display_source("other"), "Lead");
    assert_eq!(guess_source("https://fb.com/x"), "facebook");
    assert_eq!(guess_source("https://example.com"), "manual");
    let l = lead_from_url("  https://www.upwork.com/jobs/~1  ");
    assert_eq!(l.url, "https://www.upwork.com/jobs/~1");
    assert!(l.title.starts_with("Upwork opportunity"));
}

#[test]
fn linkedin_token_is_read_and_saved() {
    let body = JsonValue::Object(vec![
        ("access_token".into(), JsonValue::Text("tok".into())),
        ("expires_in".into(), JsonValue::Number("3600".into(), Some(3600))),
    ]);
    let (t, e) = token_grant(&body).unwrap();
    assert_eq!(t, "tok");
    assert_eq!(e, 3600);
    assert_eq!(
        token_writes(&t, e),
        vec![
            ("linkedin.access_token".to_string(), "tok".to_string()),
            ("linkedin.expires_at".to_string(), "3600".to_string()),
        ]
    );
    let missing = JsonValue::Object(vec![]);
    assert_eq!(token_grant(&missing).err().as_deref(), Some("no access_token in response"));
    let no_expiry = JsonValue::Object(vec![("access_token".into(), JsonValue::Text("t".into()))]);
    assert_eq!(token_grant(&no_expiry).unwrap().1, 0);
    let info = JsonValue::Object(vec![
        ("sub".into(), JsonValue::Text("abc".into())),
        ("name".into(), JsonValue::Text("Aarav".into())),
    ]);
    assert_eq!(
        member_setting_writes(&info),
        vec![
            ("linkedin.member_id".to_string(), "abc".to_string()),
            ("linkedin.member_name".to_string(), "Aarav".to_string()),
        ]
    );
}

#[test]
fn more_overlap_never_lowers_fit() {
    let p = profile();
    let now = Clock { secs: 0, nanos: 0, day: 738_000 };
    let narrow = lead();
    let wide = Lead { description: "React, Rust and Python services.".into(), ..lead() };
    let n1 = matched_skill_count(&narrow, &p);
    let n2 = matched_skill_count(&wide, &p);
    assert_eq!((n1, n2), (1, 3));
    let a = score_lead_against_profile(20, &narrow, &p, skill_points(&narrow, &p), &now);
    let b = score_lead_against_profile(20, &wide, &p, skill_points(&wide, &p), &now);
    assert_eq!((a, b), (45, 75));
    assert!(score_lead_against_profile(21, &narrow, &p, 15, &now) >= a);
}
