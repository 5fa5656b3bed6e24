use leadgen::scraper::remoteok::{jobs_to_leads as remoteok_leads, RawJob};
use leadgen::scraper::remotive::{jobs_to_leads as remotive_leads, RemotiveJob};

fn raw(position: &str, url: &str) -> RawJob {
    RawJob {
        position: position.into(),
        company: String::new(),
        description: String::new(),
        location: String::new(),
        url: url.into(),
        apply_url: String::new(),
        date: String::new(),
        tags: vec![],
        salary_min: 0,
        salary_max: 0,
    }
}

#[test]
fn parses_and_skips_meta() {
    // `{"not_a_job": true}` reads as a job with every field empty.
    let meta = raw("", "");
    let job = RawJob {
        position: "React Engineer".into(),
        company: "Acme".into(),
        description: "<p>React &amp; Rust</p>".into(),
        location: "Worldwide".into(),
        url: "https://remoteok.com/j1".into(),
        apply_url: "https://apply".into(),
        date: "2026-08-30T00:00:00+00:00".into(),
        tags: vec!["react".into()],
        salary_min: 90000,
        salary_max: 120000,
    };
    let leads = remoteok_leads(&vec![meta, job]);
    assert_eq!(leads.len(), 1);
    assert_eq!(leads[0].source, "remoteok");
    assert_eq!(leads[0].url, "https://apply");
    assert_eq!(leads[0].client_name.as_deref(), Some("Acme"));
    assert_eq!(leads[0].budget.as_deref(), Some("$90000-$120000"));
    assert_eq!(leads[0].currency.as_deref(), Some("USD"));
}

#[test]
fn empty_position_skipped() {
    assert!(remoteok_leads(&vec![raw("", "https://x")]).is_empty());
}

#[test]
fn remoteok_defaults() {
    let mut j = raw(" Dev ", "https://l");
    j.salary_max = 5000;
    let leads = remoteok_leads(&vec![j, raw("No link", "  ")]);
    assert_eq!(leads.len(), 1);
    assert_eq!(leads[0].title, "Dev");
    assert_eq!(leads[0].url, "https://l");
    assert_eq!(leads[0].budget.as_deref(), Some("$?-$5000"));
    assert_eq!(leads[0].budget_min, None);
    assert_eq!(leads[0].budget_max, Some(5000));
    assert_eq!(leads[0].location.as_deref(), Some("Remote"));
    assert_eq!(leads[0].description, "Sourced from RemoteOK. Apply at: https://l");
    assert_eq!(leads[0].technologies, None);
}

fn remotive(url: &str, title: &str) -> RemotiveJob {
    RemotiveJob {
        url: url.into(),
        title: title.into(),
        company_name: String::new(),
        candidate_required_location: String::new(),
        salary: String::new(),
        publication_date: String::new(),
        description: String::new(),
        tags: vec![],
    }
}

#[test]
fn parses_jobs_json() {
    let job = RemotiveJob {
        url: "https://remotive.com/jobs/1".into(),
        title: "React Engineer".into(),
        company_name: "Acme".into(),
        candidate_required_location: "Remote".into(),
        salary: "$80k".into(),
        publication_date: "2026-08-01T00:00:00".into(),
        description: "<p>Build React apps &amp; Rust</p>".into(),
        tags: vec!["react".into(), "rust".into()],
    };
    let leads = remotive_leads(&vec![job]);
    assert_eq!(leads.len(), 1);
    assert_eq!(leads[0].source, "remotive");
    assert_eq!(leads[0].title, "React Engineer");
    assert_eq!(leads[0].client_name.as_deref(), Some("Acme"));
    assert_eq!(leads[0].technologies.as_deref(), Some("react, rust"));
    assert_eq!(leads[0].budget.as_deref(), Some("$80k"));
    assert!(leads[0].description.contains("Build React apps"));
    assert!(!leads[0].description.contains('<'));
}

#[test]
fn skips_empty_jobs() {
    assert!(remotive_leads(&vec![remotive("", "")]).is_empty());
}

#[test]
fn remotive_blank_fields_are_absent() {
    let leads = remotive_leads(&vec![remotive("https://r", "  T  "), remotive("https://s", "  ")]);
    assert_eq!(leads.len(), 1);
    assert_eq!(leads[0].title, "T");
    assert_eq!(leads[0].budget, None);
    assert_eq!(leads[0].location, None);
    assert_eq!(leads[0].client_name, None);
    assert_eq!(leads[0].posted_date, None);
    assert_eq!(leads[0].technologies, None);
}
