use leadgen::models::NewLead;
use leadgen::scraper::dedupe_truncate;
use leadgen::scraper::sources::{
    fiverr_search_url, freelancer_search_url, indeed_feed_url, remotive_search_url,
    upwork_feed_url,
};
use leadgen::scraper::run::{
    auto_pull_due, auto_pull_interval, auto_pull_sources, leads_to_store, pause_millis,
    queue_decision, random_pause_millis, random_user_agent, scrape_plan, source_kind, user_agent,
    unknown_source_error, InsertOutcome, ScrapeTally, SourceKind,
};

fn s(v: &[&str]) -> Vec<String> {
    v.iter().map(|x| x.to_string()).collect()
}

#[test]
fn plan_pairs_sources_with_keywords() {
    let plan = scrape_plan(&s(&[" Upwork ", "", "fiverr.com", "mystery"]), &s(&["react", " React", "rust"]));
    let got: Vec<(String, String, bool)> = plan
        .iter()
        .map(|j| (j.source.clone(), j.keyword.clone(), j.kind.is_some()))
        .collect();
    assert_eq!(
        got,
        vec![
            ("upwork".to_string(), "react".to_string(), true),
            ("upwork".to_string(), "rust".to_string(), true),
            ("fiverr.com".to_string(), "react".to_string(), true),
            ("fiverr.com".to_string(), "rust".to_string(), true),
            ("mystery".to_string(), "react".to_string(), false),
            ("mystery".to_string(), "rust".to_string(), false),
        ]
    );
    assert!(matches!(plan[2].kind, Some(SourceKind::Fiverr)));
}

#[test]
fn sources_select_collectors() {
    assert!(matches!(source_kind("weworkremotely.com"), Some(SourceKind::WeWorkRemotely)));
    assert!(matches!(source_kind("remoteok"), Some(SourceKind::RemoteOk)));
    assert!(matches!(source_kind("indeed"), Some(SourceKind::Indeed)));
    assert!(source_kind("Upwork").is_none());
    assert_eq!(unknown_source_error("x"), "unknown source: x");
}

#[test]
fn keywords_are_deduplicated_and_capped() {
    let many: Vec<String> = (0..30).map(|i| format!("k{}", i)).collect();
    assert_eq!(dedupe_truncate(&many, 20).len(), 20);
    assert_eq!(dedupe_truncate(&s(&["A", " a ", "b"]), 20), s(&["A", "b"]));
}

#[test]
fn tally_records_outcomes() {
    let mut t = ScrapeTally::new();
    t.record_found(3);
    assert!(t.record_insert(InsertOutcome::Inserted));
    assert!(!t.record_insert(InsertOutcome::Duplicate));
    assert!(!t.record_insert(InsertOutcome::Failed("disk full".into())));
    let plan = scrape_plan(&s(&["upwork"]), &s(&["rust"]));
    t.record_fetch_error(&plan[0], "status 403");
    let r = t.finish();
    assert_eq!(r.inserted, 1);
    assert_eq!(r.total_found, 3);
    assert_eq!(r.errors, s(&["db error: disk full", "[upwork / rust] status 403"]));
}

fn lead(n: usize) -> NewLead {
    NewLead {
        source: "x".into(),
        title: format!("t{}", n),
        description: String::new(),
        url: format!("u{}", n),
        budget: None,
        budget_min: None,
        budget_max: None,
        currency: None,
        location: None,
        technologies: None,
        client_name: None,
        posted_date: None,
    }
}

#[test]
fn leads_are_capped_per_fetch() {
    let leads: Vec<NewLead> = (0..5).map(lead).collect();
    let kept = leads_to_store(leads, 2);
    assert_eq!(kept.len(), 2);
    assert_eq!(kept[1].title, "t1");
    assert_eq!(leads_to_store((0..2).map(lead).collect(), 10).len(), 2);
}

#[test]
fn queue_and_rescore_decisions() {
    assert_eq!(queue_decision(10, 75, 70), (true, true));
    assert_eq!(queue_decision(75, 75, 80), (false, false));
    assert_eq!(queue_decision(0, 70, 70), (true, true));
}

#[test]
fn background_pull_rules() {
    assert_eq!(auto_pull_sources(), s(&["remotive", "weworkremotely", "remoteok"]));
    assert!(auto_pull_due(true, &s(&["rust"])));
    assert!(!auto_pull_due(true, &vec![]));
    assert!(!auto_pull_due(false, &s(&["rust"])));
    assert_eq!(auto_pull_interval(3), 10);
    assert_eq!(auto_pull_interval(45), 45);
}

#[test]
fn politeness_draws() {
    assert_eq!(pause_millis(0), 1000);
    assert_eq!(pause_millis(1499), 2499);
    assert_eq!(pause_millis(1500), 1000);
    let p = random_pause_millis();
    assert!((1000..2500).contains(&p));
    assert!(user_agent(1).contains("Macintosh"));
    assert_eq!(user_agent(5), user_agent(1));
    assert!(random_user_agent().starts_with("Mozilla/5.0"));
}

#[test]
fn whole_feed_is_filtered_by_keyword() {
    let mut a = lead(1);
    a.title = "Senior Rust engineer".into();
    let mut b = lead(2);
    b.title = "Go developer".into();
    let mut c = lead(3);
    c.technologies = Some("rust, wasm".into());
    let kept = leadgen::scraper::sources::keep_matching(&vec![a, b, c], "RUST");
    let titles: Vec<&str> = kept.iter().map(|l| l.title.as_str()).collect();
    assert_eq!(titles, vec!["Senior Rust engineer", "t3"]);
    assert_eq!(leadgen::scraper::sources::keep_matching(&vec![lead(9)], " ").len(), 1);
}

#[test]
fn source_links_encode_the_keyword() {
    assert_eq!(
        remotive_search_url("web dev"),
        "https://remotive.com/api/remote-jobs?search=web%20dev"
    );
    assert_eq!(fiverr_search_url("c++"), "https://www.fiverr.com/search/gigs?query=c%2B%2B");
    assert_eq!(
        freelancer_search_url("rust"),
        "https://www.freelancer.com/ajax/search/projects.php?query=rust&limit=30&offset=0&state=all"
    );
    assert_eq!(indeed_feed_url("rust", Some("  ")), "https://www.indeed.com/rss?q=rust");
    assert_eq!(
        indeed_feed_url("rust", Some(" New York ")),
        "https://www.indeed.com/rss?q=rust&l=New%20York"
    );
    assert!(upwork_feed_url("ai").starts_with("https://www.upwork.com/ab/feed/jobs/rss?keywords=ai&sort=recency"));
}
