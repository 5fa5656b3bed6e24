use leadgen::models::NewLead;
use leadgen::scraper::indeed::{guess_company, guess_location, keyword_clean};
use leadgen::scraper::upwork::extract_meta;
use leadgen::scraper::matches_keyword;
use leadgen::scraper::weworkremotely::client_name;

#[test]
fn parses_indeed_rss_items() {
    let rss = r#"<?xml version="1.0" encoding="UTF-8"?>
<rss version="2.0">
<channel>
  <item>
    <title>Fullstack Engineer - Acme Corp - New York, NY</title>
    <link>https://www.indeed.com/viewjob?jk=abc123</link>
    <description>Acme Corp is hiring a fullstack engineer. Remote OK.</description>
  </item>
</channel>
</rss>"#;
    let leads = leadgen::scraper::indeed::parse(rss, "react").unwrap();
    assert_eq!(leads.len(), 1);
    assert_eq!(leads[0].source, "indeed");
    assert_eq!(leads[0].client_name.as_deref(), Some("Acme Corp"));
    assert!(leads[0].technologies.as_deref().unwrap().contains("react"));
    assert!(leads[0].url.contains("viewjob"));
}

#[test]
fn empty_feed_returns_empty() {
    let rss = r#"<rss><channel></channel></rss>"#;
    assert!(leadgen::scraper::indeed::parse(rss, "rust").unwrap().is_empty());
}

#[test]
fn detects_remote_and_company() {
    assert!(guess_location("Remote - anywhere").unwrap().contains("Remote"));
    assert_eq!(guess_company("Engineer - Big Tech Co - Austin, TX").unwrap(), "Big Tech Co");
}

#[test]
fn splits_company_role() {
    let t = "Acme Inc: Senior Rust Engineer";
    let (c, r) = client_name(t).unwrap();
    assert_eq!(c, "Acme Inc");
    assert_eq!(r, "Senior Rust Engineer");
    assert!(client_name("no separator here").is_none());
}

#[test]
fn parses_rss() {
    let body = r#"<?xml version="1.0" encoding="UTF-8"?>
<rss version="2.0"><channel><title>jobs</title>
<item>
<title>Acme Corp: React Developer</title>
<link>https://weworkremotely.com/remote-jobs/react</link>
<pubDate>Wed, 12 Aug 2026 18:38:32 +0000</pubDate>
<description><![CDATA[<p>Some <b>HTML</b> &amp; text</p>]]></description>
</item>
</channel></rss>"#;
    let leads = leadgen::scraper::weworkremotely::parse(body).unwrap();
    assert_eq!(leads.len(), 1);
    assert_eq!(leads[0].source, "weworkremotely");
    assert_eq!(leads[0].title, "React Developer");
    assert_eq!(leads[0].client_name.as_deref(), Some("Acme Corp"));
    assert!(leads[0].description.contains("HTML"));
    assert!(!leads[0].description.contains('<'));
    assert_eq!(leads[0].url, "https://weworkremotely.com/remote-jobs/react");
}

#[test]
fn keyword_filters() {
    let lead = NewLead {
        source: "weworkremotely".into(),
        title: "React Developer".into(),
        description: String::new(),
        url: "https://x".into(),
        budget: None,
        budget_min: None,
        budget_max: None,
        currency: None,
        location: None,
        technologies: Some("typescript".into()),
        client_name: None,
        posted_date: None,
    };
    assert!(matches_keyword(&lead, "react"));
    assert!(matches_keyword(&lead, "React TypeScript"));
    assert!(!matches_keyword(&lead, "golang"));
}

#[test]
fn blank_keyword_matches_everything() {
    let lead = NewLead {
        source: "x".into(),
        title: "t".into(),
        description: String::new(),
        url: "u".into(),
        budget: None,
        budget_min: None,
        budget_max: None,
        currency: None,
        location: None,
        technologies: None,
        client_name: None,
        posted_date: None,
    };
    assert!(matches_keyword(&lead, "   "));
    assert!(matches_keyword(&lead, "(t)"));
    assert!(!matches_keyword(&lead, "t z"));
}

#[test]
fn wwr_titles_without_company_stay_whole() {
    assert!(client_name(": role").is_none());
    assert!(client_name("Co: ").is_none());
    let (c, r) = client_name("A: B: C").unwrap();
    assert_eq!((c.as_str(), r.as_str()), ("A", "B: C"));
}

#[test]
fn unreadable_feed_is_an_error() {
    assert!(leadgen::scraper::weworkremotely::parse("not a feed").is_err());
    assert!(leadgen::scraper::indeed::parse("not a feed", "x").is_err());
    assert!(leadgen::scraper::upwork::parse("not a feed").is_err());
}

#[test]
fn indeed_keywords_skip_the_keyword_itself() {
    assert_eq!(keyword_clean(" React ", "React developer (remote)"), "React, developer, remote");
    assert_eq!(keyword_clean("", "a b"), "a, b");
}

#[test]
fn strip_html_decodes_and_collapses() {
    assert_eq!(
        leadgen::scraper::strip_html("<p>A&amp;B</p>\n<br>  c&nbsp;d"),
        "A&B c d"
    );
}

#[test]
fn upwork_meta_from_title_then_description() {
    assert_eq!(
        extract_meta("Site (Budget: $500, Location: USA)", ""),
        (Some("$500".to_string()), Some("USA".to_string()))
    );
    assert_eq!(
        extract_meta("Site", "Budget: 1,200 USD. Posted today"),
        (Some("1,200 USD. Posted today".to_string()), None)
    );
    assert_eq!(
        extract_meta("Site", "budget $300..."),
        (Some("300".to_string()), None)
    );
    assert_eq!(extract_meta("Site (no meta)", "nothing here"), (None, None));
}

#[test]
fn upwork_feed_items_become_leads() {
    let body = r#"<?xml version="1.0" encoding="UTF-8"?>
<rss version="2.0"><channel><title>jobs</title>
<item>
<title>Build a React dashboard (Budget: $800, Location: Canada)</title>
<link>https://www.upwork.com/jobs/~1</link>
<description>&lt;b&gt;Need&lt;/b&gt; a dashboard &amp; API</description>
<category>React</category>
<category>Admin Support</category>
<category>REST API</category>
</item>
<item><title>  </title><link>https://x</link></item>
</channel></rss>"#;
    let leads = leadgen::scraper::upwork::parse(body).unwrap();
    assert_eq!(leads.len(), 1);
    let l = &leads[0];
    assert_eq!(l.source, "upwork");
    assert_eq!(l.budget.as_deref(), Some("$800"));
    assert_eq!(l.location.as_deref(), Some("Canada"));
    assert_eq!(l.technologies.as_deref(), Some("React, REST API"));
    assert_eq!(l.description, "Need a dashboard & API");
    assert_eq!(l.client_name, None);
    assert!(leadgen::scraper::upwork::keyword_relevant("Smart Contract dev"));
    assert!(!leadgen::scraper::upwork::keyword_relevant("Bookkeeping"));
}

#[test]
fn indeed_descriptions_drop_entities() {
    assert_eq!(
        leadgen::scraper::indeed::strip_html("<p>Tom &amp; Jerry&#39;s &quot;shop&quot;</p>&nbsp;hiring"),
        "Tom Jerrys shop hiring"
    );
}
