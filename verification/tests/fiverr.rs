use leadgen::json::JsonValue;
use leadgen::models::{BudgetParts, NewLead};
use leadgen::scraper::fiverr::{
    build_gig_url, extract_next_data, gig_fields, gig_tags_text, gig_to_lead, gigs_to_leads,
    keyword_clean, leads_or_fallback, next_data_gigs, payload_gigs, regex_fallback, GigFields,
    PriceSource,
};

/// Reads a JSON document into the library's JSON value (as the service does).
fn json(text: &str) -> JsonValue {
    fn conv(v: &serde_json::Value) -> JsonValue {
        match v {
            serde_json::Value::Null => JsonValue::Null,
            serde_json::Value::Bool(b) => JsonValue::Bool(*b),
            serde_json::Value::Number(n) => JsonValue::Number(n.to_string(), n.as_i64()),
            serde_json::Value::String(s) => JsonValue::Text(s.clone()),
            serde_json::Value::Array(a) => JsonValue::Array(a.iter().map(conv).collect()),
            serde_json::Value::Object(m) => {
                JsonValue::Object(m.iter().map(|(k, v)| (k.clone(), conv(v))).collect())
            }
        }
    }
    conv(&serde_json::from_str(text).unwrap())
}

/// The starting price as the service formats it.
fn price(p: &Option<PriceSource>) -> BudgetParts {
    let v = match p {
        Some(PriceSource::Number(t)) => t.parse::<f64>().unwrap_or(0.0),
        Some(PriceSource::Text(s)) => s.replace(',', "").parse::<f64>().unwrap_or(0.0),
        _ => 0.0,
    };
    if v > 0.0 && p.is_some() {
        BudgetParts {
            budget: Some(format!("Starting at ${:.0}", v)),
            budget_min: Some(v.round() as i64),
            budget_max: Some(v.round() as i64),
        }
    } else {
        BudgetParts { budget: None, budget_min: None, budget_max: None }
    }
}

/// The page's leads, as the service reads them.
fn parse(body: &str) -> Vec<NewLead> {
    let gigs = payload_gigs(body);
    let prices: Vec<BudgetParts> = gigs.iter().map(|g| price(&g.price)).collect();
    leads_or_fallback(gigs_to_leads(&gigs, &prices), body)
}

#[test]
fn next_data_extracts_and_parses_gigs() {
    let html = r##"
<html><body>
<script id="__NEXT_DATA__" type="application/json">
{"props":{"pageProps":{"searchResults":[
  {"title":"I will build a python web scraper","seller":{"username":"techfreelancer99"},
   "slug":"build-a-python-web-scraper","tags":[{"name":"web scraping"},{"name":"python"}],
   "startingPrice":30,"description":"<b>Custom</b> data extraction"},
  {"title":"I will write a rust api","username":"rusted_dev","gigSlug":"write-a-rust-api",
   "tags":["rust","backend"],"price":"50","description":"production ready rust"}
]}}}
</script>
</body></html>
"##;
    let leads = parse(html);
    assert_eq!(leads.len(), 2);
    assert_eq!(leads[0].source, "fiverr");
    assert!(leads[0].url.contains("techfreelancer99"));
    assert!(leads[0].url.contains("build-a-python-web-scraper"));
    assert!(leads[0].budget.as_deref().unwrap_or("").contains("$30"));
    assert!(leads[0].technologies.as_deref().unwrap_or("").contains("python"));
    assert!(!leads[0].description.contains("<b>"));
    assert_eq!(leads[1].budget_min, Some(50));
}

#[test]
fn falls_back_to_regex_when_no_next_data() {
    let html = r#"id="__IGNORED__">x</script><div>{"title":"Some gig title","description":"desc here","url":"/seller/some-gig-slug"}</div>"#;
    let leads = parse(html);
    // Either path may yield results; ensure we never error on a plain page.
    assert!(leads.iter().all(|l| l.source == "fiverr"));
}

#[test]
fn build_url_from_username_and_slug() {
    assert_eq!(
        build_gig_url(Some("alice"), Some("/logo-design"), "Logo design"),
        "https://www.fiverr.com/alice/logo-design"
    );
    assert_eq!(
        build_gig_url(Some("@bob"), Some("slug-with-query?x=1"), "t"),
        "https://www.fiverr.com/bob/slug-with-query"
    );
}

#[test]
fn empty_input_no_gigs() {
    assert!(parse("<html></html>").is_empty());
}

#[test]
fn gig_links_fall_back_in_order() {
    assert_eq!(build_gig_url(Some("  "), Some("x"), "t"), "https://www.fiverr.com/x");
    assert_eq!(build_gig_url(None, Some("/bob/gig#top"), "t"), "https://www.fiverr.com/bob/gig");
    assert_eq!(
        build_gig_url(None, Some("lonely"), "I will Design a LOGO, fast"),
        "https://www.fiverr.com/q/i-will-design-a-fast/i-will-design-a-fast"
    );
    assert_eq!(build_gig_url(None, None, "!!! ???"), "");
}

#[test]
fn payload_blob_is_cut_at_last_brace() {
    let page = "<script id=\"__NEXT_DATA__\">{\"a\":{\"b\":1}}  \n</script>";
    assert_eq!(extract_next_data(page).as_deref(), Some("{\"a\":{\"b\":1}}"));
    assert_eq!(extract_next_data("no marker {}</script>"), None);
    assert_eq!(extract_next_data("__NEXT_DATA__ {} but no end"), None);
    assert_eq!(extract_next_data("__NEXT_DATA__ nothing"), None);
}

#[test]
fn nested_gig_lists_are_found() {
    let data = json(r#"{"props":{"pageProps":{"other":{"deep":[{"gigTitle":"Nested gig here","url":"/a/b"}]}}}}"#);
    let gigs = next_data_gigs(&data);
    assert_eq!(gigs.len(), 1);
    assert_eq!(gigs[0].title.as_deref(), Some("Nested gig here"));
    let none = json(r#"{"props":{}}"#);
    assert!(next_data_gigs(&none).is_empty());
}

#[test]
fn gig_fields_pick_first_present_member() {
    let g = json(
        r#"{"gigTitle":"T","seller":{"userName":"sam"},"url":"/sam/x","gigDescription":"d","tags":"a, b ,,c","packages":[{"price":12}]}"#,
    );
    let f = gig_fields(&g);
    assert_eq!(f.title.as_deref(), Some("T"));
    assert_eq!(f.username.as_deref(), Some("sam"));
    assert_eq!(f.slug.as_deref(), Some("/sam/x"));
    assert_eq!(f.description.as_deref(), Some("d"));
    assert_eq!(f.tags, vec!["a", "b", "c"]);
    assert!(matches!(f.price, Some(PriceSource::Number(ref t)) if t == "12"));
}

#[test]
fn gig_lead_fields() {
    let f = GigFields {
        title: Some("  I will code a bot  ".into()),
        username: Some("bot_maker".into()),
        slug: Some("code-a-bot".into()),
        description: None,
        tags: vec![],
        price: None,
    };
    let none = BudgetParts { budget: None, budget_min: None, budget_max: None };
    let l = gig_to_lead(&f, &none).unwrap();
    assert_eq!(l.title, "I will code a bot");
    assert_eq!(l.url, "https://www.fiverr.com/bot_maker/code-a-bot");
    assert_eq!(l.client_name.as_deref(), Some("bot maker"));
    assert_eq!(l.description, "Gig found on Fiverr — open the link to see full details.");
    assert_eq!(l.technologies.as_deref(), Some("will, code, bot"));
    assert_eq!(l.currency.as_deref(), Some("USD"));
    let blank = GigFields { title: Some("   ".into()), ..f };
    assert!(gig_to_lead(&blank, &none).is_none());
}

#[test]
fn gig_tags_deduplicate_ignoring_case() {
    let tags = vec!["Rust".to_string(), "rust".to_string(), "API".to_string()];
    assert_eq!(gig_tags_text(&tags, "x").as_deref(), Some("Rust, API"));
    let many: Vec<String> = (1..=8).map(|i| format!("t{}", i)).collect();
    assert_eq!(gig_tags_text(&many, "x").as_deref(), Some("t1, t2, t3, t4, t5, t6"));
    assert_eq!(gig_tags_text(&vec![], "I will iwill do").as_deref(), Some("will"));
    assert_eq!(gig_tags_text(&vec![], "I am ok"), None);
    assert_eq!(
        gig_tags_text(&vec![], "IWILL build REST apis quickly today"),
        Some("build, REST, apis, quickly".to_string())
    );
}

#[test]
fn pattern_scan_builds_leads() {
    let body = r#"{"title":"Logo design pro!","description":"line\nnext \"q\"","url":"/sam/logo"} {"title":"Second gig"}"#;
    let leads = regex_fallback(body);
    assert_eq!(leads.len(), 2);
    assert_eq!(leads[0].title, "Logo design pro!");
    assert_eq!(leads[0].description, "line next \"q\"");
    assert_eq!(leads[0].url, "https://www.fiverr.com/sam/logo");
    assert_eq!(leads[0].technologies.as_deref(), Some("Logo, design, pro"));
    assert_eq!(leads[1].url, "");
    assert_eq!(leads[1].description, "Gig found on Fiverr — open the link to see full details.");
    assert_eq!(keyword_clean("a-b c d e f"), "a, b, c, d");
}

#[test]
fn pattern_scan_keeps_at_most_twenty() {
    let body: String = (0..30).map(|i| format!("{{\"title\":\"Gig number {}\"}}", i)).collect();
    assert_eq!(regex_fallback(&body).len(), 20);
}

#[test]
fn payload_gigs_need_a_decodable_payload() {
    let good = r#"<script id="__NEXT_DATA__" type="application/json">{"props":{"pageProps":{"gigs":[{"title":"I will do a thing","username":"u","slug":"s"}]}}}</script>"#;
    let gigs = payload_gigs(good);
    assert_eq!(gigs.len(), 1);
    assert_eq!(gigs[0].title.as_deref(), Some("I will do a thing"));
    let broken = r#"<script id="__NEXT_DATA__" type="application/json">{"props": nope}</script>"#;
    assert!(extract_next_data(broken).is_some());
    assert_eq!(payload_gigs(broken).len(), 0);
    assert_eq!(payload_gigs("<html></html>").len(), 0);
}
