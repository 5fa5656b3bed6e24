use leadgen::json::JsonValue;
use leadgen::models::BudgetParts;
use leadgen::scraper::freelancer::{
    currency_name, keyword_from_title, project_to_lead, projects_to_leads, response_projects,
    response_projects_of,
};

fn json(text: &str) -> JsonValue {
    fn conv(v: &serde_json::Value) -> JsonValue {
        match v {
            serde_json::Value::Null => JsonValue::Null,
            serde_json::Value::Bool(b) => JsonValue::Bool(*b),
            serde_json::Value::Number(n) => JsonValue::Number(n.to_string(), n.as_i64()),
            serde_json::Value::String(s) => JsonValue::Text(s.clone()),
            serde_json::Value::Array(a) => JsonValue::Array(a.iter().map(conv).collect()),
            serde_json::Value::Object(m) => {
                JsonValue::Object(m.iter().map(|(k, v)| (k.clone(), conv(v))).collect())
            }
        }
    }
    conv(&serde_json::from_str(text).unwrap())
}

#[test]
fn currency_codes_are_named() {
    assert_eq!(currency_name("US"), "USD");
    assert_eq!(currency_name("USD"), "USD");
    assert_eq!(currency_name("AU"), "AUD");
    assert_eq!(currency_name("IN"), "INR");
    assert_eq!(currency_name("JPY"), "JPY");
}

#[test]
fn title_keywords_skip_short_and_need() {
    assert_eq!(keyword_from_title("Need a React dev for an API, now!"), "React, dev, for, API");
    assert_eq!(keyword_from_title("a b"), "");
}

#[test]
fn projects_become_leads() {
    let data = json(
        r#"{"projects":{"123":{"title":" Build site ","description":"<b>HTML</b> work","job_url":"build-site",
          "budget":{"minimum":100,"maximum":250,"currency":"AU"},
          "owner":{"username":"jane_doe","country":{"name":"Australia"}},
          "skills":[{"name":"HTML"},{"name":"CSS"}],"time_submitted":0}}}"#,
    );
    let projects = response_projects(&data);
    assert_eq!(projects.len(), 1);
    let p = &projects[0];
    assert_eq!(p.id, "123");
    assert_eq!(p.budget_min.as_deref(), Some("100"));
    assert_eq!(p.budget_max.as_deref(), Some("250"));
    assert_eq!(p.timestamp, Some(0));
    let budget = BudgetParts {
        budget: Some("$100 - $250".into()),
        budget_min: Some(100),
        budget_max: Some(250),
    };
    let leads = projects_to_leads(&projects, &vec![budget]);
    let l = &leads[0];
    assert_eq!(l.source, "freelancer");
    assert_eq!(l.title, "Build site");
    assert_eq!(l.description, "HTML  work");
    assert_eq!(l.url, "https://www.freelancer.com/projects/build-site-123");
    assert_eq!(l.currency.as_deref(), Some("AUD"));
    assert_eq!(l.location.as_deref(), Some("Australia"));
    assert_eq!(l.technologies.as_deref(), Some("HTML, CSS"));
    assert_eq!(l.client_name.as_deref(), Some("jane doe"));
    assert_eq!(l.posted_date.as_deref(), Some("1970-01-01 00:00"));
    assert_eq!(l.budget.as_deref(), Some("$100 - $250"));
}

#[test]
fn project_defaults() {
    let data = json(r#"{"projects":{"9":{"skills":[]}}}"#);
    let projects = response_projects(&data);
    let none = BudgetParts { budget: None, budget_min: None, budget_max: None };
    let l = project_to_lead(&projects[0], &none);
    assert_eq!(l.title, "Untitled project");
    assert_eq!(l.description, "");
    assert_eq!(l.url, "https://www.freelancer.com/projects/-9");
    assert_eq!(l.currency.as_deref(), Some("USD"));
    assert_eq!(l.technologies.as_deref(), Some("Untitled, project"));
    assert_eq!(l.posted_date, None);
    assert!(response_projects(&json(r#"{"projects":[]}"#)).is_empty());
}

#[test]
fn response_text_is_decoded() {
    let body = r#"{"projects":{"7":{"title":"A","budget":{"minimum":5}},"8":{"title":"B"}}}"#;
    let projects = match response_projects_of(body) {
        Ok(p) => p,
        Err(e) => panic!("unexpected error: {}", e),
    };
    assert_eq!(projects.len(), 2);
    assert_eq!(projects[0].id, "7");
    assert_eq!(projects[0].budget_min.as_deref(), Some("5"));
    assert_eq!(projects[1].id, "8");
    assert!(matches!(response_projects_of(r#"{"result":{}}"#), Ok(v) if v.is_empty()));
    let err = match response_projects_of("not json") {
        Ok(_) => panic!("expected an error"),
        Err(e) => e,
    };
    assert!(err.starts_with("json parse: "));
    assert!(err.len() > "json parse: ".len());
}
