use leadgen::api::{
    auto_update_writes, bearer_token, complete_manual_lead, deployment_fields, has_contract,
    is_valid_contract_status, is_valid_lead_status, keywords_setting_value, lead_limit,
    linkedin_app_ready, linkedin_setting_writes, login_fields_present, max_per_run_from,
    notes_from_body, oauth_state_text, password_error, prepare_manual_lead, redirect_uri_for,
    scrape_keywords, scrape_sources, setting_present, signed_string, sources_from_setting,
    sources_setting_value, state_accepted, username_error, AutoUpdateSettings, DeployRequest,
    LinkedinSettings,
};
use leadgen::json::JsonValue;
use leadgen::models::{Contract, NewLead};
use leadgen::store::keywords_from_setting;

#[test]
fn username_validation_accepts_good_names() {
    assert_eq!(username_error("alice"), None);
    assert_eq!(username_error("alice123"), None);
    assert_eq!(username_error("a_b-c.d"), None);
    assert_eq!(username_error("  alice  "), None);
}

#[test]
fn username_validation_rejects_bad_names() {
    assert!(username_error("").is_some());
    assert!(username_error("ab").is_some());
    assert!(username_error(&"a".repeat(65)).is_some());
    assert!(username_error("al!ce").is_some());
    assert!(username_error("al ice").is_some());
    assert!(username_error("🚀").is_some());
}

#[test]
fn password_validation_checks_length() {
    assert!(!password_error("password").is_some());
    assert!(password_error("short").is_some());
    assert!(password_error(&"a".repeat(129)).is_some());
}

#[test]
fn username_errors_name_the_problem() {
    assert_eq!(username_error("ab"), Some("username must be 3-64 characters"));
    assert_eq!(username_error(&"a".repeat(64)), None);
    assert_eq!(
        username_error("al!ce"),
        Some("username may only contain letters, digits, _ - .")
    );
    // "éé" is four bytes: long enough, but not ASCII.
    assert_eq!(
        username_error("éé"),
        Some("username may only contain letters, digits, _ - .")
    );
}

#[test]
fn password_errors_name_the_problem() {
    assert_eq!(password_error("short"), Some("password must be at least 8 characters"));
    assert_eq!(password_error(&"a".repeat(128)), None);
    assert_eq!(
        password_error(&"a".repeat(129)),
        Some("password must be at most 128 characters")
    );
    // Four two-byte characters make eight bytes.
    assert_eq!(password_error("éééé"), None);
}

#[test]
fn login_requires_both_fields() {
    assert!(login_fields_present("alice", "pw"));
    assert!(!login_fields_present("   ", "pw"));
    assert!(!login_fields_present("alice", ""));
}

#[test]
fn bearer_token_is_read_from_header() {
    assert_eq!(bearer_token("Bearer abc").as_deref(), Some("abc"));
    assert_eq!(bearer_token("Bearer ").as_deref(), Some(""));
    assert_eq!(bearer_token("Basic abc"), None);
    assert_eq!(bearer_token("bearer abc"), None);
}

#[test]
fn lead_limit_defaults_and_clamps() {
    assert_eq!(lead_limit(None), 200);
    assert_eq!(lead_limit(Some(0)), 1);
    assert_eq!(lead_limit(Some(-5)), 1);
    assert_eq!(lead_limit(Some(50)), 50);
    assert_eq!(lead_limit(Some(5000)), 1000);
}

fn blank_lead() -> NewLead {
    NewLead {
        source: " ".into(),
        title: "Build a site".into(),
        description: "d".into(),
        url: "".into(),
        budget: None,
        budget_min: None,
        budget_max: None,
        currency: None,
        location: None,
        technologies: None,
        client_name: None,
        posted_date: None,
    }
}

#[test]
fn manual_lead_is_completed() {
    let l = complete_manual_lead(blank_lead(), 42).unwrap();
    assert_eq!(l.source, "manual");
    assert_eq!(l.url, "manual://42");
    assert_eq!(l.title, "Build a site");
    let mut with_url = blank_lead();
    with_url.url = "https://x".into();
    with_url.source = "upwork".into();
    let l = complete_manual_lead(with_url, 7).unwrap();
    assert_eq!(l.url, "https://x");
    assert_eq!(l.source, "upwork");
}

#[test]
fn manual_lead_needs_title() {
    let mut l = blank_lead();
    l.title = "  ".into();
    assert_eq!(complete_manual_lead(l, 1).err(), Some("title required"));
    let mut l = blank_lead();
    l.title = "".into();
    assert_eq!(prepare_manual_lead(l).err(), Some("title required"));
}

#[test]
fn prepared_manual_lead_gets_random_link() {
    let l = prepare_manual_lead(blank_lead()).unwrap();
    assert!(l.url.starts_with("manual://"));
    assert!(l.url["manual://".len()..].chars().all(|c| c.is_ascii_digit()));
}

#[test]
fn statuses_are_checked() {
    for s in ["new", "shortlisted", "applied", "responded", "won", "lost", "archived"] {
        assert!(is_valid_lead_status(s));
    }
    assert!(!is_valid_lead_status("queued"));
    assert!(!is_valid_lead_status("New"));
    for s in ["deployed", "funded", "in_progress", "submitted", "completed", "disputed", "refunded"] {
        assert!(is_valid_contract_status(s));
    }
    assert!(!is_valid_contract_status("draft"));
}

#[test]
fn notes_are_read_from_body() {
    let body = JsonValue::Object(vec![("notes".into(), JsonValue::Text("call back".into()))]);
    assert_eq!(notes_from_body(&body), "call back");
    let body = JsonValue::Object(vec![("notes".into(), JsonValue::Number("3".into(), Some(3)))]);
    assert_eq!(notes_from_body(&body), "");
    assert_eq!(notes_from_body(&JsonValue::Null), "");
}

#[test]
fn deployment_needs_hash_then_address() {
    let ok = DeployRequest {
        tx_hash: Some(" 0xabc ".into()),
        contract_address: Some("0xdef".into()),
    };
    assert_eq!(deployment_fields(&ok), Ok(("0xabc".to_string(), "0xdef".to_string())));
    let no_hash = DeployRequest { tx_hash: None, contract_address: Some("0xdef".into()) };
    assert_eq!(deployment_fields(&no_hash), Err("a valid tx_hash (0x…) is required"));
    let bad_hash = DeployRequest {
        tx_hash: Some("abc".into()),
        contract_address: None,
    };
    assert_eq!(deployment_fields(&bad_hash), Err("a valid tx_hash (0x…) is required"));
    let no_addr = DeployRequest { tx_hash: Some("0x1".into()), contract_address: Some(" ".into()) };
    assert_eq!(deployment_fields(&no_addr), Err("a contract_address (0x…) is required"));
}

fn contract(id: i64) -> Contract {
    Contract {
        id,
        client_id: 1,
        client_address: None,
        freelancer_address: None,
        contract_address: None,
        title: "t".into(),
        amount_wei: None,
        currency: "ETH".into(),
        status: "draft".into(),
        tx_hash: None,
        deployed_at: None,
        notes: None,
        created_at: "now".into(),
    }
}

#[test]
fn contracts_are_found_by_id() {
    let list = vec![contract(3), contract(5)];
    assert!(has_contract(&list, 5));
    assert!(!has_contract(&list, 4));
    assert!(!has_contract(&Vec::new(), 1));
}

#[test]
fn redirect_prefers_request_then_setting() {
    assert_eq!(redirect_uri_for(&Some("a".into()), &Some("b".into())), "a");
    assert_eq!(redirect_uri_for(&None, &Some("b".into())), "b");
    assert_eq!(redirect_uri_for(&None, &None), "http://localhost:5173/linkedin/callback");
}

#[test]
fn linkedin_setup_checks() {
    assert!(linkedin_app_ready("id", "secret"));
    assert!(!linkedin_app_ready("", "secret"));
    assert!(!linkedin_app_ready("id", ""));
    assert_eq!(oauth_state_text(255), "ff");
    assert_eq!(oauth_state_text(0), "0");
    assert!(state_accepted(&None, &Some("s".into())));
    assert!(state_accepted(&Some("s".into()), &None));
    assert!(state_accepted(&Some("s".into()), &Some("s".into())));
    assert!(!state_accepted(&Some("s".into()), &Some("t".into())));
    assert!(setting_present(&Some("x".into())));
    assert!(!setting_present(&Some("".into())));
    assert!(!setting_present(&None));
}

#[test]
fn linkedin_settings_skip_blank_secret() {
    let s = LinkedinSettings {
        client_id: Some("cid".into()),
        client_secret: Some("  ".into()),
        redirect_uri: Some("http://r".into()),
    };
    let w = linkedin_setting_writes(&s);
    assert_eq!(
        w,
        vec![
            ("linkedin.client_id".to_string(), "cid".to_string()),
            ("linkedin.redirect_uri".to_string(), "http://r".to_string()),
        ]
    );
    let none = LinkedinSettings { client_id: None, client_secret: None, redirect_uri: None };
    assert!(linkedin_setting_writes(&none).is_empty());
}

#[test]
fn keyword_and_source_settings_are_cleaned() {
    let list = vec![" react ".to_string(), "".to_string(), "rust".to_string()];
    assert_eq!(keywords_setting_value(&list), "react, rust");
    assert_eq!(sources_setting_value(&list), "react,rust");
}

#[test]
fn saved_keywords_read_back() {
    let list = vec![" web development ".to_string(), " ".to_string(), "rust".to_string()];
    let saved = keywords_setting_value(&list);
    let read = keywords_from_setting(&Some(saved));
    assert_eq!(read, vec!["web development".to_string(), "rust".to_string()]);
}

#[test]
fn sources_setting_is_split_and_trimmed() {
    assert_eq!(
        sources_from_setting(&Some("upwork, ,fiverr".into())),
        vec!["upwork".to_string(), "".to_string(), "fiverr".to_string()]
    );
    assert_eq!(
        sources_from_setting(&None),
        vec!["upwork.freelancer.fiverr".to_string()]
    );
}

#[test]
fn scrape_inputs_fall_back_to_settings() {
    assert_eq!(max_per_run_from(&Some("25".into())), 25);
    assert_eq!(max_per_run_from(&Some("+7".into())), 7);
    assert_eq!(max_per_run_from(&Some("x".into())), 100);
    assert_eq!(max_per_run_from(&Some("-1".into())), 100);
    assert_eq!(max_per_run_from(&Some("99999999999999999999999".into())), 100);
    assert_eq!(max_per_run_from(&None), 100);
    assert_eq!(
        scrape_sources(&Some(vec!["indeed".into()]), &Some("upwork".into())),
        vec!["indeed".to_string()]
    );
    assert_eq!(
        scrape_sources(&Some(vec![]), &Some("upwork, fiverr".into())),
        vec!["upwork".to_string(), "fiverr".to_string()]
    );
    assert_eq!(scrape_sources(&None, &None), Vec::<String>::new());
    let saved = vec!["rust".to_string()];
    assert_eq!(scrape_keywords(&None, &saved), Ok(vec!["rust".to_string()]));
    assert_eq!(
        scrape_keywords(&Some(vec!["go".into()]), &saved),
        Ok(vec!["go".to_string()])
    );
    assert_eq!(scrape_keywords(&Some(vec![]), &Vec::new()), Err("no keywords configured"));
}

#[test]
fn auto_update_settings_are_checked_in_order() {
    let s = AutoUpdateSettings { enabled: Some(true), interval_mins: Some(5), threshold: Some(70) };
    let (w, e) = auto_update_writes(&s);
    assert_eq!(w, vec![("auto_pull_enabled".to_string(), "1".to_string())]);
    assert_eq!(e, Some("interval must be at least 10 minutes"));
    let s = AutoUpdateSettings { enabled: Some(false), interval_mins: Some(30), threshold: Some(-3) };
    let (w, e) = auto_update_writes(&s);
    assert_eq!(
        w,
        vec![
            ("auto_pull_enabled".to_string(), "0".to_string()),
            ("auto_pull_interval_mins".to_string(), "30".to_string()),
            ("auto_queue_threshold".to_string(), "-3".to_string()),
        ]
    );
    assert_eq!(e, None);
}

#[test]
fn signed_numbers_are_written_in_decimal() {
    assert_eq!(signed_string(0), "0");
    assert_eq!(signed_string(120), "120");
    assert_eq!(signed_string(-45), "-45");
    assert_eq!(signed_string(i64::MIN), i64::MIN.to_string());
    assert_eq!(signed_string(i64::MAX), i64::MAX.to_string());
}

#[test]
fn saved_sources_are_the_scrape_sources() {
    let list = vec![" upwork ".to_string(), "".to_string(), "indeed".to_string()];
    let saved = sources_setting_value(&list);
    assert_eq!(saved, "upwork,indeed");
    assert_eq!(scrape_sources(&None, &Some(saved)), vec!["upwork".to_string(), "indeed".to_string()]);
}
