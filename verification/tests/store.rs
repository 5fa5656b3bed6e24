use leadgen::models::{Lead, NewLead};
use leadgen::store::{
    budget_number_text, client_for_lead, keywords_from_setting, score_lead, top_technologies,
    UpperBudget,
};

fn new_lead() -> NewLead {
    NewLead {
        source: "upwork".into(),
        title: "t".into(),
        description: "d".into(),
        url: "u".into(),
        budget: None,
        budget_min: None,
        budget_max: None,
        currency: None,
        location: None,
        technologies: None,
        client_name: None,
        posted_date: None,
    }
}

#[test]
fn base_score_adds_signals() {
    assert_eq!(score_lead(&new_lead(), UpperBudget::Unreadable), 0);
    let full = NewLead {
        budget: Some("$800-$1,500".into()),
        budget_min: Some(800),
        client_name: Some("Acme".into()),
        location: Some("Remote".into()),
        technologies: Some("React, URGENT, asap now".into()),
        ..new_lead()
    };
    // 20 amounts + 10 budget + 20 upper + 10 client + 5 location + 15 urgency
    assert_eq!(score_lead(&full, UpperBudget::From1000), 80);
    assert_eq!(score_lead(&full, UpperBudget::From500), 70);
    assert_eq!(score_lead(&full, UpperBudget::Under500), 60);
    // The upper end only counts with a budget text.
    let amounts_only = NewLead { budget_max: Some(5), ..new_lead() };
    assert_eq!(score_lead(&amounts_only, UpperBudget::From1000), 20);
}

#[test]
fn budget_upper_end_text() {
    assert_eq!(budget_number_text("$800-$1,500"), "1500");
    assert_eq!(budget_number_text("Starting at $30"), "30");
    assert_eq!(budget_number_text("$1.5k - $2.25k"), "2.25");
    assert_eq!(budget_number_text("ask"), "");
    assert_eq!(budget_number_text("10-"), "");
}

fn lead(client: Option<&str>) -> Lead {
    Lead {
        id: 7,
        source: "indeed".into(),
        title: "t".into(),
        description: "d".into(),
        url: "u".into(),
        budget: None,
        budget_min: None,
        budget_max: None,
        currency: None,
        location: None,
        technologies: Some("Rust".into()),
        client_name: client.map(String::from),
        posted_date: None,
        status: "new".into(),
        score: 0,
        notes: None,
        created_at: "now".into(),
    }
}

#[test]
fn client_from_lead_is_named() {
    let c = client_for_lead(&lead(Some("Acme")));
    assert_eq!(c.lead_id, Some(7));
    assert_eq!(c.name, "Acme");
    assert_eq!(c.company.as_deref(), Some("Acme"));
    assert_eq!(c.source.as_deref(), Some("indeed"));
    assert_eq!(c.preferences.as_deref(), Some("Rust"));
    assert_eq!(client_for_lead(&lead(Some("  "))).name, "Client from lead");
    assert_eq!(client_for_lead(&lead(None)).name, "Client from lead");
}

#[test]
fn keywords_setting_is_split() {
    assert_eq!(
        keywords_from_setting(&Some("web development, react,, rust ".into())),
        vec!["web development", "react", "rust"]
    );
    assert!(keywords_from_setting(&None).is_empty());
}

#[test]
fn technologies_are_ranked() {
    let techs = vec![
        "React, Rust".to_string(),
        "rust, Go".to_string(),
        " RUST ,react, , python".to_string(),
    ];
    let r = top_technologies(&techs);
    let pairs: Vec<(String, i64)> = r.iter().map(|t| (t.tech.clone(), t.count)).collect();
    assert_eq!(
        pairs,
        vec![
            ("rust".to_string(), 3),
            ("react".to_string(), 2),
            ("go".to_string(), 1),
            ("python".to_string(), 1),
        ]
    );
}

#[test]
fn ranking_keeps_ten() {
    let techs: Vec<String> = (0..15).map(|i| format!("t{}", i)).collect();
    let mut techs = techs;
    techs.push("t14, t13".into());
    let r = top_technologies(&techs);
    assert_eq!(r.len(), 10);
    assert_eq!(r[0].tech, "t13");
    assert_eq!(r[0].count, 2);
    assert_eq!(r[1].tech, "t14");
    assert!(r.iter().skip(2).all(|t| t.count == 1));
    assert!(top_technologies(&vec![]).is_empty());
}
