use hubu_core::feedback::{
    prepare, redact, report_body_text, FeedbackInput, PreparedFeedback, BUG_URL, DESCRIPTION_LENGTH_MESSAGE, DIAGNOSTICS_WARNING,
    INVALID_FIELDS_MESSAGE, KIND_MESSAGE, PRIVATE_WARNING, REDACTION_WARNING, REVIEW_WARNING,
};

fn input(trying: &str, happened: &str) -> FeedbackInput {
    FeedbackInput { trying: trying.to_string(), happened: happened.to_string(), kind: None, diagnostics: vec![] }
}

fn serialized(report: &PreparedFeedback) -> String {
    let mut text = String::new();
    text.push_str(report.title);
    text.push_str(&report.body);
    for (name, value) in &report.diagnostics {
        text.push_str(name);
        text.push_str(value);
    }
    for warning in &report.warnings {
        text.push_str(warning);
    }
    text
}

#[test]
fn general_feedback_needs_no_operation_or_backend() {
    let report = prepare(input("See my budget", "Blank screen"), "test", "test-os").unwrap();
    assert_eq!(report.destination_url, Some(BUG_URL));
    assert_eq!(
        report.diagnostics,
        vec![
            ("client_version".to_string(), "test".to_string()),
            ("platform".to_string(), "test-os".to_string())
        ]
    );
    assert!(report.body.contains("Blank screen"));
    assert_eq!(report.warnings, vec![REVIEW_WARNING]);
}

#[test]
fn selects_only_safe_diagnostics_and_redacts_prose() {
    let mut feedback = input(
        "Fetch artifact",
        "Failed\nhttps://download.invalid/?signature=private\nAuthorization: Bearer credential",
    );
    feedback.diagnostics = vec![
        (
            "operation_handle".to_string(),
            Some("hubu:public-operation:v1:0123456789abcdef0123456789abcdef".to_string()),
        ),
        ("error_code".to_string(), Some("backend_unavailable".to_string())),
        ("prompt".to_string(), Some("private-prompt".to_string())),
        ("raw_logs".to_string(), Some("private-log".to_string())),
        ("credential".to_string(), Some("private-secret".to_string())),
        ("download_url".to_string(), Some("private-url".to_string())),
        ("execution_id".to_string(), Some("private-id".to_string())),
    ];
    let report = prepare(feedback, "test", "test-os").unwrap();
    let serialized = serialized(&report);
    for secret in
        ["private-prompt", "private-log", "private-secret", "private-url", "private-id", "signature=", "Bearer credential"]
    {
        assert!(!serialized.contains(secret), "{secret}");
    }
    assert_eq!(report.diagnostics.len(), 4);
    assert_eq!(report.warnings, vec![REVIEW_WARNING, REDACTION_WARNING, DIAGNOSTICS_WARNING]);
}

#[test]
fn unsafe_diagnostics_do_not_block_and_errors_do_not_echo_input() {
    let mut feedback = input("Try", "Fail");
    feedback.kind = Some("private".to_string());
    feedback.diagnostics = vec![
        ("operation_handle".to_string(), Some("private-key".to_string())),
        ("error_code".to_string(), Some("https://secret".to_string())),
    ];
    let report = prepare(feedback, "test", "test").unwrap();
    assert_eq!(report.visibility, "private");
    assert_eq!(report.destination_url, None);
    assert_eq!(report.diagnostics.len(), 2);
    assert!(!serialized(&report).contains("private-key"));
    assert_eq!(report.warnings, vec![REVIEW_WARNING, DIAGNOSTICS_WARNING, PRIVATE_WARNING]);

    let blank = prepare(input("", "secret"), "test", "test").unwrap_err();
    assert_eq!(blank, DESCRIPTION_LENGTH_MESSAGE);
    assert!(!blank.contains("secret"));
    let mut unknown_kind = input("ok", "ok");
    unknown_kind.kind = Some("secret".to_string());
    let kind = prepare(unknown_kind, "test", "test").unwrap_err();
    assert_eq!(kind, KIND_MESSAGE);
    assert!(!kind.contains("secret"));
    assert!(!INVALID_FIELDS_MESSAGE.contains("secret"));
}

#[test]
fn redaction_splits_lines_like_str_lines_and_drops_control_characters() {
    assert_eq!(redact(""), (String::new(), false));
    assert_eq!(redact("a\r\nb\n"), ("a\nb".to_string(), false));
    assert_eq!(redact("x\u{7}y\tz"), ("xy\tz".to_string(), false));
    assert_eq!(
        redact("fine\nmy PASSWORD is hunter2\n\nend"),
        ("fine\n[redacted: possible sensitive content]\n\nend".to_string(), true)
    );
    assert_eq!(redact("sk-abc"), ("[redacted: possible sensitive content]".to_string(), true));
}

#[test]
fn descriptions_longer_than_4000_characters_are_refused() {
    let long = "é".repeat(4001);
    assert_eq!(prepare(input(&long, "ok"), "v", "p").unwrap_err(), DESCRIPTION_LENGTH_MESSAGE);
    let limit = "é".repeat(4000);
    assert!(prepare(input(&limit, "ok"), "v", "p").is_ok());
}

#[test]
fn idea_reports_go_to_the_idea_template_and_body_embeds_the_diagnostics() {
    let mut feedback = input("Add export", "Nothing yet");
    feedback.kind = Some("idea".to_string());
    feedback.diagnostics = vec![("error_code".to_string(), Some("no_export".to_string()))];
    let report = prepare(feedback, "1.0", "linux").unwrap();
    assert_eq!(report.title, "Idea for Hubu");
    assert_eq!(report.visibility, "public");
    assert!(report.body.starts_with("## What were you trying to do?\n\nAdd export\n\n## What happened?\n\nNothing yet"));
    assert!(report.body.contains("\"error_code\": \"no_export\""));
    assert!(report.body.ends_with("\n```\n"));
}

#[test]
fn report_body_places_descriptions_and_diagnostics_in_their_sections() {
    let body = report_body_text("Trying", "Happened", "{\n  \"platform\": \"macos\"\n}");
    assert_eq!(
        body,
        "## What were you trying to do?\n\nTrying\n\n## What happened?\n\nHappened\n\n## Reviewed diagnostics\n\n```json\n{\n  \"platform\": \"macos\"\n}\n```\n"
    );
}
