use git_analyse::driver::{
    aggregate, build_prompt, build_request_body, json_escape, parse_completion, render_file_types,
    AnalysisResult, AnalysisSession, ResponseStyle,
};
use git_analyse::AnalyseError;

#[test]
fn chat_response_yields_its_content() {
    let body = "{\"choices\":[{\"message\":{\"content\":\"ok\"}}]}";
    let text = parse_completion(body, ResponseStyle::Chat).unwrap();
    assert_eq!(text, "ok");
}

#[test]
fn legacy_response_yields_its_text_trimmed() {
    let body = "{\"choices\":[{\"text\":\"  hello \\n\"}]}";
    let text = parse_completion(body, ResponseStyle::Legacy).unwrap();
    assert_eq!(text, "hello");
}

#[test]
fn trim_removes_unicode_whitespace() {
    let body = "{\"choices\":[{\"message\":{\"content\":\"\u{a0}\u{2003}ok\u{3000} \"}}]}";
    let text = parse_completion(body, ResponseStyle::Chat).unwrap();
    assert_eq!(text, "ok");
}

#[test]
fn absent_field_yields_empty_text() {
    let body = "{\"choices\":[{\"text\":\"hi\"}]}";
    let text = parse_completion(body, ResponseStyle::Chat).unwrap();
    assert_eq!(text, "");
}

#[test]
fn error_object_fails_the_call() {
    let body = "{\"error\":{\"message\":\"quota exceeded\"}}";
    match parse_completion(body, ResponseStyle::Chat) {
        Err(AnalyseError::RemoteAnalysisFailed { message }) => {
            assert_eq!(message, "quota exceeded");
        }
        _ => panic!("expected RemoteAnalysisFailed"),
    }
}

#[test]
fn error_object_without_message_reports_unknown() {
    let body = "{\"error\":{}}";
    match parse_completion(body, ResponseStyle::Chat) {
        Err(AnalyseError::RemoteAnalysisFailed { message }) => {
            assert_eq!(message, "Unknown error");
        }
        _ => panic!("expected RemoteAnalysisFailed"),
    }
}

#[test]
fn unparsable_response_fails_the_call() {
    assert!(matches!(
        parse_completion("not json at all", ResponseStyle::Chat),
        Err(AnalyseError::RemoteAnalysisFailed { .. })
    ));
}

#[test]
fn json_escape_handles_specials() {
    assert_eq!(json_escape("plain"), "plain");
    assert_eq!(json_escape("a\"b\\c\nd\te\rf"), "a\\\"b\\\\c\\nd\\te\\rf");
    assert_eq!(json_escape("\u{1}\u{1f}"), "\\u0001\\u001f");
}

#[test]
fn rendered_inventory_matches_expected_shape() {
    assert_eq!(render_file_types(&vec![]), "{}");
    assert_eq!(render_file_types(&vec!["rs".to_string()]), "{\"rs\"}");
    assert_eq!(
        render_file_types(&vec!["rs".to_string(), "toml".to_string()]),
        "{\"rs\", \"toml\"}"
    );
}

#[test]
fn prompt_embeds_position_inventory_and_chunk() {
    let prompt = build_prompt("https://github.com/a/b", 2, 4, "{\"rs\"}", "let x = 1;");
    assert_eq!(
        prompt,
        "Analyze the following truncated code from the repository at https://github.com/a/b. \
         This is part 2 of 4. The repository contains files with extensions: {\"rs\"}. \
         Please provide an in-depth analysis of the code, its purpose, and if there's anything \
         suspicious or potentially considered malware:\n\n```\nlet x = 1;\n```\n"
    );
}

#[test]
fn request_body_round_trips_through_json() {
    let prompt = "line one\nhas \"quotes\" and \\slashes\\ and \u{2}";
    let body = build_request_body(prompt);
    let v: serde_json::Value = serde_json::from_str(&body).unwrap();
    assert_eq!(v["model"], "gpt-3.5-turbo");
    assert_eq!(v["messages"][1]["role"], "user");
    assert_eq!(v["messages"][1]["content"], prompt);
    assert_eq!(v["temperature"], 0.5);
    assert_eq!(v["max_tokens"], 100);
}

#[test]
fn session_drives_chunks_in_order() {
    let mut session = AnalysisSession::new(
        "https://github.com/acme/widget".to_string(),
        vec!["rs".to_string()],
        vec!["fn a() {}".to_string(), "fn b() {}".to_string()],
        ResponseStyle::Chat,
    );
    assert!(!session.done());
    let first_prompt = session.next_prompt();
    assert!(first_prompt.contains("This is part 1 of 2."));
    assert!(first_prompt.contains("fn a() {}"));
    session
        .record_response("{\"choices\":[{\"message\":{\"content\":\" alpha \"}}]}")
        .unwrap();
    assert!(!session.done());
    let second_prompt = session.next_prompt();
    assert!(second_prompt.contains("This is part 2 of 2."));
    assert!(second_prompt.contains("fn b() {}"));
    session
        .record_response("{\"choices\":[{\"message\":{\"content\":\"beta\"}}]}")
        .unwrap();
    assert!(session.done());
    let report = session.into_report();
    assert_eq!(report.file_types, vec!["rs".to_string()]);
    assert_eq!(report.results.len(), 2);
    assert_eq!(report.results[0].chunk_index, 0);
    assert_eq!(report.results[0].text, "alpha");
    assert_eq!(report.results[1].chunk_index, 1);
    assert_eq!(report.results[1].text, "beta");
}

#[test]
fn failed_call_leaves_session_unchanged() {
    let mut session = AnalysisSession::new(
        "https://github.com/acme/widget".to_string(),
        vec![],
        vec!["code".to_string()],
        ResponseStyle::Chat,
    );
    let r = session.record_response("{\"error\":{\"message\":\"down\"}}");
    assert!(matches!(
        r,
        Err(AnalyseError::RemoteAnalysisFailed { .. })
    ));
    assert!(!session.done());
}

#[test]
fn aggregate_preserves_order_verbatim() {
    let results = vec![
        AnalysisResult {
            chunk_index: 0,
            text: "one".to_string(),
        },
        AnalysisResult {
            chunk_index: 1,
            text: "two".to_string(),
        },
    ];
    let report = aggregate(vec!["rs".to_string()], results);
    assert_eq!(report.file_types, vec!["rs".to_string()]);
    assert_eq!(report.results[0].text, "one");
    assert_eq!(report.results[1].text, "two");
}
