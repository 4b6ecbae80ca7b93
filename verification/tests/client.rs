//! Requests to the server, and what is read from its replies.

use otto_tui::client::{build_prompt_body, flatten_models, most_recent_session, ModelChoice, SessionInfo};

fn js(text: &str) -> serde_json::Value {
    serde_json::from_str(text).unwrap()
}

fn sess(id: &str, updated: i64, created: i64) -> SessionInfo {
    SessionInfo {
        id: id.into(),
        title: None,
        time_updated: updated,
        time_created: created,
        ..Default::default()
    }
}

#[test]
fn most_recent_session_picks_latest_updated() {
    let sessions = vec![
        sess("old", 100, 1),
        sess("newest_created", 150, 300),
        sess("last_active", 500, 50),
    ];
    assert_eq!(most_recent_session(&sessions).unwrap().id, "last_active");
}

#[test]
fn most_recent_session_empty_is_none() {
    assert!(most_recent_session(&[]).is_none());
}

#[test]
fn most_recent_session_falls_back_to_newest_created_when_no_timestamps() {
    let z = vec![sess("a", 0, 0), sess("b", 0, 0), sess("c", 0, 0)];
    assert_eq!(most_recent_session(&z).unwrap().id, "c");
}

#[test]
fn flatten_models_reads_real_provider_list_shape() {
    let v = js(r#"{"providers": [{"id": "anthropic", "name": "anthropic", "models": [{"id": "sonnet-3", "name": "sonnet-3"}, {"id": "sonnet-3-5", "name": "sonnet-3-5"}]}, {"id": "openai", "name": "openai", "models": [{"id": "gpt-4o", "name": "gpt-4o"}]}], "default": {"providerID": "anthropic", "modelID": "sonnet-3"}}"#);

    let mut ids: Vec<String> = flatten_models(&v).iter().map(ModelChoice::id).collect();
    ids.sort();
    assert_eq!(
        ids,
        vec![
            "anthropic/sonnet-3".to_string(),
            "anthropic/sonnet-3-5".to_string(),
            "openai/gpt-4o".to_string(),
        ]
    );
}

#[test]
fn flatten_models_empty_on_shape_mismatch() {
    let v = js(r#"{"unexpected": true}"#);
    assert!(flatten_models(&v).is_empty());
}

#[test]
fn prompt_body_includes_files_when_present() {
    let body = build_prompt_body("hi", None, None, &["a.rs".to_string(), "b.txt".to_string()]);
    assert_eq!(body["prompt"], "hi");
    let files = body["files"].as_array().unwrap();
    assert_eq!(files.len(), 2);
    assert_eq!(files[0]["path"], "a.rs");
}

#[test]
fn prompt_body_omits_files_when_empty() {
    let body = build_prompt_body("hi", None, None, &[]);
    assert!(body.get("files").is_none(), "no files key when empty");
}
