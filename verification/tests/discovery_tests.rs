use claude_code_launch::discovery::{
    contains_id, discovered_session, encode_project_path, extract_cursor_project_name, extract_first_prompt,
    extract_project_name, failed_import, parse_start_time, project_path_of_meta, session_end_ms,
    session_id_of_meta, tally_import, transcript_candidate, truncate_prompt, ImportOutcome,
};
use claude_code_launch::json::JsonValue;

fn jv(v: &serde_json::Value) -> JsonValue {
    match v {
        serde_json::Value::Null => JsonValue::Null,
        serde_json::Value::Bool(b) => JsonValue::Bool(*b),
        serde_json::Value::Number(n) => JsonValue::Number(n.to_string()),
        serde_json::Value::String(s) => JsonValue::Str(s.clone()),
        serde_json::Value::Array(items) => JsonValue::Array(items.iter().map(jv).collect()),
        serde_json::Value::Object(map) => {
            JsonValue::Object(map.iter().map(|(k, x)| (k.clone(), jv(x))).collect())
        }
    }
}

fn js(text: &str) -> JsonValue {
    jv(&serde_json::from_str::<serde_json::Value>(text).unwrap())
}

#[test]
fn project_names() {
    assert_eq!(extract_project_name("/Users/a/proj"), "proj");
    assert_eq!(extract_project_name("/Users/a/proj/"), "proj");
    assert_eq!(extract_project_name(""), "unknown");
    assert_eq!(extract_project_name("///"), "///");
    assert_eq!(extract_project_name("plain"), "plain");
    assert_eq!(extract_cursor_project_name("Users-a-my-proj"), "proj");
    assert_eq!(extract_cursor_project_name("abc-"), "abc-");
    assert_eq!(extract_cursor_project_name(""), "unknown");
    assert_eq!(extract_cursor_project_name("abc"), "abc");
    assert_eq!(encode_project_path("/a/b"), "-a-b");
}

#[test]
fn prompts_are_truncated_on_character_boundaries() {
    assert_eq!(truncate_prompt("short"), "short");
    let ascii = "a".repeat(600);
    assert_eq!(truncate_prompt(&ascii), format!("{}…", "a".repeat(500)));
    assert_eq!(truncate_prompt(&"a".repeat(500)), "a".repeat(500));
    let wide = "é".repeat(300);
    assert_eq!(truncate_prompt(&wide), format!("{}…", "é".repeat(250)));
    let mixed = format!("{}{}", "a".repeat(499), "中文");
    assert_eq!(truncate_prompt(&mixed), format!("{}中…", "a".repeat(499)));
}

#[test]
fn first_prompt_prefers_the_user_query() {
    let lines = vec![
        None,
        Some(js(r#"{"role":"assistant","message":{"content":[{"type":"text","text":"hello"}]}}"#)),
        Some(js(r#"{"role":"user","message":{"content":[{"type":"image"},{"type":"text","text":"ctx <user_query>  fix the bug  </user_query> tail"}]}}"#)),
    ];
    assert_eq!(extract_first_prompt(&lines), "fix the bug");
    let plain = vec![Some(js(r#"{"role":"user","message":{"content":[{"type":"text","text":"  just text  "}]}}"#))];
    assert_eq!(extract_first_prompt(&plain), "just text");
    let empty_tag = vec![Some(js(r#"{"role":"user","message":{"content":[{"type":"text","text":"<user_query> </user_query>"}]}}"#))];
    assert_eq!(extract_first_prompt(&empty_tag), "<user_query> </user_query>");
    assert_eq!(extract_first_prompt(&[]), "");
    let mut late: Vec<Option<JsonValue>> = (0..20).map(|_| None).collect();
    late.push(Some(js(r#"{"role":"user","message":{"content":[{"type":"text","text":"too late"}]}}"#)));
    assert_eq!(extract_first_prompt(&late), "");
}

#[test]
fn start_times_from_metadata() {
    assert_eq!(parse_start_time(&js(r#"{"start_time_ms": 123}"#)), 123);
    assert_eq!(parse_start_time(&js(r#"{"start_time":"2024-01-02T03:04:05Z"}"#)), 1704164645000);
    assert_eq!(parse_start_time(&js(r#"{"start_time":"2024-01-02T03:04:05.250Z"}"#)), 1704164645250);
    assert_eq!(parse_start_time(&js(r#"{"start_time":"yesterday"}"#)), 0);
    assert_eq!(parse_start_time(&js(r#"{"start_time_ms": 1.5}"#)), 0);
}

#[test]
fn sessions_from_metadata_and_facets() {
    let meta = js(r#"{"session_id":"s1","project_path":"/w/p","duration_minutes":4294967301,"first_prompt":"hi","input_tokens":10,"output_tokens":-2,"start_time_ms":7}"#);
    assert_eq!(session_id_of_meta(&meta).as_deref(), Some("s1"));
    assert_eq!(project_path_of_meta(&meta), "/w/p");
    let facet = js(r#"{"underlying_goal":"g","outcome":"o","brief_summary":"b"}"#);
    let s = discovered_session(&meta, Some(&facet), "/t.jsonl".to_string()).unwrap();
    assert_eq!(s.session_id, "s1");
    assert_eq!(s.duration_minutes, 5);
    assert_eq!(s.input_tokens, 10);
    assert_eq!(s.output_tokens, -2);
    assert_eq!((s.goal.as_str(), s.outcome.as_str(), s.summary.as_str()), ("g", "o", "b"));
    assert_eq!(s.start_time_ms, 7);
    let bare = discovered_session(&js(r#"{"session_id":"s2"}"#), None, String::new()).unwrap();
    assert_eq!(bare.project_path, "");
    assert_eq!(bare.goal, "");
    assert!(discovered_session(&js(r#"{"session_id":"  "}"#), None, String::new()).is_none());
    assert!(session_id_of_meta(&js(r#"{"session_id":5}"#)).is_none());
}

#[test]
fn transcript_candidates_and_end_times() {
    assert_eq!(transcript_candidate("/h/projects", "", "s"), None);
    assert_eq!(transcript_candidate("/h/projects", "/w/p", "s1").as_deref(), Some("/h/projects/-w-p/s1.jsonl"));
    assert_eq!(transcript_candidate("/h/projects/", "/w/p", "s1").as_deref(), Some("/h/projects/-w-p/s1.jsonl"));
    assert_eq!(session_end_ms(1000, 0), 1000);
    assert_eq!(session_end_ms(1000, 2), 121_000);
}

#[test]
fn import_tallies() {
    let outcomes = vec![
        ImportOutcome { existing: false, written: Ok(true) },
        ImportOutcome { existing: true, written: Ok(true) },
        ImportOutcome { existing: true, written: Ok(false) },
        ImportOutcome { existing: false, written: Err("e".to_string()) },
    ];
    let r = tally_import(4, &outcomes, true);
    assert_eq!((r.scanned, r.imported, r.updated, r.errors), (4, 1, 1, 1));
    let r = tally_import(4, &outcomes, false);
    assert_eq!((r.imported, r.updated, r.errors), (0, 0, 4));
    let r = failed_import(3);
    assert!(r.accepted);
    assert_eq!(r.errors, 3);
    let ids = vec!["a".to_string(), "b".to_string()];
    assert!(contains_id(&ids, "b"));
    assert!(!contains_id(&ids, "c"));
}
