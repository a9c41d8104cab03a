use claude_code_launch::collection::{
    accepted_body, admit_event, detect_agent_type, error_response, evaluation_input, evaluation_queue_error,
    evaluation_record, event_accepted, event_item, event_queue_error, input_summary, new_evaluation_job,
    offer_for_evaluation, require_session_id, retry_job, retry_lookup_error, retry_queue_error, sample_for_evaluation, server_port,
    validate_event, Admission, AgentKind, ApiError, EvaluationJob, IncomingEvent, SendFailure, StoredEvaluation,
};
use claude_code_launch::evaluation::{EvalConfig, StructuredEvaluation};
use claude_code_launch::json::JsonValue;

fn jv(v: &serde_json::Value) -> JsonValue {
    match v {
        serde_json::Value::Null => JsonValue::Null,
        serde_json::Value::Bool(b) => JsonValue::Bool(*b),
        serde_json::Value::Number(n) => JsonValue::Number(n.to_string()),
        serde_json::Value::String(s) => JsonValue::Str(s.clone()),
        serde_json::Value::Array(items) => JsonValue::Array(items.iter().map(jv).collect()),
        serde_json::Value::Object(map) => {
            JsonValue::Object(map.iter().map(|(k, x)| (k.clone(), jv(x))).collect())
        }
    }
}

fn js(text: &str) -> JsonValue {
    jv(&serde_json::from_str::<serde_json::Value>(text).unwrap())
}

fn event(id: &str, session: &str, project: &str, kind: &str, payload: &str) -> IncomingEvent {
    IncomingEvent {
        event_id: id.to_string(),
        session_id: session.to_string(),
        project_name: project.to_string(),
        event_type: kind.to_string(),
        payload: js(payload),
        created_at_ms: 1000,
    }
}

fn member<'a>(v: &'a JsonValue, key: &str) -> Option<&'a JsonValue> {
    match v {
        JsonValue::Object(entries) => entries.iter().find(|(k, _)| k == key).map(|(_, x)| x),
        _ => None,
    }
}

#[test]
fn event_payload_validation_rejects_empty_required_fields() {
    let e = event("", "session-3", "project-c", "tool.call", "{}");
    match admit_event(true, e) {
        Err(err) => {
            let (status, body) = error_response(err);
            assert_eq!(status, 400);
            assert_eq!(body.error, "event_id cannot be empty");
            assert_eq!(body.error_code, "bad_request");
            assert!(!body.accepted);
        }
        Ok(_) => panic!("empty event_id must be refused"),
    }
}

#[test]
fn validation_names_the_first_blank_field() {
    let cases = [
        (event("e", " ", "p", "t", "{}"), "session_id cannot be empty"),
        (event("e", "s", "\t", "t", "{}"), "project_name cannot be empty"),
        (event("e", "s", "p", "", "{}"), "event_type cannot be empty"),
    ];
    for (e, msg) in cases.iter() {
        match validate_event(e) {
            Err(ApiError::BadRequest(m)) => assert_eq!(&m, msg),
            _ => panic!("expected {msg}"),
        }
    }
    assert!(validate_event(&event("e", "s", "p", "t", "{}")).is_ok());
}

#[test]
fn admitted_events_have_secrets_redacted() {
    let e = event("evt-1", "session-1", "project-a", "tool.call", r#"{"apiKey":"super-secret","cmd":"ls","nested":{"password":"x","keyboard":"k"}}"#);
    match admit_event(true, e) {
        Ok(Admission::Enqueue(q)) => {
            assert_eq!(q.event_id, "evt-1");
            assert!(matches!(member(&q.payload, "apiKey"), Some(JsonValue::Str(s)) if s == "[REDACTED]"));
            assert!(matches!(member(&q.payload, "cmd"), Some(JsonValue::Str(s)) if s == "ls"));
            let nested = member(&q.payload, "nested").unwrap();
            assert!(matches!(member(nested, "password"), Some(JsonValue::Str(s)) if s == "[REDACTED]"));
            assert!(matches!(member(nested, "keyboard"), Some(JsonValue::Str(s)) if s == "k"));
        }
        _ => panic!("event should be queued"),
    }
}

#[test]
fn disabled_collection_declines_events() {
    match admit_event(false, event("", "", "", "", "{}")) {
        Ok(Admission::Declined(ack)) => {
            assert!(!ack.accepted);
            assert_eq!(ack.event_id, "");
        }
        _ => panic!("declined ack expected"),
    }
    let ack = event_accepted("evt-9".to_string());
    assert!(ack.accepted && !ack.duplicate);
}

#[test]
fn post_event_returns_429_when_event_queue_is_full() {
    let (status, body) = error_response(event_queue_error(SendFailure::Full));
    assert_eq!(status, 429);
    assert_eq!(body.error_code, "evaluation_queue_full");
    assert!(body.retryable);
    let (status, body) = error_response(event_queue_error(SendFailure::Closed));
    assert_eq!(status, 500);
    assert_eq!(body.error, "event queue is closed");
    assert!(!body.retryable);
}

#[test]
fn transcript_query_rejects_empty_session_id() {
    let err = require_session_id("", "session_id is required for transcript query").unwrap_err();
    let (status, body) = error_response(err);
    assert_eq!(status, 400);
    assert_eq!(body.error_code, "bad_request");
    assert!(!body.retryable);
    assert!(require_session_id("s", "x").is_ok());
}

#[test]
fn evaluation_honors_switch_and_sampling() {
    assert_eq!(sample_for_evaluation(false, 1, 7), (false, 7));
    let (first, c1) = sample_for_evaluation(true, 2, 0);
    let (second, c2) = sample_for_evaluation(true, 2, c1);
    assert!(!first);
    assert!(second);
    assert_eq!(c2, 2);
    assert_eq!(sample_for_evaluation(true, 0, 4), (true, 5));
    assert_eq!(sample_for_evaluation(true, 3, u64::MAX), (true, 0));
}

#[test]
fn sampling_selects_one_event_in_every_rate() {
    let mut counter = 0u64;
    let mut sampled = 0;
    for _ in 0..30 {
        let (s, c) = sample_for_evaluation(true, 4, counter);
        counter = c;
        if s {
            sampled += 1;
        }
    }
    assert_eq!(sampled, 30 / 4);
}

#[test]
fn agent_type_comes_from_the_hook_input() {
    assert!(matches!(detect_agent_type(&js(r#"{"stdin_json":{"cursor_version":"1.2"}}"#)), AgentKind::Cursor));
    assert!(matches!(detect_agent_type(&js(r#"{"stdin_json":{"cursor_version":""}}"#)), AgentKind::ClaudeCode));
    assert!(matches!(detect_agent_type(&js(r#"{"cursor_version":"1"}"#)), AgentKind::ClaudeCode));
}

#[test]
fn jobs_records_and_retries() {
    let e = event("evt-retry-1", "session-retry", "p", "tool.call", r#"{"force_error_once":true}"#);
    let job = new_evaluation_job(&e);
    assert!(job.evaluation_id.starts_with("eval-"));
    assert_eq!(job.evaluation_id.len(), 41);
    assert_eq!(job.event_id.as_deref(), Some("evt-retry-1"));
    assert_eq!(job.retry_count, 0);
    let summary = input_summary(&job);
    assert!(matches!(member(&summary, "event_type"), Some(JsonValue::Str(s)) if s == "tool.call"));
    assert!(matches!(member(&summary, "payload"), Some(JsonValue::Object(_))));

    let cfg = EvalConfig::default();
    let failed = evaluation_record(&job, &cfg, Err("boom".to_string()), "{}".to_string(), 55);
    assert_eq!(failed.status, "failed");
    assert_eq!(failed.risk_level, "unknown");
    assert_eq!(failed.suggestion, "");
    assert_eq!(failed.error_message.as_deref(), Some("boom"));
    assert_eq!(failed.error_stack.as_deref(), Some("boom"));
    assert_eq!(failed.provider, "openai");
    assert_eq!(failed.created_at_ms, 55);

    let stored = StoredEvaluation {
        session_id: "session-retry".to_string(),
        event_id: Some("evt-retry-1".to_string()),
        input_summary: "{}".to_string(),
        retry_count: 0,
    };
    let retry = retry_job(job.evaluation_id.clone(), stored, Ok(summary)).ok().unwrap();
    assert_eq!(retry.retry_count, 1);
    assert_eq!(retry.event_type, "tool.call");
    let ok = evaluation_record(&retry, &cfg, Ok(StructuredEvaluation {
        risk_level: "low".to_string(),
        risk_category: "normal".to_string(),
        efficiency_level: "high".to_string(),
        suggestion: "fine".to_string(),
    }), "{}".to_string(), 56);
    assert_eq!(ok.status, "success");
    assert_eq!(ok.retry_count, 1);
    assert!(ok.error_message.is_none());
}

#[test]
fn retry_defaults_and_errors() {
    let stored = StoredEvaluation { session_id: "s".to_string(), event_id: None, input_summary: "{}".to_string(), retry_count: 4 };
    let job = retry_job("eval-x".to_string(), stored, Ok(js("{}"))).ok().unwrap();
    assert_eq!(job.event_type, "unknown-event");
    assert!(matches!(job.payload, JsonValue::Null));
    assert_eq!(job.retry_count, 5);
    let input = evaluation_input(&job);
    assert_eq!(input.event_id, "retry-eval-x");
    let stored = StoredEvaluation { session_id: "s".to_string(), event_id: None, input_summary: "x".to_string(), retry_count: 0 };
    match retry_job("eval-y".to_string(), stored, Err("EOF".to_string())) {
        Err(ApiError::Internal(m)) => assert_eq!(m, "failed to parse evaluation input summary: EOF"),
        _ => panic!("internal error expected"),
    }
    match retry_lookup_error("eval-z", "QueryReturnedNoRows") {
        ApiError::BadRequest(m) => assert_eq!(m, "cannot retry evaluation id=eval-z error=QueryReturnedNoRows"),
        _ => panic!("bad request expected"),
    }
    assert!(matches!(retry_queue_error(SendFailure::Full), ApiError::QueueFull(_)));
    match evaluation_queue_error(SendFailure::Full, "evt-1") {
        ApiError::QueueFull(m) => assert_eq!(m, "evaluation queue is full for event evt-1, please retry later"),
        _ => panic!("queue full expected"),
    }
    let body = accepted_body();
    assert!(body.accepted && body.error.is_empty());
}

#[test]
fn event_query_hides_raw_stdin_from_payload() {
    let item = event_item(
        "evt-raw-stdin".to_string(),
        "session-raw-stdin".to_string(),
        "tool.call".to_string(),
        js(r#"{"raw_stdin":"{\"secret\":\"value\"}","stdin_json":{"safe":"yes"},"tool_name":"shell"}"#),
        4000,
    );
    assert!(member(&item.payload, "raw_stdin").is_none());
    assert!(member(&item.payload, "stdin_json").is_some());
    assert!(member(&item.payload, "tool_name").is_some());
}

#[test]
fn server_port_defaults() {
    assert_eq!(server_port(None), 8787);
    assert_eq!(server_port(Some("9000")), 9000);
    assert_eq!(server_port(Some("0")), 8787);
    assert_eq!(server_port(Some("70000")), 8787);
    assert_eq!(server_port(Some("abc")), 8787);
}

#[test]
fn evaluation_job_fields_are_public() {
    let job = EvaluationJob {
        evaluation_id: "e".to_string(),
        event_id: None,
        session_id: "s".to_string(),
        event_type: "t".to_string(),
        payload: JsonValue::Null,
        retry_count: 0,
    };
    assert_eq!(evaluation_input(&job).event_type, "t");
}

#[test]
fn only_new_events_are_offered() {
    assert_eq!(offer_for_evaluation(false, true, 1, 4), (false, 4));
    assert_eq!(offer_for_evaluation(true, false, 1, 4), (false, 4));
    assert_eq!(offer_for_evaluation(true, true, 1, 4), (true, 5));
    assert_eq!(offer_for_evaluation(true, true, 2, 4), (false, 5));
    assert_eq!(offer_for_evaluation(true, true, 2, 5), (true, 6));
}
