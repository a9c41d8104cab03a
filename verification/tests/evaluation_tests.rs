use claude_code_launch::evaluation::{
    classified_error_with, classify_http_status, classify_request_failure, client_build_error,
    client_timeout_ms, build_prompt, evaluate, extract_json_object, interpret_reply,
    parse_structured_output, provider_from_name, request_body, resolve_endpoint, should_fail_once,
    EvalConfig, EvaluationInput, EvaluationStep, Provider, StructuredEvaluation,
};
use claude_code_launch::json::JsonValue;

fn jv(v: &serde_json::Value) -> JsonValue {
    match v {
        serde_json::Value::Null => JsonValue::Null,
        serde_json::Value::Bool(b) => JsonValue::Bool(*b),
        serde_json::Value::Number(n) => JsonValue::Number(n.to_string()),
        serde_json::Value::String(s) => JsonValue::Str(s.clone()),
        serde_json::Value::Array(items) => JsonValue::Array(items.iter().map(jv).collect()),
        serde_json::Value::Object(map) => {
            JsonValue::Object(map.iter().map(|(k, x)| (k.clone(), jv(x))).collect())
        }
    }
}

fn to_serde(v: &JsonValue) -> serde_json::Value {
    match v {
        JsonValue::Null => serde_json::Value::Null,
        JsonValue::Bool(b) => serde_json::Value::Bool(*b),
        JsonValue::Number(n) => serde_json::from_str(n).unwrap(),
        JsonValue::Str(s) => serde_json::Value::String(s.clone()),
        JsonValue::Array(items) => serde_json::Value::Array(items.iter().map(to_serde).collect()),
        JsonValue::Object(entries) => {
            let mut m = serde_json::Map::new();
            for (k, x) in entries {
                m.insert(k.clone(), to_serde(x));
            }
            serde_json::Value::Object(m)
        }
    }
}

fn js(text: &str) -> serde_json::Value {
    serde_json::from_str(text).unwrap()
}

fn parse_structured(text: &str) -> Option<StructuredEvaluation> {
    let v: serde_json::Value = serde_json::from_str(text).ok()?;
    let field = |k: &str| v.get(k).and_then(|x| x.as_str()).map(|s| s.to_string());
    Some(StructuredEvaluation {
        risk_level: field("risk_level")?,
        risk_category: field("risk_category")?,
        efficiency_level: field("efficiency_level")?,
        suggestion: field("suggestion")?,
    })
}

fn config(provider: &str, base_url: &str, key: Option<&str>, timeout_ms: u64) -> EvalConfig {
    EvalConfig {
        provider: provider.to_string(),
        model: "gpt-test".to_string(),
        base_url: base_url.to_string(),
        api_key: key.map(|k| k.to_string()),
        timeout_ms,
        ..EvalConfig::default()
    }
}

fn input(event_id: &str, payload: serde_json::Value) -> EvaluationInput {
    EvaluationInput { event_id: event_id.to_string(), event_type: "tool.call".to_string(), payload: jv(&payload) }
}

/// Plans the request, then interprets the given reply the way the collector does.
fn run_with_reply(input: &EvaluationInput, config: &EvalConfig, status: u16, body: &str) -> Result<StructuredEvaluation, String> {
    let mut seen = Vec::new();
    let step = evaluate(input, config, "{}", &mut seen);
    let req = match step {
        EvaluationStep::Fail(e) => return Err(e),
        EvaluationStep::Send(req) => req,
    };
    let parsed: Result<JsonValue, String> = serde_json::from_str::<serde_json::Value>(body)
        .map(|v| jv(&v))
        .map_err(|e| format!("{e:?}"));
    let content = interpret_reply(&req.provider, status, body, &parsed, &input.event_id)?;
    let direct = parse_structured(&content);
    let embedded = extract_json_object(&content).and_then(|s| parse_structured(&s));
    parse_structured_output(&content, direct, embedded, &input.event_id)
}

#[test]
fn openai_provider_successfully_parses_structured_json() {
    let body = r#"{"choices":[{"message":{"content":"{\"risk_level\":\"low\",\"risk_category\":\"normal\",\"efficiency_level\":\"medium\",\"suggestion\":\"ok\"}"}}]}"#;
    let config = config("openai", "http://127.0.0.1:9", Some("sk-test"), 2000);
    let input = input("evt-mock-success", js(r#"{"cmd":"echo hi"}"#));
    let result = run_with_reply(&input, &config, 200, body).expect("openai mock response should parse");
    assert_eq!(result.risk_level, "low");
    assert_eq!(result.risk_category, "normal");
}

#[test]
fn openai_provider_classifies_auth_error() {
    let config = config("openai", "http://127.0.0.1:9", Some("invalid"), 2000);
    let input = input("evt-auth-fail", js("{}"));
    let error = run_with_reply(&input, &config, 401, "{\"error\":\"unauthorized\"}").expect_err("auth response should fail");
    assert!(error.contains("error_type=auth"));
}

#[test]
fn openai_provider_classifies_timeout_error() {
    let config = config("openai", "http://127.0.0.1:9", Some("sk-test"), 500);
    let input = input("evt-timeout", js("{}"));
    let mut seen = Vec::new();
    let step = evaluate(&input, &config, "{}", &mut seen);
    let req = match step {
        EvaluationStep::Send(req) => req,
        EvaluationStep::Fail(e) => panic!("unexpected failure: {e}"),
    };
    assert_eq!(req.timeout_ms, 500);
    let error = classify_request_failure("openai", true, "reqwest::Error { kind: Request, source: TimedOut }", &input.event_id);
    assert!(
        error.contains("error_type=network_timeout") || error.contains("timed out"),
        "unexpected error message: {error}"
    );
}

#[test]
fn resolve_endpoint_appends_path_once() {
    assert_eq!(
        resolve_endpoint("https://api.openai.com/v1/", "https://x", "/chat/completions"),
        "https://api.openai.com/v1/chat/completions"
    );
    assert_eq!(
        resolve_endpoint("https://h/v1/chat/completions", "https://x", "/chat/completions"),
        "https://h/v1/chat/completions"
    );
    assert_eq!(resolve_endpoint("   ", "https://d/api", "/chat"), "https://d/api/chat");
    assert_eq!(resolve_endpoint("  https://h//  ", "https://d", "/messages"), "https://h/messages");
}

#[test]
fn extract_json_object_takes_outer_braces() {
    assert_eq!(extract_json_object("x {\"a\":1} y").as_deref(), Some("{\"a\":1}"));
    assert_eq!(extract_json_object("} {"), None);
    assert_eq!(extract_json_object("none"), None);
    assert_eq!(extract_json_object("{ {inner} }").as_deref(), Some("{ {inner} }"));
}

#[test]
fn client_timeout_is_clamped() {
    assert_eq!(client_timeout_ms(10), 500);
    assert_eq!(client_timeout_ms(999_999), 120_000);
    assert_eq!(client_timeout_ms(8_000), 8_000);
}

#[test]
fn classified_error_has_all_parts() {
    let e = classified_error_with("auth", "bad key", "evt-1", Some(401), "<bt>");
    assert_eq!(e, "error_type=auth status=401 event_id=evt-1 message=bad key backtrace=<bt>");
    let e = classified_error_with("parse", "m", "evt-2", None, "");
    assert_eq!(e, "error_type=parse status=none event_id=evt-2 message=m backtrace=");
}

#[test]
fn http_status_categories() {
    assert!(classify_http_status("openai", 403, "x", "e").starts_with("error_type=auth status=403 event_id=e message=provider=openai status=403 body=x backtrace="));
    assert!(classify_http_status("ollama", 429, "", "e").starts_with("error_type=rate_limit status=429"));
    assert!(classify_http_status("anthropic", 500, "oops", "e").starts_with("error_type=provider status=500"));
    assert!(classify_request_failure("ollama", false, "conn refused", "e")
        .starts_with("error_type=network status=none event_id=e message=provider=ollama request failed: conn refused"));
    assert!(client_build_error("E", "evt").starts_with("error_type=config status=none event_id=evt message=failed to build http client: E"));
}

#[test]
fn forced_failures_come_before_the_provider() {
    let cfg = config("openai", "", None, 1000);
    let mut seen = Vec::new();
    let forced = input("evt-f", js(r#"{"force_error": true, "force_error_once": true}"#));
    match evaluate(&forced, &cfg, "{}", &mut seen) {
        EvaluationStep::Fail(e) => assert!(e.starts_with("error_type=provider status=none event_id=evt-f message=simulated permanent failure by force_error")),
        EvaluationStep::Send(_) => panic!("forced failure expected"),
    }
    assert!(seen.is_empty());
    let once = input("evt-once", js(r#"{"force_error_once": true}"#));
    match evaluate(&once, &cfg, "{}", &mut seen) {
        EvaluationStep::Fail(e) => assert!(e.contains("error_type=network") && e.contains("simulated transient failure")),
        EvaluationStep::Send(_) => panic!("transient failure expected"),
    }
    // the second time the same event passes on to the provider check (no key here)
    match evaluate(&once, &cfg, "{}", &mut seen) {
        EvaluationStep::Fail(e) => assert!(e.contains("error_type=config") && e.contains("openai api_key is empty")),
        EvaluationStep::Send(_) => panic!("missing key expected"),
    }
    assert_eq!(seen, vec!["evt-once".to_string()]);
}

#[test]
fn should_fail_once_records_each_id_once() {
    let mut seen = Vec::new();
    assert!(should_fail_once(&mut seen, "a"));
    assert!(!should_fail_once(&mut seen, "a"));
    assert!(should_fail_once(&mut seen, "b"));
    assert_eq!(seen.len(), 2);
}

#[test]
fn provider_configuration_errors() {
    let mut seen = Vec::new();
    let inp = input("evt-c", js("{}"));
    match evaluate(&inp, &config("gemini", "", Some("k"), 1000), "{}", &mut seen) {
        EvaluationStep::Fail(e) => assert!(e.contains("message=unsupported provider=gemini")),
        EvaluationStep::Send(_) => panic!("unsupported provider expected"),
    }
    match evaluate(&inp, &config("anthropic", "", Some("   "), 1000), "{}", &mut seen) {
        EvaluationStep::Fail(e) => assert!(e.contains("anthropic api_key is empty")),
        EvaluationStep::Send(_) => panic!("missing key expected"),
    }
}

#[test]
fn requests_carry_headers_endpoint_and_body() {
    let mut seen = Vec::new();
    let inp = input("evt-r", js(r#"{"k": 1}"#));
    match evaluate(&inp, &config("anthropic", "", Some(" sk-a "), 99), "{\"k\":1}", &mut seen) {
        EvaluationStep::Send(req) => {
            assert!(matches!(req.provider, Provider::Anthropic));
            assert_eq!(req.endpoint, "https://api.anthropic.com/v1/messages");
            assert_eq!(req.headers, vec![
                ("x-api-key".to_string(), "sk-a".to_string()),
                ("anthropic-version".to_string(), "2023-06-01".to_string()),
            ]);
            assert_eq!(req.timeout_ms, 500);
            let body = to_serde(&req.body);
            assert_eq!(body["max_tokens"], js("600"));
            assert_eq!(body["model"], js(r#""gpt-test""#));
            assert_eq!(body["messages"][0]["role"], js(r#""user""#));
            assert_eq!(
                body["messages"][0]["content"],
                serde_json::Value::String(build_prompt("evt-r", "tool.call", "{\"k\":1}"))
            );
        }
        EvaluationStep::Fail(e) => panic!("request expected, got {e}"),
    }
    match evaluate(&inp, &config("ollama", "http://localhost:11434/api/", None, 200_000), "{}", &mut seen) {
        EvaluationStep::Send(req) => {
            assert_eq!(req.endpoint, "http://localhost:11434/api/chat");
            assert!(req.headers.is_empty());
            assert_eq!(req.timeout_ms, 120_000);
            let body = to_serde(&req.body);
            assert_eq!(body["stream"], js("false"));
            assert_eq!(body["format"], js(r#""json""#));
        }
        EvaluationStep::Fail(e) => panic!("request expected, got {e}"),
    }
    let openai_body = to_serde(&request_body(&Provider::OpenAi, "m", "p"));
    assert_eq!(openai_body["temperature"], js("0.2"));
    assert_eq!(openai_body["response_format"]["type"], js(r#""json_object""#));
    assert_eq!(openai_body["messages"][1]["content"], js(r#""p""#));
}

#[test]
fn prompt_has_the_documented_layout() {
    assert_eq!(
        build_prompt("e1", "t1", "{}"),
        "请评估以下事件并输出 JSON:\nevent_id: e1\nevent_type: t1\npayload: {}\n仅输出 JSON。"
    );
}

#[test]
fn replies_are_read_per_provider() {
    let ok = |p: &Provider, body: &str| {
        let parsed = serde_json::from_str::<serde_json::Value>(body).map(|v| jv(&v)).map_err(|e| format!("{e:?}"));
        interpret_reply(p, 200, body, &parsed, "evt")
    };
    assert_eq!(ok(&Provider::Anthropic, r#"{"content":[{"text":"hi"}]}"#).unwrap(), "hi");
    assert_eq!(ok(&Provider::Ollama, r#"{"message":{"content":"yo"}}"#).unwrap(), "yo");
    let missing = ok(&Provider::OpenAi, r#"{"choices":[]}"#).unwrap_err();
    assert!(missing.contains("message=openai response missing message.content; body={\"choices\":[]}"));
    let bad = ok(&Provider::Ollama, "not json").unwrap_err();
    assert!(bad.contains("error_type=parse") && bad.contains("ollama response json parse failed: ") && bad.contains("; body=not json"));
}

#[test]
fn structured_output_falls_back_to_the_embedded_object() {
    let content = "Here: {\"risk_level\":\"high\",\"risk_category\":\"danger\",\"efficiency_level\":\"low\",\"suggestion\":\"stop\"} done";
    let direct = parse_structured(content);
    assert!(direct.is_none());
    let embedded = extract_json_object(content).and_then(|s| parse_structured(&s));
    let r = parse_structured_output(content, direct, embedded, "e").unwrap();
    assert_eq!(r.risk_level, "high");
    let err = parse_structured_output("nope", None, None, "e").err().unwrap();
    assert!(err.contains("message=model output is not valid StructuredEvaluation json: nope"));
}

#[test]
fn provider_names() {
    assert!(matches!(provider_from_name("openai"), Some(Provider::OpenAi)));
    assert!(matches!(provider_from_name("ollama"), Some(Provider::Ollama)));
    assert!(provider_from_name("OpenAI").is_none());
}
