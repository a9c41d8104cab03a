use claude_code_launch::collection::ApiError;
use claude_code_launch::evaluation::EvalConfig;
use claude_code_launch::settings::{load_eval_config, persist_eval_config, save_settings};

fn cfg(provider: &str, model: &str, base: &str, key: Option<&str>, rate: u32, timeout: u64) -> EvalConfig {
    EvalConfig {
        enabled: true,
        sampling_rate: rate,
        provider: provider.to_string(),
        model: model.to_string(),
        base_url: base.to_string(),
        api_key: key.map(|k| k.to_string()),
        timeout_ms: timeout,
    }
}

#[test]
fn settings_supports_provider_connection_parameters() {
    let saved = save_settings(cfg("anthropic", "sonnet-3-7", "https://api.anthropic.com/v1", Some("sk-test-key"), 1, 3000))
        .ok()
        .unwrap();
    let rows = persist_eval_config(&saved);
    let loaded = load_eval_config(&rows);
    assert_eq!(loaded.provider, "anthropic");
    assert_eq!(loaded.model, "sonnet-3-7");
    assert_eq!(loaded.base_url, "https://api.anthropic.com/v1");
    assert_eq!(loaded.api_key.as_deref(), Some("sk-test-key"));
    assert_eq!(loaded.timeout_ms, 3000);
    assert!(loaded.enabled);
}

#[test]
fn saving_normalizes_rate_and_timeout() {
    let saved = save_settings(cfg("openai", "m", "u", None, 0, 10)).ok().unwrap();
    assert_eq!(saved.sampling_rate, 1);
    assert_eq!(saved.timeout_ms, 500);
    let saved = save_settings(cfg("openai", "m", "u", None, 7, 500_000)).ok().unwrap();
    assert_eq!(saved.sampling_rate, 7);
    assert_eq!(saved.timeout_ms, 120_000);
}

#[test]
fn saving_refuses_blank_fields() {
    for (c, msg) in [
        (cfg(" ", "m", "u", None, 1, 1000), "provider cannot be empty"),
        (cfg("p", "", "u", None, 1, 1000), "model cannot be empty"),
        (cfg("p", "m", "\n", None, 1, 1000), "base_url cannot be empty"),
    ] {
        match save_settings(c) {
            Err(ApiError::BadRequest(m)) => assert_eq!(m, msg),
            _ => panic!("{msg} expected"),
        }
    }
}

#[test]
fn stored_rows_and_defaults() {
    let rows = persist_eval_config(&cfg("ollama", "llama3", "http://x", None, 0, 1_000_000));
    let as_pairs: Vec<(&str, &str)> = rows.iter().map(|(k, v)| (k.as_str(), v.as_str())).collect();
    assert_eq!(as_pairs, vec![
        ("eval_enabled", "true"),
        ("eval_sampling_rate", "1"),
        ("eval_provider", "ollama"),
        ("eval_model", "llama3"),
        ("eval_base_url", "http://x"),
        ("eval_api_key", ""),
        ("eval_timeout_ms", "120000"),
    ]);
    let defaults = load_eval_config(&[]);
    assert!(defaults.enabled);
    assert_eq!(defaults.sampling_rate, 1);
    assert_eq!(defaults.provider, "openai");
    assert_eq!(defaults.model, "gpt-4o-mini");
    assert_eq!(defaults.base_url, "https://api.openai.com/v1");
    assert!(defaults.api_key.is_none());
    assert_eq!(defaults.timeout_ms, 8000);
}

#[test]
fn loading_tolerates_bad_values() {
    let rows = vec![
        ("eval_enabled".to_string(), "yes".to_string()),
        ("eval_sampling_rate".to_string(), "-3".to_string()),
        ("eval_timeout_ms".to_string(), "12".to_string()),
        ("eval_api_key".to_string(), "   ".to_string()),
        ("unrelated".to_string(), "x".to_string()),
    ];
    let c = load_eval_config(&rows);
    assert!(!c.enabled);
    assert_eq!(c.sampling_rate, 1);
    assert_eq!(c.timeout_ms, 500);
    assert!(c.api_key.is_none());
    let rows = vec![
        ("eval_sampling_rate".to_string(), "+5".to_string()),
        ("eval_timeout_ms".to_string(), "x".to_string()),
    ];
    let c = load_eval_config(&rows);
    assert_eq!(c.sampling_rate, 5);
    assert_eq!(c.timeout_ms, 8000);
}

#[test]
fn blank_key_reads_back_as_none() {
    let rows = persist_eval_config(&cfg("openai", "m", "u", Some("  "), 3, 9000));
    let c = load_eval_config(&rows);
    assert!(c.api_key.is_none());
    assert_eq!(c.sampling_rate, 3);
    assert_eq!(c.timeout_ms, 9000);
}
