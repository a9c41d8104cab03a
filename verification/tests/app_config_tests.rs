use claude_code_launch::app_config::{default_config_json, expand_tilde, load_app_config, resolve_config_path, ConfigFileState};

const DEFAULT_DB_PATH: &str = "runtime/launcher.sqlite3";

/// Reads a configuration text the way the launcher does: the `db_path`
/// member, or the parser's error.
fn parse(text: &str) -> ConfigFileState {
    match serde_json::from_str::<serde_json::Value>(text) {
        Ok(v) if v.is_object() => match v.get("db_path") {
            None | Some(serde_json::Value::Null) => ConfigFileState::Parsed(None),
            Some(serde_json::Value::String(s)) => ConfigFileState::Parsed(Some(s.clone())),
            Some(other) => ConfigFileState::ParseFailed(format!("invalid type: {other}")),
        },
        Ok(_) => ConfigFileState::ParseFailed("invalid type".to_string()),
        Err(e) => ConfigFileState::ParseFailed(e.to_string()),
    }
}

#[test]
fn missing_config_file_creates_default_and_returns_it() {
    let config = load_app_config("/tmp/c/config.json", ConfigFileState::CreatedDefault, Some("/home/u"), DEFAULT_DB_PATH)
        .ok()
        .expect("missing config should create default");
    assert_eq!(config.db_path, DEFAULT_DB_PATH);
    let content = default_config_json(DEFAULT_DB_PATH);
    assert!(content.contains(DEFAULT_DB_PATH));
    assert_eq!(content, "{\n  \"db_path\": \"runtime/launcher.sqlite3\"\n}\n");
}

#[test]
fn valid_config_file_returns_custom_db_path() {
    let state = parse(r#"{ "db_path": "/tmp/my-overseer.sqlite3" }"#);
    let config = load_app_config("/c.json", state, Some("/home/u"), DEFAULT_DB_PATH).ok().expect("valid config should parse");
    assert_eq!(config.db_path, "/tmp/my-overseer.sqlite3");
}

#[test]
fn invalid_json_returns_error() {
    let error = load_app_config("/c.json", parse("NOT JSON"), None, DEFAULT_DB_PATH).err().expect("invalid json should fail");
    assert!(error.contains("JSON 解析失败"), "got: {error}");
    assert!(error.starts_with("配置文件 /c.json JSON 解析失败。\n原因: "));
}

#[test]
fn empty_db_path_returns_error() {
    let error = load_app_config("/c.json", parse(r#"{ "db_path": "" }"#), None, DEFAULT_DB_PATH).err().expect("empty db_path should fail");
    assert!(error.contains("db_path 为空"), "got: {error}");
}

#[test]
fn tilde_in_db_path_is_expanded() {
    let state = parse(r#"{ "db_path": "~/Documents/overseer/overseer.sqlite3" }"#);
    let config = load_app_config("/c.json", state, Some("/home/u"), DEFAULT_DB_PATH).ok().expect("tilde path should parse");
    assert!(!config.db_path.contains('~'), "tilde should be expanded: {}", config.db_path);
    assert!(config.db_path.ends_with("/Documents/overseer/overseer.sqlite3"));
    assert_eq!(config.db_path, "/home/u/Documents/overseer/overseer.sqlite3");
}

#[test]
fn missing_db_path_field_returns_error() {
    let error = load_app_config("/c.json", parse("{}"), None, DEFAULT_DB_PATH).err().expect("missing db_path field should fail");
    assert!(error.contains("db_path 为空"), "got: {error}");
}

#[test]
fn file_errors_are_reported() {
    let e = load_app_config("/c.json", ConfigFileState::ReadFailed("denied".to_string()), None, DEFAULT_DB_PATH).err().unwrap();
    assert_eq!(e, "无法读取配置文件 /c.json。\n原因: denied\n建议: 检查文件权限或删除后重新创建");
    let e = load_app_config("/d/c.json", ConfigFileState::CreateDirFailed("/d".to_string(), "ro".to_string()), None, DEFAULT_DB_PATH).err().unwrap();
    assert_eq!(e, "无法创建配置目录 /d：ro");
    let e = load_app_config("/d/c.json", ConfigFileState::WriteFailed("full".to_string()), None, DEFAULT_DB_PATH).err().unwrap();
    assert_eq!(e, "无法写入默认配置文件 /d/c.json：full");
}

#[test]
fn tilde_expansion_and_paths() {
    assert_eq!(expand_tilde("~/x", None), "/tmp/x");
    assert_eq!(expand_tilde("~x", Some("/h")), "~x");
    assert_eq!(expand_tilde("/abs", Some("/h")), "/abs");
    assert_eq!(resolve_config_path(Some("/explicit.json"), Some("/h"), ".config/app", "config.json"), "/explicit.json");
    assert_eq!(resolve_config_path(None, Some("/h"), ".config/app", "config.json"), "/h/.config/app/config.json");
    assert_eq!(resolve_config_path(None, None, ".config/app", "config.json"), "/tmp/.config/app/config.json");
}
