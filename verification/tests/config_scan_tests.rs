use claude_code_launch::config_scan::{
    check_config_content, config_content, decode_project_dir, detect_content_type, filter_by_source,
    global_hooks_item, has_hooks_in_settings, make_id, probe_config, simple_hash, skill_display_name, FileFacts,
};
use claude_code_launch::json::JsonValue;

#[test]
fn hashes_and_ids() {
    assert_eq!(simple_hash("/Users/me/proj"), "0d6851");
    assert_eq!(simple_hash(""), "001505");
    assert_eq!(simple_hash("é"), "598411");
    assert_eq!(make_id("cursor", "global", "mcp", None, None), "cursor-global-mcp");
    assert_eq!(
        make_id("cursor", "project", "rules", Some("/Users/me/proj"), Some("a.b/c d!.mdc")),
        "cursor-project-rules-0d6851-a-b-cd-mdc"
    );
}

#[test]
fn content_types() {
    assert_eq!(detect_content_type("/x/settings.json"), "json");
    assert_eq!(detect_content_type("/x/README.md"), "markdown");
    assert_eq!(detect_content_type("/x/r.mdc"), "markdown");
    assert_eq!(detect_content_type("/x/.cursorrules"), "text");
}

#[test]
fn probing_files() {
    let active = probe_config("cursor", "project", "rules", "r.mdc", "/p/.cursor/rules/r.mdc".to_string(),
        Some("/Users/me/proj".to_string()), FileFacts { is_file: true, metadata: Some((12, Some(99))) });
    assert_eq!(active.status, "active");
    assert_eq!(active.size_bytes, Some(12));
    assert_eq!(active.last_modified_ms, Some(99));
    assert_eq!(active.id, "cursor-project-rules-0d6851-r-mdc");
    let empty = probe_config("cursor", "global", "mcp", "mcp.json", "/h/mcp.json".to_string(), None,
        FileFacts { is_file: true, metadata: Some((0, None)) });
    assert_eq!(empty.status, "missing");
    assert_eq!(empty.size_bytes, Some(0));
    assert_eq!(empty.id, "cursor-global-mcp");
    let absent = probe_config("cursor", "global", "mcp", "mcp.json", "/h/mcp.json".to_string(), None,
        FileFacts { is_file: false, metadata: None });
    assert_eq!(absent.status, "missing");
    assert!(absent.size_bytes.is_none());
    let hooks = global_hooks_item("agent", "/h/settings.json".to_string());
    assert_eq!(hooks.id, "agent-global-hooks");
    assert_eq!(hooks.name, "hooks (in settings.json)");
    assert_eq!(hooks.status, "active");
    assert_eq!(skill_display_name("deploy"), "deploy/SKILL.md");
}

#[test]
fn project_dirs_and_hooks() {
    assert_eq!(decode_project_dir("-Users-me-proj").as_deref(), Some("//Users/me/proj"));
    assert_eq!(decode_project_dir("Users-me").as_deref(), Some("/Users/me"));
    assert_eq!(decode_project_dir(".hidden"), None);
    let with = JsonValue::Object(vec![("hooks".to_string(), JsonValue::Object(vec![("Stop".to_string(), JsonValue::Null)]))]);
    let without = JsonValue::Object(vec![("hooks".to_string(), JsonValue::Object(vec![]))]);
    assert!(has_hooks_in_settings(Some(&with)));
    assert!(!has_hooks_in_settings(Some(&without)));
    assert!(!has_hooks_in_settings(None));
}

#[test]
fn content_checks_and_filters() {
    assert_eq!(check_config_content("missing", "/a", Ok(1)).err().unwrap(), "config file does not exist: /a");
    assert_eq!(check_config_content("active", "/a", Err("denied".to_string())).err().unwrap(), "failed to read metadata for /a: denied");
    assert_eq!(check_config_content("active", "/a", Ok(2_000_000)).err().unwrap(), "config file too large (2000000 bytes, max 1048576)");
    assert!(check_config_content("active", "/a", Ok(1_048_576)).is_ok());
    let a = probe_config("cursor", "global", "mcp", "mcp.json", "/h/mcp.json".to_string(), None, FileFacts { is_file: false, metadata: None });
    let b = global_hooks_item("agent", "/h/settings.json".to_string());
    let c = config_content(&b, "{}".to_string());
    assert_eq!(c.content_type, "json");
    let kept = filter_by_source(vec![a, b], "cursor");
    assert_eq!(kept.len(), 1);
    assert_eq!(kept[0].source, "cursor");
}
