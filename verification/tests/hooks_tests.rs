use claude_code_launch::hooks::{backup_file_name, chrono_timestamp, get_hooks, init_hooks, save_hooks, target_event_names};
use claude_code_launch::json::JsonValue;

fn jv(v: &serde_json::Value) -> JsonValue {
    match v {
        serde_json::Value::Null => JsonValue::Null,
        serde_json::Value::Bool(b) => JsonValue::Bool(*b),
        serde_json::Value::Number(n) => JsonValue::Number(n.to_string()),
        serde_json::Value::String(s) => JsonValue::Str(s.clone()),
        serde_json::Value::Array(items) => JsonValue::Array(items.iter().map(jv).collect()),
        serde_json::Value::Object(map) => {
            JsonValue::Object(map.iter().map(|(k, x)| (k.clone(), jv(x))).collect())
        }
    }
}

fn back(v: &JsonValue) -> serde_json::Value {
    match v {
        JsonValue::Null => serde_json::Value::Null,
        JsonValue::Bool(b) => serde_json::Value::Bool(*b),
        JsonValue::Number(n) => serde_json::from_str(n).unwrap(),
        JsonValue::Str(s) => serde_json::Value::String(s.clone()),
        JsonValue::Array(items) => serde_json::Value::Array(items.iter().map(back).collect()),
        JsonValue::Object(entries) => {
            let mut m = serde_json::Map::new();
            for (k, x) in entries {
                m.insert(k.clone(), back(x));
            }
            serde_json::Value::Object(m)
        }
    }
}

fn js(text: &str) -> JsonValue {
    jv(&serde_json::from_str::<serde_json::Value>(text).unwrap())
}

#[test]
fn init_hooks_registers_every_target_event() {
    let (settings, added) = init_hooks(js(r#"{"theme":"dark"}"#), "python3 /r.py").ok().unwrap();
    assert_eq!(added, 9);
    let v = back(&settings);
    assert_eq!(v["theme"], serde_json::Value::String("dark".to_string()));
    for name in target_event_names() {
        let blocks = v["hooks"][name].as_array().unwrap();
        assert_eq!(blocks.len(), 1);
        assert_eq!(blocks[0]["matcher"], serde_json::Value::String("*".to_string()));
        assert_eq!(blocks[0]["hooks"][0]["command"], serde_json::Value::String("python3 /r.py".to_string()));
        assert_eq!(blocks[0]["hooks"][0]["type"], serde_json::Value::String("command".to_string()));
    }
}

#[test]
fn init_hooks_is_idempotent() {
    let (first, _) = init_hooks(js(r#"{"hooks":{"Stop":[{"matcher":"Bash","hooks":[]},{"matcher":"*","hooks":[{"type":"command","command":"other"}]}]}}"#), "cmd").ok().unwrap();
    let (second, added) = init_hooks(claude_code_launch::json::json_clone(&first), "cmd").ok().unwrap();
    assert_eq!(added, 0);
    assert_eq!(back(&first), back(&second));
    let v = back(&second);
    let stop = v["hooks"]["Stop"].as_array().unwrap();
    assert_eq!(stop.len(), 2);
    assert_eq!(stop[1]["hooks"].as_array().unwrap().len(), 2);
}

#[test]
fn init_hooks_counts_the_events_that_lacked_the_command() {
    let settings = js(r#"{"hooks":{"Stop":[{"matcher":"*","hooks":[{"type":"command","command":"cmd"}]}],"Notification":[{"matcher":"*","hooks":[]}],"Custom":[1]},"x":2}"#);
    let (after, added) = init_hooks(settings, "cmd").ok().unwrap();
    assert_eq!(added, 8);
    let v = back(&after);
    for name in target_event_names() {
        let blocks = v["hooks"][name].as_array().unwrap();
        let hooks = blocks[0]["hooks"].as_array().unwrap();
        assert!(hooks.iter().any(|h| h["command"] == serde_json::Value::String("cmd".to_string())));
    }
    assert_eq!(v["hooks"]["Stop"].as_array().unwrap()[0]["hooks"].as_array().unwrap().len(), 1);
    assert_eq!(v["hooks"]["Custom"], back(&js("[1]")));
    assert_eq!(v["x"], serde_json::Value::from(2));
}

#[test]
fn init_hooks_refuses_wrong_shapes() {
    assert_eq!(init_hooks(js("[]"), "c").err().unwrap(), "settings root is not a JSON object");
    assert_eq!(init_hooks(js(r#"{"hooks":[]}"#), "c").err().unwrap(), "settings.hooks is not a JSON object");
    assert_eq!(init_hooks(js(r#"{"hooks":{"Stop":{}}}"#), "c").err().unwrap(), "hooks.Stop is not a JSON array");
}

#[test]
fn get_and_save_hooks() {
    let settings = js(r#"{"hooks":{"Stop":[]},"x":1}"#);
    let events = get_hooks(&settings);
    assert_eq!(events.len(), 1);
    assert_eq!(events[0].0, "Stop");
    assert!(get_hooks(&js("{}")).is_empty());
    let saved = save_hooks(js(r#"{"x":1}"#), vec![("Notification".to_string(), JsonValue::Array(vec![]))]).ok().unwrap();
    let v = back(&saved);
    assert!(v["hooks"]["Notification"].is_array());
    assert_eq!(save_hooks(js("3"), vec![]).err().unwrap(), "settings root is not a JSON object");
}

#[test]
fn saved_hooks_read_back() {
    let events = vec![
        ("Stop".to_string(), js(r#"[{"matcher":"*","hooks":[]}]"#)),
        ("Notification".to_string(), JsonValue::Array(vec![])),
    ];
    let saved = save_hooks(js(r#"{"hooks":{"Old":[]},"x":1}"#), events).ok().unwrap();
    let read = get_hooks(&saved);
    assert_eq!(read.len(), 2);
    assert_eq!(read[0].0, "Stop");
    assert_eq!(read[1].0, "Notification");
    assert_eq!(back(&read[0].1), back(&js(r#"[{"matcher":"*","hooks":[]}]"#)));
    assert_eq!(back(&saved)["x"], serde_json::Value::from(1));
}

#[test]
fn backup_names() {
    assert_eq!(chrono_timestamp(1_700_000_000), "202319675-221320");
    assert_eq!(chrono_timestamp(0), "1970000-000000");
    assert_eq!(backup_file_name("settings.json", "1970000-000000"), "settings.json.bak.1970000-000000");
}
