use openclaw_manager::config::{
    config_update_would_panic, default_config, default_config_text, ensure_config_defaults,
    update_config_text, ConfigFileUpdate, JsonValue,
};

fn render(v: &JsonValue) -> String {
    match v {
        JsonValue::Null => "null".to_string(),
        JsonValue::Bool(b) => b.to_string(),
        JsonValue::Number(n) => n.clone(),
        JsonValue::Str(s) => format!("{:?}", s),
        JsonValue::Array(items) => {
            let parts: Vec<String> = items.iter().map(render).collect();
            format!("[{}]", parts.join(","))
        }
        JsonValue::Object(members) => {
            let parts: Vec<String> =
                members.iter().map(|(k, x)| format!("{:?}:{}", k, render(x))).collect();
            format!("{{{}}}", parts.join(","))
        }
    }
}

fn obj(members: Vec<(&str, JsonValue)>) -> JsonValue {
    JsonValue::Object(members.into_iter().map(|(k, v)| (k.to_string(), v)).collect())
}

fn st(s: &str) -> JsonValue {
    JsonValue::Str(s.to_string())
}

const DEFAULT: &str =
    r#"{"gateway":{"mode":"local"},"plugins":{"allow":["@openclaw-china/dingtalk"]}}"#;

fn update(v: JsonValue) -> JsonValue {
    assert!(!config_update_would_panic(&v));
    ensure_config_defaults(v)
}

#[test]
fn default_config_document() {
    assert_eq!(render(&default_config()), DEFAULT);
}

#[test]
fn empty_config_gets_the_defaults() {
    assert_eq!(render(&update(obj(vec![]))), DEFAULT);
    assert_eq!(render(&update(JsonValue::Null)), DEFAULT);
}

#[test]
fn default_config_is_stable_under_the_update() {
    assert_eq!(render(&update(default_config())), DEFAULT);
}

#[test]
fn existing_gateway_mode_is_kept() {
    let v = obj(vec![(
        "gateway",
        obj(vec![("mode", st("remote")), ("port", JsonValue::Number("1".to_string()))]),
    )]);
    assert_eq!(
        render(&update(v)),
        r#"{"gateway":{"mode":"remote","port":1},"plugins":{"allow":["@openclaw-china/dingtalk"]}}"#
    );
}

#[test]
fn gateway_without_mode_gains_local() {
    let v = obj(vec![("gateway", obj(vec![("port", JsonValue::Number("2".to_string()))]))]);
    assert_eq!(
        render(&update(v)),
        r#"{"gateway":{"port":2,"mode":"local"},"plugins":{"allow":["@openclaw-china/dingtalk"]}}"#
    );
}

#[test]
fn allow_list_gains_dingtalk_once() {
    let v = obj(vec![("plugins", obj(vec![("allow", JsonValue::Array(vec![st("x")]))]))]);
    let once = update(v);
    assert_eq!(
        render(&once),
        r#"{"plugins":{"allow":["x","@openclaw-china/dingtalk"]},"gateway":{"mode":"local"}}"#
    );
    let twice = update(once);
    assert_eq!(
        render(&twice),
        r#"{"plugins":{"allow":["x","@openclaw-china/dingtalk"]},"gateway":{"mode":"local"}}"#
    );
}

#[test]
fn allow_that_is_not_an_array_is_replaced() {
    let v = obj(vec![
        ("gateway", obj(vec![("mode", st("local"))])),
        ("plugins", obj(vec![("allow", st("everything")), ("deny", JsonValue::Bool(true))])),
    ]);
    assert_eq!(
        render(&update(v)),
        r#"{"gateway":{"mode":"local"},"plugins":{"allow":["@openclaw-china/dingtalk"],"deny":true}}"#
    );
}

#[test]
fn null_members_become_objects() {
    let v = obj(vec![("gateway", JsonValue::Null), ("plugins", JsonValue::Null)]);
    assert_eq!(render(&update(v)), DEFAULT);
}

#[test]
fn updates_that_would_panic_are_detected() {
    assert!(config_update_would_panic(&JsonValue::Array(vec![])));
    assert!(config_update_would_panic(&st("text")));
    assert!(config_update_would_panic(&obj(vec![("gateway", st("x"))])));
    assert!(config_update_would_panic(&obj(vec![
        ("gateway", obj(vec![("mode", st("local"))])),
        ("plugins", JsonValue::Number("5".to_string())),
    ])));
    // gateway.mode set: a gateway that is an object is never written to
    assert!(!config_update_would_panic(&obj(vec![
        ("gateway", obj(vec![("mode", JsonValue::Number("1".to_string()))])),
        ("plugins", JsonValue::Null),
    ])));
}

fn parsed(text: &str) -> serde_json::Value {
    serde_json::from_str(text).unwrap()
}

const DEFAULT_JSON: &str =
    r#"{"gateway":{"mode":"local"},"plugins":{"allow":["@openclaw-china/dingtalk"]}}"#;

#[test]
fn default_config_file_text() {
    let text = default_config_text().unwrap();
    assert_eq!(parsed(&text), parsed(DEFAULT_JSON));
    // pretty-printed, as serde_json writes it
    assert!(text.contains("\n  \"gateway\": {\n    \"mode\": \"local\"\n  }"));
}

#[test]
fn existing_config_file_is_updated() {
    match update_config_text(r#"{"gateway": {"port": 18789}, "agents": [1, 2.5, -3e2]}"#) {
        ConfigFileUpdate::Updated(text) => assert_eq!(
            parsed(&text),
            parsed(
                r#"{"agents": [1, 2.5, -3e2], "gateway": {"mode": "local", "port": 18789},
                    "plugins": {"allow": ["@openclaw-china/dingtalk"]}}"#
            )
        ),
        other => panic!("unexpected {:?}", other),
    }
}

#[test]
fn config_file_update_is_idempotent() {
    let once = match update_config_text(r#"{"plugins": {"allow": ["x"]}}"#) {
        ConfigFileUpdate::Updated(text) => text,
        other => panic!("unexpected {:?}", other),
    };
    match update_config_text(&once) {
        ConfigFileUpdate::Updated(twice) => assert_eq!(parsed(&twice), parsed(&once)),
        other => panic!("unexpected {:?}", other),
    }
}

#[test]
fn config_file_that_is_not_json_or_unwritable() {
    assert!(matches!(update_config_text("{not json"), ConfigFileUpdate::NotJson));
    assert!(matches!(update_config_text(""), ConfigFileUpdate::NotJson));
    assert!(matches!(update_config_text("[1, 2]"), ConfigFileUpdate::Unwritable));
    assert!(matches!(update_config_text(r#"{"gateway": 5}"#), ConfigFileUpdate::Unwritable));
    assert!(matches!(
        update_config_text(r#"{"gateway": {"mode": "x"}, "plugins": "all"}"#),
        ConfigFileUpdate::Unwritable
    ));
}
