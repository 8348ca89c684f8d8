use nova::config::{env_segments, layer_values, resolve_secrets, EnvConfigSource, JsonFileConfigSource, MapSecretSource};
use nova::error::NovaError;
use nova::json::{set_value_at_path, JsonValue};

fn s(v: &str) -> JsonValue {
    JsonValue::String(v.to_string())
}

fn obj(entries: Vec<(&str, JsonValue)>) -> JsonValue {
    JsonValue::Object(entries.into_iter().map(|(k, v)| (k.to_string(), v)).collect())
}

fn get<'a>(v: &'a JsonValue, path: &[&str]) -> Option<&'a JsonValue> {
    let mut cur = v;
    for key in path {
        match cur {
            JsonValue::Object(es) => match es.iter().find(|(k, _)| k == key) {
                Some((_, x)) => cur = x,
                None => return None,
            },
            _ => return None,
        }
    }
    Some(cur)
}

fn as_text(v: Option<&JsonValue>) -> Option<&str> {
    match v {
        Some(JsonValue::String(t)) => Some(t.as_str()),
        Some(JsonValue::Number(t)) => Some(t.as_str()),
        _ => None,
    }
}

fn as_bool(v: Option<&JsonValue>) -> Option<bool> {
    match v {
        Some(JsonValue::Bool(b)) => Some(*b),
        _ => None,
    }
}

#[test]
fn layers_env_over_file_over_defaults() {
    let defaults = obj(vec![
        ("host", s("default-host")),
        ("port", JsonValue::Number("8080".to_string())),
        ("nested", obj(vec![("enabled", JsonValue::Bool(true))])),
        ("secret", s("default-secret")),
    ]);
    let file = obj(vec![
        ("host", s("file-host")),
        ("nested", obj(vec![("enabled", JsonValue::Bool(false))])),
        ("secret", s("secret://api_key")),
    ]);
    let secrets = MapSecretSource::new(vec![("api_key".to_string(), "resolved-secret".to_string())]);

    let merged = layer_values(Some(defaults), vec![file]);
    let config = resolve_secrets(merged, &[secrets]).expect("build config");

    assert_eq!(as_text(get(&config, &["host"])), Some("file-host"));
    assert_eq!(as_text(get(&config, &["port"])), Some("8080"));
    assert_eq!(as_bool(get(&config, &["nested", "enabled"])), Some(false));
    assert_eq!(as_text(get(&config, &["secret"])), Some("resolved-secret"));
}

#[test]
fn env_source_supports_nested_paths() {
    let source = EnvConfigSource::new("NOVA_TEST".to_string());

    let mut root = source.load_vars(Vec::new());
    set_value_at_path(&mut root, &["nested".to_string(), "enabled".to_string()], JsonValue::Bool(true));

    assert_eq!(as_bool(get(&root, &["nested", "enabled"])), Some(true));
}

#[test]
fn env_variables_map_to_lowercase_paths() {
    let source = EnvConfigSource::new("nova".to_string());
    let root = source.load_vars(vec![
        ("NOVA_SERVER__PORT".to_string(), JsonValue::Number("9000".to_string())),
        ("NOVA_NAME".to_string(), s("svc")),
        ("OTHER_THING".to_string(), s("ignored")),
        ("NOVA_SERVER__PORT".to_string(), JsonValue::Number("9001".to_string())),
    ]);
    assert_eq!(as_text(get(&root, &["server", "port"])), Some("9001"));
    assert_eq!(as_text(get(&root, &["name"])), Some("svc"));
    assert!(get(&root, &["other_thing"]).is_none());
}

#[test]
fn later_layers_win_and_unresolved_secret_fails() {
    let merged = layer_values(None, vec![obj(vec![("a", s("1"))]), obj(vec![("a", s("2")), ("b", s("3"))])]);
    assert_eq!(as_text(get(&merged, &["a"])), Some("2"));
    assert_eq!(as_text(get(&merged, &["b"])), Some("3"));

    let none: [MapSecretSource; 0] = [];
    match resolve_secrets(obj(vec![("k", s("secret://missing"))]), &none) {
        Err(NovaError::NotFound(m)) => assert_eq!(m, "secret 'missing' was not resolved"),
        Err(other) => panic!("unexpected {:?}", other),
        Ok(_) => panic!("an unknown secret must not resolve"),
    }
    let file = JsonFileConfigSource::new("/etc/nova.json".to_string());
    assert_eq!(file.path(), "/etc/nova.json");
}

#[test]
fn env_segments_split_after_the_prefix() {
    assert_eq!(
        env_segments("NOVA", "NOVA__SERVER____PORT"),
        Some(vec!["SERVER".to_string(), "PORT".to_string()])
    );
    assert_eq!(env_segments("NOVA", "NOVA_NAME"), Some(vec!["NAME".to_string()]));
    assert_eq!(env_segments("NOVA", "OTHER_NAME"), None);
    assert_eq!(env_segments("NOVA", "NOVA___"), None);
    assert_eq!(env_segments("NOVA", "NOVA_"), None);
}
