use iii_core::json::JsonValue;
use iii_core::payload::{is_sensitive_key, redact, redact_and_truncate, truncate_serialized, REDACTED_PLACEHOLDER};

const TRUNCATION_MARKER: &str = "...\"[TRUNCATED]\"";

fn s(t: &str) -> JsonValue {
    JsonValue::Str(t.to_string())
}

fn obj(pairs: Vec<(&str, JsonValue)>) -> JsonValue {
    JsonValue::Object(pairs.into_iter().map(|(k, v)| (k.to_string(), v)).collect())
}

fn get<'a>(v: &'a JsonValue, key: &str) -> &'a JsonValue {
    v.get(key).expect("member present")
}

fn is_str(v: &JsonValue, t: &str) -> bool {
    matches!(v, JsonValue::Str(x) if x == t)
}

#[test]
fn redacts_top_level_sensitive_keys() {
    let input = obj(vec![("api_key", s("sk-abc123")), ("model", s("model-3-5"))]);
    let out = redact(&input);
    assert!(is_str(get(&out, "api_key"), "[REDACTED]"));
    assert!(is_str(get(&out, "model"), "model-3-5"));
}

#[test]
fn redacts_nested_sensitive_keys() {
    let input = obj(vec![
        (
            "headers",
            obj(vec![("Authorization", s("Bearer xyz")), ("Content-Type", s("application/json"))]),
        ),
        ("config", obj(vec![("secret", s("hush"))])),
    ]);
    let out = redact(&input);
    assert!(is_str(get(get(&out, "headers"), "Authorization"), "[REDACTED]"));
    assert!(is_str(get(get(&out, "headers"), "Content-Type"), "application/json"));
    assert!(is_str(get(get(&out, "config"), "secret"), "[REDACTED]"));
}

#[test]
fn redacts_inside_arrays() {
    let input = obj(vec![(
        "accounts",
        JsonValue::Array(vec![
            obj(vec![("access_token", s("a")), ("user", s("alice"))]),
            obj(vec![("access_token", s("b")), ("user", s("bob"))]),
        ]),
    )]);
    let out = redact(&input);
    let accounts = get(&out, "accounts").as_array().unwrap();
    assert!(is_str(get(&accounts[0], "access_token"), "[REDACTED]"));
    assert!(is_str(get(&accounts[0], "user"), "alice"));
    assert!(is_str(get(&accounts[1], "access_token"), "[REDACTED]"));
    assert!(is_str(get(&accounts[1], "user"), "bob"));
}

#[test]
fn sensitive_parent_key_redacts_entire_subtree() {
    let input = obj(vec![(
        "credentials",
        JsonValue::Array(vec![obj(vec![("username", s("alice")), ("token", s("a"))])]),
    )]);
    let out = redact(&input);
    assert!(is_str(get(&out, "credentials"), "[REDACTED]"));
}

#[test]
fn case_insensitive_match() {
    let input = obj(vec![("API_KEY", s("x")), ("PassWord", s("y")), ("client_SECRET", s("z"))]);
    let out = redact(&input);
    assert!(is_str(get(&out, "API_KEY"), "[REDACTED]"));
    assert!(is_str(get(&out, "PassWord"), "[REDACTED]"));
    assert!(is_str(get(&out, "client_SECRET"), "[REDACTED]"));
}

#[test]
fn token_alone_matched_but_not_substring() {
    let input = obj(vec![
        ("token", s("tok-1")),
        ("id_token", s("tok-2")),
        ("notification", s("ping")),
        ("function_id", s("do_thing")),
    ]);
    let out = redact(&input);
    assert!(is_str(get(&out, "token"), "[REDACTED]"));
    assert!(is_str(get(&out, "id_token"), "[REDACTED]"));
    assert!(is_str(get(&out, "notification"), "ping"));
    assert!(is_str(get(&out, "function_id"), "do_thing"));
    assert!(is_sensitive_key("x-token"));
    assert!(!is_sensitive_key("tokens"));
    assert_eq!(REDACTED_PLACEHOLDER, "[REDACTED]");
}

#[test]
fn redacting_twice_is_redacting_once() {
    let input = obj(vec![
        ("password", s("p")),
        ("nested", JsonValue::Array(vec![obj(vec![("Bearer", JsonValue::Bool(true))])])),
    ]);
    let once = redact(&input);
    let twice = redact(&once);
    assert!(iii_core::json::json_eq(&once, &twice));
}

#[test]
fn no_truncation_when_under_limit() {
    let input = obj(vec![("model", s("model-3-5"))]);
    let (out, truncated) = redact_and_truncate(&input, Some(4096));
    assert!(!truncated);
    assert!(!out.ends_with(TRUNCATION_MARKER));
}

#[test]
fn truncates_when_over_limit() {
    let input = obj(vec![("blob", s(&"x".repeat(8192)))]);
    let (out, truncated) = redact_and_truncate(&input, Some(4096));
    assert!(truncated);
    assert!(out.ends_with(TRUNCATION_MARKER));
    assert!(out.len() <= 4096);
}

#[test]
fn truncation_respects_max_bytes_below_marker_length() {
    let input = obj(vec![("blob", s(&"x".repeat(100)))]);
    for max in 1..TRUNCATION_MARKER.len() {
        let (out, truncated) = redact_and_truncate(&input, Some(max));
        assert!(truncated);
        assert!(out.len() <= max, "max={max} got len={}: {out:?}", out.len());
    }
}

#[test]
fn never_truncates_when_max_is_none() {
    let input = obj(vec![("blob", s(&"x".repeat(1_000_000)))]);
    let (out, truncated) = redact_and_truncate(&input, None);
    assert!(!truncated);
    assert!(!out.ends_with(TRUNCATION_MARKER));
    assert!(out.len() > 1_000_000);
}

#[test]
fn truncation_preserves_utf8_boundaries() {
    let input = obj(vec![("v", s(&"aéaéaéaé".repeat(2000)))]);
    let (out, truncated) = redact_and_truncate(&input, Some(100));
    assert!(truncated);
    assert!(out.is_char_boundary(out.len()));
    assert!(out.len() <= 100);
}

#[test]
fn redaction_runs_before_truncation() {
    let input = obj(vec![("api_key", s("sk-must-not-leak")), ("blob", s(&"x".repeat(8192)))]);
    let (out, _) = redact_and_truncate(&input, Some(4096));
    assert!(!out.contains("sk-must-not-leak"));
    assert!(out.contains("[REDACTED]"));
}

#[test]
fn exact_truncation_shapes() {
    assert_eq!(truncate_serialized("abcdef", Some(6)), ("abcdef".to_string(), false));
    assert_eq!(truncate_serialized("abcdef", Some(3)), ("...".to_string(), true));
    let long = "y".repeat(30);
    let (out, t) = truncate_serialized(&long, Some(20));
    assert!(t);
    assert_eq!(out, format!("yyyy{TRUNCATION_MARKER}"));
}
