use iii_core::examples::{
    catalog_lines, delay_echo_reply, echo_message, handle_webhook, trigger_type_rows, DelayEchoInput, EchoInput,
    FileEvent, FileWatchConfig, ScheduleTriggerConfig, TriggerTypeRow, WebhookCallRequest, WebhookTriggerConfig,
};
use iii_core::json::JsonValue;
use iii_core::trigger_formats::{
    default_http_method, default_log_level, ConfigurationEventType, HttpMethod, HttpTriggerConfig,
    LogLevel, StateEventType,
};

#[test]
fn wire_names_round_trip() {
    for m in [
        HttpMethod::GET,
        HttpMethod::POST,
        HttpMethod::PUT,
        HttpMethod::DELETE,
        HttpMethod::PATCH,
        HttpMethod::HEAD,
        HttpMethod::OPTIONS,
    ] {
        assert_eq!(HttpMethod::from_wire(m.as_str()), Some(m));
    }
    for e in [StateEventType::Created, StateEventType::Updated, StateEventType::Deleted] {
        assert_eq!(StateEventType::from_wire(e.as_str()), Some(e));
    }
    for e in [
        ConfigurationEventType::Registered,
        ConfigurationEventType::Updated,
        ConfigurationEventType::Deleted,
    ] {
        assert_eq!(ConfigurationEventType::from_wire(e.as_str()), Some(e));
    }
    for l in [LogLevel::All, LogLevel::Debug, LogLevel::Info, LogLevel::Warn, LogLevel::Error] {
        assert_eq!(LogLevel::from_wire(l.as_str()), Some(l));
    }
    for e in [FileEvent::Created, FileEvent::Modified, FileEvent::Deleted] {
        assert_eq!(FileEvent::from_wire(e.as_str()), Some(e));
    }
}

#[test]
fn wire_names_are_the_documented_ones() {
    assert_eq!(StateEventType::Created.as_str(), "state:created");
    assert_eq!(ConfigurationEventType::Updated.as_str(), "configuration:updated");
    assert_eq!(LogLevel::Warn.as_str(), "warn");
    assert_eq!(FileEvent::Modified.as_str(), "modified");
    assert_eq!(HttpMethod::from_wire("get"), None);
    assert_eq!(StateEventType::from_wire("created"), None);
}

#[test]
fn defaults_of_optional_fields() {
    assert_eq!(default_http_method(), Some(HttpMethod::GET));
    assert_eq!(default_log_level(), Some(LogLevel::All));
    let cfg = HttpTriggerConfig {
        api_path: "/users/:id".into(),
        http_method: default_http_method(),
        condition_function_id: None,
    };
    assert_eq!(cfg.http_method, Some(HttpMethod::GET));
    let schedule = ScheduleTriggerConfig {
        at: "2099-01-01T09:00:00Z".into(),
        timezone: Some("America/Sao_Paulo".into()),
        repeat_daily: Some(true),
    };
    assert_eq!(schedule.repeat_daily, Some(true));
    let watch = FileWatchConfig {
        pattern: "/data/incoming/*.csv".into(),
        events: vec![FileEvent::Created, FileEvent::Modified],
    };
    assert_eq!(watch.events.len(), 2);
    let hook = WebhookTriggerConfig { url: "/hook".into(), secret: None, methods: None };
    assert!(hook.methods.is_none());
}

fn text(v: &JsonValue) -> String {
    match v {
        JsonValue::Str(t) => t.clone(),
        JsonValue::Number(t) => t.clone(),
        _ => panic!("not a text"),
    }
}

fn field<'a>(v: &'a JsonValue, key: &str) -> &'a JsonValue {
    match v {
        JsonValue::Object(ms) => &ms.iter().find(|(k, _)| k == key).unwrap().1,
        _ => panic!("not an object"),
    }
}

#[test]
fn echo_repeats_and_uppercases() {
    let r = echo_message(EchoInput { message: "hello".into(), repeat: 2, uppercase: false, prefix: "> ".into() });
    assert_eq!(text(field(&r, "echo")), "> hellohello");
    let r = echo_message(EchoInput { message: "ab".into(), repeat: 3, uppercase: true, prefix: "".into() });
    assert_eq!(text(field(&r, "echo")), "ABABAB");
    let r = echo_message(EchoInput { message: "x".into(), repeat: 0, uppercase: true, prefix: "p".into() });
    assert_eq!(text(field(&r, "echo")), "p");
}

#[test]
fn delay_echo_and_webhook_replies() {
    let r = delay_echo_reply(&DelayEchoInput { message: "hi".into(), delay_ms: 250, suffix: "!".into() });
    assert_eq!(text(field(&r, "echo")), "hi!");
    assert_eq!(text(field(&r, "delayed_ms")), "250");
    let r = handle_webhook(WebhookCallRequest {
        method: "POST".into(),
        headers: vec![],
        body: JsonValue::Bool(true),
        signature_verified: false,
    });
    assert!(matches!(field(&r, "processed"), JsonValue::Bool(true)));
    assert_eq!(text(field(&r, "method")), "POST");
    assert!(matches!(field(&r, "body"), JsonValue::Bool(true)));
}

fn row(id: &str, w: &str, d: &str) -> JsonValue {
    JsonValue::Object(vec![
        ("id".into(), JsonValue::Str(id.into())),
        ("worker_name".into(), JsonValue::Str(w.into())),
        ("description".into(), JsonValue::Str(d.into())),
    ])
}

#[test]
fn trigger_type_catalog() {
    let reply = JsonValue::Object(vec![(
        "triggers".into(),
        JsonValue::Array(vec![row("cron", "iii-cron", "Cron schedules"), row("http", "iii-http", "HTTP routes")]),
    )]);
    let rows = trigger_type_rows(&reply);
    assert_eq!(rows.len(), 2);
    assert_eq!(rows[1].worker_name, "iii-http");
    let lines = catalog_lines(&rows);
    assert_eq!(lines[0], "Found 2 trigger types:\n");
    assert_eq!(lines[1], "  [cron] (iii-cron) Cron schedules");
    assert_eq!(lines[2], "  [http] (iii-http) HTTP routes");
    let broken = JsonValue::Object(vec![(
        "triggers".into(),
        JsonValue::Array(vec![row("cron", "iii-cron", "x"), JsonValue::Null]),
    )]);
    assert!(trigger_type_rows(&broken).is_empty());
    assert!(trigger_type_rows(&JsonValue::Null).is_empty());
    let none: Vec<TriggerTypeRow> = vec![];
    assert_eq!(catalog_lines(&none), vec!["Found 0 trigger types:\n".to_string()]);
}
