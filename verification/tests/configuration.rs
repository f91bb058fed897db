use iii_core::configuration::ReadSource;
use iii_core::schema::validate_against_schema;
use iii_core::configuration::{condition_allows, external_change_event};
use iii_core::configuration::{registration_outcome, set_outcome};
use iii_core::configuration::{relay_change, remote_delete_error, remote_entry, remote_set_values, BRIDGE_CALL_TIMEOUT_MS, RELAY_FUNCTION_ID};
use iii_core::trigger_formats::ConfigurationCallRequest;
use iii_core::configuration::{
    adapter_directory, entry_file_name, expand_value, get_result, handler_step,
    id_from_file_name, register_event_type, schema_failure, store_error_to_failure,
    validate_id, value_resolvable, watch_diff, ConfigurationCache, ConfigurationEntry,
    ConfigurationModuleConfig, ConfigurationTrigger, ConfigurationTriggerConfig,
    ConfigurationTriggers, ExternalChange, HandlerStep, RegisterKind, StoreError, Trigger,
};
use iii_core::env_expand::EnvVars;
use iii_core::json::JsonValue;
use iii_core::trigger_formats::ConfigurationEventType;

fn s(t: &str) -> JsonValue {
    JsonValue::Str(t.to_string())
}

fn n(t: &str) -> JsonValue {
    JsonValue::Number(t.to_string())
}

fn obj(pairs: Vec<(&str, JsonValue)>) -> JsonValue {
    JsonValue::Object(pairs.into_iter().map(|(k, v)| (k.to_string(), v)).collect())
}

fn get<'a>(v: &'a JsonValue, key: &str) -> &'a JsonValue {
    v.get(key).expect("member present")
}

fn is_str(v: &JsonValue, t: &str) -> bool {
    matches!(v, JsonValue::Str(x) if x == t)
}

fn env(pairs: &[(&str, &str)]) -> EnvVars {
    EnvVars { vars: pairs.iter().map(|(k, v)| (k.to_string(), v.to_string())).collect() }
}

fn entry(id: &str, value: JsonValue) -> ConfigurationEntry {
    ConfigurationEntry {
        id: id.into(),
        name: format!("{id} name"),
        description: "d".into(),
        schema: obj(vec![("type", s("object"))]),
        value,
        metadata: None,
    }
}

fn trigger(id: &str, configuration_id: Option<&str>) -> ConfigurationTrigger {
    ConfigurationTrigger {
        config: ConfigurationTriggerConfig {
            configuration_id: configuration_id.map(String::from),
            ..ConfigurationTriggerConfig::default()
        },
        trigger: Trigger {
            id: id.into(),
            trigger_type: "configuration".into(),
            function_id: format!("f::{id}"),
            config: JsonValue::Null,
            worker_id: None,
            metadata: None,
        },
    }
}

#[test]
fn default_config_has_no_adapter_and_zero_ttl() {
    let config = ConfigurationModuleConfig::default();
    assert!(config.adapter.is_none());
    assert_eq!(config.ttl_seconds, 0);
}

#[test]
fn validate_id_rejects_uppercase_and_long_ids() {
    assert!(matches!(validate_id("UPPER"), Err(StoreError::InvalidId(_))));
    let long = "a".repeat(65);
    assert!(matches!(validate_id(&long), Err(StoreError::InvalidId(_))));
    assert!(validate_id("iii-stream").is_ok());
    assert!(validate_id("a_b-c-1").is_ok());
    assert!(validate_id(&"a".repeat(64)).is_ok());
    assert!(validate_id("").is_err());
    assert!(validate_id("é").is_err());
}

#[test]
fn store_errors_report_codes_and_messages() {
    let e = store_error_to_failure(StoreError::NotRegistered("x".into()));
    assert_eq!(e.code, "NOT_REGISTERED");
    assert_eq!(e.message, "configuration 'x' is not registered; call configuration::register first");
    let e = store_error_to_failure(StoreError::InvalidId("Bad".into()));
    assert_eq!(e.code, "INVALID_ID");
    assert_eq!(e.message, "invalid configuration id 'Bad': must match [a-z0-9_-]{1,64}");
    let e = store_error_to_failure(schema_failure(&vec!["a".into(), "b".into()]));
    assert_eq!(e.code, "SCHEMA_INVALID");
    assert_eq!(e.message, "schema validation failed: a; b");
    let e = store_error_to_failure(StoreError::Adapter("disk full".into()));
    assert_eq!(e.code, "ADAPTER_ERROR");
    assert_eq!(e.message, "disk full");
}

#[test]
fn expand_value_replaces_env_var_in_string() {
    let vars = env(&[("CFG_TEST_HOST", "db.local")]);
    let input = obj(vec![("host", s("${CFG_TEST_HOST:fallback}")), ("port", n("5432"))]);
    assert!(value_resolvable(&input, &vars));
    let expanded = expand_value(&input, &vars, "1.0.0");
    assert!(is_str(get(&expanded, "host"), "db.local"));
    assert!(matches!(get(&expanded, "port"), JsonValue::Number(x) if x == "5432"));
}

#[test]
fn expand_value_uses_default_when_var_missing() {
    let input = obj(vec![("url", s("${CFG_TEST_MISSING:http://default}"))]);
    assert!(is_str(get(&expand_value(&input, &env(&[]), "1.0.0"), "url"), "http://default"));
}

#[test]
fn expand_value_walks_arrays_and_nested_objects() {
    let vars = env(&[("CFG_TEST_NAME", "alice")]);
    let input = obj(vec![(
        "users",
        JsonValue::Array(vec![
            obj(vec![("name", s("${CFG_TEST_NAME:?}"))]),
            obj(vec![("name", s("static"))]),
        ]),
    )]);
    let out = expand_value(&input, &vars, "1.0.0");
    let users = get(&out, "users").as_array().unwrap();
    assert!(is_str(get(&users[0], "name"), "alice"));
    assert!(is_str(get(&users[1], "name"), "static"));
}

#[test]
fn expand_value_passes_non_string_scalars_through() {
    let input = obj(vec![("n", n("42")), ("b", JsonValue::Bool(true)), ("nil", JsonValue::Null)]);
    let out = expand_value(&input, &env(&[]), "1.0.0");
    assert!(iii_core::json::json_eq(&out, &input));
}

#[test]
fn unresolvable_value_is_detected() {
    let input = JsonValue::Array(vec![s("ok"), obj(vec![("k", s("${NOPE}"))])]);
    assert!(!value_resolvable(&input, &env(&[])));
    assert!(value_resolvable(&input, &env(&[("NOPE", "1")])));
}

#[test]
fn config_defaults_match_optional_filters() {
    let cfg = ConfigurationTriggerConfig::default();
    assert!(cfg.configuration_id.is_none());
    assert!(cfg.event_types.is_none());
    assert!(cfg.condition_function_id.is_none());
}

#[test]
fn register_then_unregister_drains_per_id_slot() {
    let mut triggers = ConfigurationTriggers::new();
    let aborted = triggers.register(trigger("t-1", Some("iii-stream")));
    assert!(!aborted);
    assert_eq!(triggers.id_trigger_count("iii-stream"), 1);
    let schedule = triggers.unregister("t-1", Some("iii-stream"), 0);
    assert!(!schedule);
    assert_eq!(triggers.id_trigger_count("iii-stream"), 0);
    assert!(!triggers.has_pending_expiry("iii-stream"));
}

#[test]
fn ttl_countdown_starts_when_last_trigger_unregistered() {
    let mut triggers = ConfigurationTriggers::new();
    triggers.register(trigger("t-a", Some("iii-stream")));
    triggers.register(trigger("t-b", Some("iii-stream")));
    assert!(!triggers.unregister("t-a", Some("iii-stream"), 1));
    assert!(!triggers.has_pending_expiry("iii-stream"));
    assert!(triggers.unregister("t-b", Some("iii-stream"), 1));
    assert!(triggers.has_pending_expiry("iii-stream"));
}

#[test]
fn ttl_countdown_aborts_on_re_register() {
    let mut triggers = ConfigurationTriggers::new();
    triggers.register(trigger("t-a", Some("iii-stream")));
    assert!(triggers.unregister("t-a", Some("iii-stream"), 1));
    assert!(triggers.has_pending_expiry("iii-stream"));
    let aborted = triggers.register(trigger("t-b", Some("iii-stream")));
    assert!(aborted);
    assert!(!triggers.has_pending_expiry("iii-stream"));
}

#[test]
fn abort_all_expiries_cancels_every_countdown() {
    let mut triggers = ConfigurationTriggers::new();
    triggers.register(trigger("t-a", Some("a")));
    triggers.register(trigger("t-b", Some("b")));
    triggers.unregister("t-a", Some("a"), 5);
    triggers.unregister("t-b", Some("b"), 5);
    let mut ids = triggers.abort_all_expiries();
    ids.sort();
    assert_eq!(ids, vec!["a".to_string(), "b".to_string()]);
    assert!(!triggers.has_pending_expiry("a"));
    assert!(!triggers.has_pending_expiry("b"));
}

#[test]
fn matching_collapses_global_and_per_id_buckets() {
    let mut triggers = ConfigurationTriggers::new();
    triggers.register(trigger("g-1", None));
    triggers.register(trigger("p-1", Some("iii-stream")));
    let matched = triggers.matching("iii-stream");
    assert_eq!(matched.len(), 2);
    let unmatched = triggers.matching("other");
    assert_eq!(unmatched.len(), 1);
    assert_eq!(unmatched[0].trigger.id, "g-1");
}

#[test]
fn fan_out_filters_by_event_type_and_condition() {
    let mut t = trigger("t", Some("x"));
    assert!(matches!(handler_step(&t, "configuration:updated"), HandlerStep::Invoke));
    t.config.event_types = Some(vec!["configuration:deleted".into()]);
    assert!(matches!(handler_step(&t, "configuration:updated"), HandlerStep::Skip));
    t.config.condition_function_id = Some("cond::check".into());
    assert!(matches!(handler_step(&t, "configuration:deleted"), HandlerStep::CheckCondition(c) if c == "cond::check"));
    assert_eq!(register_event_type(RegisterKind::Created), ConfigurationEventType::Registered);
    assert_eq!(register_event_type(RegisterKind::Replaced), ConfigurationEventType::Updated);
}

#[test]
fn cache_lists_entries_sorted_without_value() {
    let mut cache = ConfigurationCache::new();
    cache.record(entry("zeta", s("z")));
    cache.record(entry("alpha", s("a")));
    cache.record(entry("mid", s("m")));
    let list = cache.list();
    let ids: Vec<&str> = list.iter().map(|v| v.id.as_str()).collect();
    assert_eq!(ids, vec!["alpha", "mid", "zeta"]);
    assert_eq!(list[0].name, "alpha name");
    assert!(cache.schema_view("nope").is_none());
}

#[test]
fn register_keeps_existing_value_when_initial_omitted() {
    let mut cache = ConfigurationCache::new();
    let (e, validate) = cache
        .prepare_register("cfg".into(), "n".into(), "d".into(), JsonValue::Null, None, None)
        .unwrap();
    assert!(matches!(e.value, JsonValue::Null));
    assert!(!validate, "the null placeholder of a new entry is not checked");
    cache.record(entry("cfg", s("kept")));
    let (e, validate) = cache
        .prepare_register("cfg".into(), "n2".into(), "d2".into(), JsonValue::Null, None, None)
        .unwrap();
    assert!(is_str(&e.value, "kept"));
    assert!(validate);
    assert!(matches!(
        cache.prepare_register("Bad".into(), "n".into(), "d".into(), JsonValue::Null, None, None),
        Err(StoreError::InvalidId(_))
    ));
    assert!(matches!(cache.prepare_set("missing"), Err(StoreError::NotRegistered(_))));
    assert!(cache.prepare_set("cfg").is_ok());
}

#[test]
fn get_expands_unless_raw() {
    let e = entry("db", obj(vec![("host", s("${DB_HOST:localhost}"))]));
    let (_, v) = get_result(Some(&e), "db", false, &env(&[]), "1").unwrap();
    assert!(is_str(get(&v, "host"), "localhost"));
    let (_, v) = get_result(Some(&e), "db", true, &env(&[]), "1").unwrap();
    assert!(is_str(get(&v, "host"), "${DB_HOST:localhost}"));
    let err = get_result(None, "nope", false, &env(&[]), "1").unwrap_err();
    assert_eq!(err.code, "NOT_FOUND");
    assert_eq!(err.message, "configuration 'nope' not found");
}

#[test]
fn id_from_path_extracts_stem() {
    assert_eq!(id_from_file_name("iii-stream.yaml"), Some("iii-stream".to_string()));
    assert_eq!(id_from_file_name("no_ext"), None);
    assert_eq!(id_from_file_name(".yaml"), None);
    assert_eq!(entry_file_name("iii-stream"), "iii-stream.yaml");
}

#[test]
fn adapter_directory_defaults() {
    assert_eq!(adapter_directory(&None), "./data/configuration");
    let cfg = obj(vec![("directory", s("/tmp/cfg"))]);
    assert_eq!(adapter_directory(&Some(cfg)), "/tmp/cfg");
}

#[test]
fn watcher_diff_reports_created_updated_and_deleted() {
    let mut cache = ConfigurationCache::new();
    cache.record(entry("same", s("1")));
    cache.record(entry("changed", s("old")));
    cache.record(entry("gone", s("x")));
    let mut snapshot = ConfigurationCache::new();
    snapshot.record(entry("same", s("1")));
    snapshot.record(entry("changed", s("new")));
    snapshot.record(entry("fresh", s("f")));
    let changes = watch_diff(&cache, &snapshot);
    assert_eq!(changes.len(), 3);
    let mut kinds: Vec<(String, &str)> = changes
        .iter()
        .map(|c| match c {
            ExternalChange::Registered(e) => (e.id.clone(), "registered"),
            ExternalChange::Updated { entry, old_value } => {
                assert!(matches!(old_value, Some(JsonValue::Str(t)) if t == "old"));
                (entry.id.clone(), "updated")
            }
            ExternalChange::Deleted { entry } => (entry.id.clone(), "deleted"),
        })
        .collect();
    kinds.sort();
    assert_eq!(
        kinds,
        vec![
            ("changed".to_string(), "updated"),
            ("fresh".to_string(), "registered"),
            ("gone".to_string(), "deleted"),
        ]
    );
    for c in changes {
        cache.apply_external(c);
    }
    assert!(cache.get("gone").is_none());
    assert!(is_str(&cache.get("changed").unwrap().value, "new"));
    assert!(cache.get("fresh").is_some());
}

#[test]
fn registration_and_set_outcomes() {
    let mut cache = ConfigurationCache::new();
    let (kind, prior) = registration_outcome(&cache, &entry("a", n("1")));
    assert_eq!(kind, RegisterKind::Created);
    assert!(prior.is_none());
    cache.record(entry("a", n("1")));
    let (kind, prior) = registration_outcome(&cache, &entry("a", n("2")));
    assert_eq!(kind, RegisterKind::Replaced);
    assert!(matches!(prior, Some(JsonValue::Number(ref t)) if t == "1"));
    let (updated, old) = set_outcome(&cache, "a", n("5")).unwrap();
    assert!(matches!(updated.value, JsonValue::Number(ref t) if t == "5"));
    assert_eq!(updated.name, "a name");
    assert!(matches!(old, Some(JsonValue::Number(ref t)) if t == "1"));
    assert_eq!(set_outcome(&cache, "b", n("5")).unwrap_err(), "configuration 'b' not registered");
}

#[test]
fn bridge_relay_and_remote_reads() {
    assert_eq!(RELAY_FUNCTION_ID, "configuration::__bridge_relay");
    assert_eq!(BRIDGE_CALL_TIMEOUT_MS, 30000);
    let event = ConfigurationCallRequest {
        message_type: "configuration".into(),
        event_type: ConfigurationEventType::Updated,
        id: "iii-stream".into(),
        name: "Stream".into(),
        description: "d".into(),
        schema: JsonValue::Null,
        old_value: Some(n("1")),
        new_value: Some(n("2")),
        metadata: None,
    };
    match relay_change(event) {
        ExternalChange::Updated { entry, old_value } => {
            assert_eq!(entry.id, "iii-stream");
            assert!(matches!(entry.value, JsonValue::Number(ref t) if t == "2"));
            assert!(matches!(old_value, Some(JsonValue::Number(ref t)) if t == "1"));
        }
        _ => panic!("expected an update"),
    }
    let value_resp = obj(vec![("value", n("7"))]);
    let schema_resp = obj(vec![("name", s("Stream")), ("schema", obj(vec![])), ("metadata", s("m"))]);
    let e = remote_entry("iii-stream", &value_resp, &schema_resp);
    assert_eq!(e.name, "Stream");
    assert_eq!(e.description, "");
    assert!(matches!(e.value, JsonValue::Number(ref t) if t == "7"));
    assert!(matches!(e.metadata, Some(JsonValue::Str(ref t)) if t == "m"));
    let (old, new) = remote_set_values(&obj(vec![("new_value", n("3"))])).unwrap();
    assert!(old.is_none());
    assert!(matches!(new, JsonValue::Number(ref t) if t == "3"));
    assert_eq!(remote_set_values(&obj(vec![])).unwrap_err(), "remote set response missing 'new_value'");
    assert!(remote_delete_error().starts_with("bridge adapter cannot delete configurations"));
}

#[test]
fn applying_watch_diff_syncs_cache_with_directory() {
    let mut cache = ConfigurationCache::new();
    cache.record(entry("same", s("1")));
    cache.record(entry("changed", s("old")));
    cache.record(entry("gone", s("x")));
    let mut snapshot = ConfigurationCache::new();
    snapshot.record(entry("same", s("1")));
    snapshot.record(entry("changed", s("new")));
    snapshot.record(entry("fresh", s("f")));
    for change in watch_diff(&cache, &snapshot) {
        cache.apply_external(change);
    }
    let ids: Vec<String> = cache.list().into_iter().map(|v| v.id).collect();
    assert_eq!(ids, vec!["changed".to_string(), "fresh".to_string(), "same".to_string()]);
    assert!(is_str(&cache.get("changed").unwrap().value, "new"));
    assert!(is_str(&cache.get("fresh").unwrap().value, "f"));
    assert!(cache.get("gone").is_none());
    assert!(watch_diff(&cache, &snapshot).is_empty());
}

#[test]
fn condition_answers() {
    assert!(condition_allows(&Ok(true)));
    assert!(!condition_allows(&Ok(false)));
    assert!(!condition_allows(&Err("boom".to_string())));
}

#[test]
fn external_changes_become_events() {
    let vars = env(&[("HOST", "h.local")]);
    let registered = ExternalChange::Registered(entry("iii-stream", s("${HOST}")));
    let ev = external_change_event(&registered, &vars, "1.0.0");
    assert_eq!(ev.event_type, ConfigurationEventType::Registered);
    assert_eq!(ev.id, "iii-stream");
    assert!(ev.old_value.is_none());
    assert!(matches!(ev.new_value, Some(JsonValue::Str(ref t)) if t == "h.local"));
    let updated = ExternalChange::Updated { entry: entry("iii-stream", s("new")), old_value: Some(s("${HOST}")) };
    let ev = external_change_event(&updated, &vars, "1.0.0");
    assert_eq!(ev.event_type, ConfigurationEventType::Updated);
    assert!(matches!(ev.old_value, Some(JsonValue::Str(ref t)) if t == "h.local"));
    let deleted = ExternalChange::Deleted { entry: entry("iii-stream", s("x")) };
    let ev = external_change_event(&deleted, &vars, "1.0.0");
    assert_eq!(ev.event_type, ConfigurationEventType::Deleted);
}

#[test]
fn priming_replaces_the_cache() {
    let mut cache = ConfigurationCache::new();
    cache.record(entry("old", n("1")));
    cache.prime(vec![entry("a", n("1")), entry("b", n("2")), entry("a", n("3"))]);
    assert!(cache.get("old").is_none());
    assert!(matches!(cache.get("a").unwrap().value, JsonValue::Number(ref t) if t == "3"));
    assert!(matches!(cache.get("b").unwrap().value, JsonValue::Number(ref t) if t == "2"));
}

fn port_schema() -> JsonValue {
    obj(vec![
        ("type", s("object")),
        ("required", JsonValue::Array(vec![s("port")])),
        ("properties", obj(vec![("port", obj(vec![("type", s("integer"))]))])),
    ])
}

#[test]
fn validate_against_schema_passes_valid_value() {
    let schema = port_schema();
    assert!(validate_against_schema(&obj(vec![("port", n("3112"))]), &schema).is_ok());
}

#[test]
fn validate_against_schema_rejects_invalid_value() {
    let schema = port_schema();
    let err = validate_against_schema(&obj(vec![("port", s("nope"))]), &schema).expect_err("string is not integer");
    assert!(!err.is_empty());
}

#[test]
fn invalid_schema_is_reported() {
    let schema = obj(vec![("type", n("12"))]);
    let err = validate_against_schema(&JsonValue::Null, &schema).expect_err("schema does not compile");
    assert_eq!(err.len(), 1);
    assert!(err[0].starts_with("invalid JSON Schema: "));
}

#[test]
fn checked_register_and_set() {
    let cache = ConfigurationCache::new();
    let placeholder = cache
        .checked_register("iii-stream".into(), "Stream".into(), "d".into(), port_schema(), None, None)
        .unwrap();
    assert!(matches!(placeholder.value, JsonValue::Null));
    let bad = cache.checked_register(
        "iii-stream".into(),
        "Stream".into(),
        "d".into(),
        port_schema(),
        Some(obj(vec![("port", s("x"))])),
        None,
    );
    assert!(matches!(bad, Err(StoreError::SchemaInvalid(_))));
    assert!(matches!(
        cache.checked_register("Bad Id".into(), "n".into(), "d".into(), port_schema(), None, None),
        Err(StoreError::InvalidId(_))
    ));
    let mut cache = cache;
    cache.record(placeholder);
    let updated = cache.checked_set("iii-stream", obj(vec![("port", n("1"))])).unwrap();
    assert_eq!(updated.name, "Stream");
    assert!(matches!(cache.checked_set("iii-stream", s("x")), Err(StoreError::SchemaInvalid(_))));
    assert!(matches!(cache.checked_set("missing", s("x")), Err(StoreError::NotRegistered(_))));
}

#[test]
fn reads_fall_back_to_the_adapter_on_a_miss() {
    let mut cache = ConfigurationCache::new();
    cache.record(entry("cached", s("here")));
    assert_eq!(cache.read_source("cached"), ReadSource::Cache);
    assert_eq!(cache.read_source("remote"), ReadSource::Adapter);
    let hit = cache.read_answer("cached", Some(entry("cached", s("stale")))).unwrap();
    assert!(is_str(&hit.value, "here"));
    let miss = cache.read_answer("remote", Some(entry("remote", s("fetched")))).unwrap();
    assert!(is_str(&miss.value, "fetched"));
    assert!(cache.read_answer("absent", None).is_none());
}

#[test]
fn set_reports_schema_errors_joined() {
    let mut cache = ConfigurationCache::new();
    let mut e = entry("port", JsonValue::Number("1".into()));
    e.schema = obj(vec![("type", s("integer"))]);
    cache.record(e);
    match cache.checked_set("port", s("eighty")) {
        Err(StoreError::SchemaInvalid(m)) => assert!(!m.is_empty()),
        _ => panic!("a string is not an integer"),
    }
    let mut bad = entry("odd", JsonValue::Null);
    bad.schema = obj(vec![("type", JsonValue::Number("12".into()))]);
    cache.record(bad);
    match cache.checked_set("odd", s("x")) {
        Err(StoreError::SchemaInvalid(m)) => assert!(m.starts_with("invalid JSON Schema: ")),
        _ => panic!("the schema does not compile"),
    }
    assert!(cache.checked_set("port", JsonValue::Number("80".into())).is_ok());
}
