use iii_core::engine_config::{start_failures, teardown_plan, TeardownKind};
use iii_core::engine_config::{event_requests_reload, watch_target, FsEventKind};
use iii_core::engine_config::{destroy_outcome, serve_result, serve_step, ServeAction, ServeEvent};
use iii_core::engine_config::{
    assign_instance_ids, create_failure, resolve_worker_manager_port, runtime_worker_summary, worker_source,
    Engine, EngineConfig, WorkerEntry, WorkerSource, DEFAULT_PORT,
};
use iii_core::env_expand::{find_unresolved, EnvVars};

fn env(pairs: &[(&str, &str)]) -> EnvVars {
    EnvVars { vars: pairs.iter().map(|(k, v)| (k.to_string(), v.to_string())).collect() }
}

fn expand(input: &str, vars: &EnvVars) -> String {
    EngineConfig::expand_env_vars(input, vars, "0.9.0")
}

fn entry(name: &str) -> WorkerEntry {
    WorkerEntry { name: name.into(), image: None, config: None }
}

#[test]
fn engine_worker_manager_port_defaults_to_default_port() {
    let engine = Engine::new();
    assert_eq!(
        engine.worker_manager_port(),
        DEFAULT_PORT,
        "fresh Engine must default to DEFAULT_PORT"
    );
}

#[test]
fn engine_worker_manager_port_is_set_once() {
    let mut engine = Engine::new();
    engine.set_worker_manager_port(49199);
    engine.set_worker_manager_port(50000); // ignored
    assert_eq!(
        engine.worker_manager_port(),
        49199,
        "second set_worker_manager_port must be a no-op"
    );
}

#[test]
fn worker_manager_port_comes_from_first_parsed_manager_entry() {
    let workers = vec![entry("a"), entry("iii-worker-manager"), entry("iii-worker-manager")];
    assert_eq!(resolve_worker_manager_port(&workers, &vec![None, Some(49199), Some(1)]), 49199);
    assert_eq!(resolve_worker_manager_port(&workers, &vec![None, None, Some(1)]), 1);
    assert_eq!(resolve_worker_manager_port(&workers, &vec![Some(5), None, None]), DEFAULT_PORT);
    assert_eq!(resolve_worker_manager_port(&vec![entry("a")], &vec![Some(7)]), DEFAULT_PORT);
}

#[test]
fn test_ensure_builtin_daemons_is_idempotent() {
    let mut config = EngineConfig { modules: Vec::new(), workers: vec![entry("iii-worker-ops")] };
    config.ensure_builtin_daemons(false, true);
    config.ensure_builtin_daemons(false, true);
    let count = config.workers.iter().filter(|w| w.name == "iii-worker-ops").count();
    assert_eq!(count, 1, "must not duplicate user-declared entries");
}

#[test]
fn builtin_daemon_injected_once_when_binary_found() {
    let mut config = EngineConfig { modules: Vec::new(), workers: Vec::new() };
    config.ensure_builtin_daemons(false, true);
    config.ensure_builtin_daemons(false, true);
    assert_eq!(config.workers.iter().filter(|w| w.name == "iii-worker-ops").count(), 1);
    let mut config = EngineConfig { modules: Vec::new(), workers: Vec::new() };
    config.ensure_builtin_daemons(true, true);
    assert!(config.workers.is_empty());
    config.ensure_builtin_daemons(false, false);
    assert!(config.workers.is_empty());
}

#[test]
fn duplicate_worker_names_get_distinct_instance_names() {
    let mut entries = vec![entry("w"), entry("w"), entry("x"), entry("w")];
    assign_instance_ids(&mut entries);
    let names: Vec<&str> = entries.iter().map(|e| e.name.as_str()).collect();
    let mut unique = names.clone();
    unique.sort();
    unique.dedup();
    assert_eq!(unique.len(), names.len());
    assert_eq!(names[2], "x");
}

#[test]
fn test_expand_env_vars_no_vars() {
    let input = "just a plain string with no variables at all";
    assert_eq!(expand(input, &env(&[])), input);
}

#[test]
fn test_expand_env_vars_no_variables_unchanged() {
    let input = "plain text without any variables";
    assert_eq!(expand(input, &env(&[])), input);
}

#[test]
fn test_expand_env_vars_empty_string() {
    assert_eq!(expand("", &env(&[])), "");
}

#[test]
fn test_expand_env_vars_dollar_sign_without_brace() {
    assert_eq!(expand("price is $100", &env(&[])), "price is $100");
}

#[test]
fn test_expand_env_vars_incomplete_syntax() {
    assert_eq!(expand("value: ${UNCLOSED", &env(&[])), "value: ${UNCLOSED");
}

#[test]
fn test_expand_env_vars_simple() {
    let vars = env(&[("TEST_SIMPLE_HOME", "/home/user")]);
    assert_eq!(expand("path: ${TEST_SIMPLE_HOME}", &vars), "path: /home/user");
}

#[test]
fn test_expand_env_vars_with_default() {
    assert_eq!(
        expand("value: ${TEST_EXPAND_NONEXISTENT_DEFAULT:default_value}", &env(&[])),
        "value: default_value"
    );
}

#[test]
fn test_expand_env_vars_multiple() {
    let vars = env(&[("TEST_MULTI_A", "alpha"), ("TEST_MULTI_B", "beta"), ("TEST_MULTI_C", "gamma")]);
    assert_eq!(expand("${TEST_MULTI_A}/${TEST_MULTI_B}/${TEST_MULTI_C}", &vars), "alpha/beta/gamma");
}

#[test]
fn test_expand_env_vars_empty_default() {
    assert_eq!(expand("value: ${TEST_EMPTY_DEFAULT:}", &env(&[])), "value: ");
}

#[test]
fn test_expand_env_vars_default_with_special_chars() {
    assert_eq!(
        expand("redis: ${TEST_REDIS_URL:redis://localhost:6379/0}", &env(&[])),
        "redis: redis://localhost:6379/0"
    );
}

#[test]
fn test_expand_env_vars_uses_engine_version_placeholder() {
    let input = "service_version: ${III_TEST_ENGINE_VERSION_MISSING:__III_ENGINE_VERSION__}";
    assert_eq!(expand(input, &env(&[])), "service_version: 0.9.0");
}

#[test]
fn test_expand_env_vars_service_version_overrides_engine_version_placeholder() {
    let vars = env(&[("III_TEST_ENGINE_VERSION_OVERRIDE", "user-version")]);
    let input = "service_version: ${III_TEST_ENGINE_VERSION_OVERRIDE:__III_ENGINE_VERSION__}";
    assert_eq!(expand(input, &vars), "service_version: user-version");
}

#[test]
fn test_expand_env_vars_existing_var_ignores_default() {
    let vars = env(&[("TEST_VAR_WITH_DEFAULT", "real_value")]);
    assert_eq!(expand("url: ${TEST_VAR_WITH_DEFAULT:ignored_default}", &vars), "url: real_value");
}

#[test]
fn test_expand_env_vars_multiple_same_var() {
    let vars = env(&[("TEST_REPEATED", "abc")]);
    assert_eq!(expand("${TEST_REPEATED}-${TEST_REPEATED}-${TEST_REPEATED}", &vars), "abc-abc-abc");
}

#[test]
fn test_expand_env_vars_adjacent_variables() {
    let vars = env(&[("TEST_FIRST", "hello"), ("TEST_SECOND", "world")]);
    assert_eq!(expand("${TEST_FIRST}${TEST_SECOND}", &vars), "helloworld");
}

#[test]
fn test_expand_env_vars_var_with_underscore_and_numbers() {
    let vars = env(&[("MY_VAR_123", "test_value")]);
    assert_eq!(expand("value: ${MY_VAR_123}", &vars), "value: test_value");
}

#[test]
fn test_expand_env_vars_multiline_yaml() {
    let vars = env(&[("TEST_HOST", "localhost"), ("TEST_PORT", "8080")]);
    let input = "server:\n  host: ${TEST_HOST}\n  port: ${TEST_PORT}\n  timeout: ${TEST_TIMEOUT:30}";
    let expected = "server:\n  host: localhost\n  port: 8080\n  timeout: 30";
    assert_eq!(expand(input, &vars), expected);
}

#[test]
fn test_expand_env_vars_special_characters_in_value() {
    let vars = env(&[("TEST_SPECIAL_CHARS_VAL", "hello world!@#$%^&*()")]);
    assert_eq!(expand("val: ${TEST_SPECIAL_CHARS_VAL}", &vars), "val: hello world!@#$%^&*()");
}

#[test]
fn missing_variable_without_default_is_reported() {
    assert_eq!(find_unresolved("key: ${TEST_MUST_PANIC}", &env(&[])), Some("TEST_MUST_PANIC".to_string()));
    assert_eq!(
        EngineConfig::unresolved_env_var("a ${X:1} b ${Y} c ${Z}", &env(&[("Z", "z")])),
        Some("Y".to_string())
    );
    assert_eq!(find_unresolved("a ${X:1}", &env(&[])), None);
}

#[test]
fn worker_source_resolution_chain() {
    assert_eq!(
        worker_source("iii-http", true, true, false).unwrap_err(),
        "Worker 'iii-http' is a built-in worker and cannot have an 'image' field. Remove 'image' or use a different name."
    );
    assert_eq!(worker_source("img", true, false, true).unwrap(), WorkerSource::Delegated);
    assert_eq!(worker_source("iii-http", false, true, true).unwrap(), WorkerSource::BuiltIn);
    assert_eq!(worker_source("legacy", false, false, true).unwrap(), WorkerSource::LegacyExternal);
    assert_eq!(worker_source("remote", false, false, false).unwrap(), WorkerSource::Delegated);
    assert_eq!(create_failure("iii-http#1", "boom"), "Failed to create iii-http#1: boom");
}

#[test]
fn runtime_worker_summary_sorts_and_dedups() {
    let e = entry("iii-http#1");
    let fns: Vec<String> = vec!["b::two".into(), "a::one".into(), "b::two".into()];
    let mandatory: Vec<String> = vec!["iii-http".into()];
    let s = runtime_worker_summary(&e, false, &fns, &mandatory).unwrap();
    assert_eq!(s.id, "iii-http#1");
    assert_eq!(s.name, "iii-http");
    assert_eq!(s.worker_type, "iii-http");
    assert_eq!(s.function_ids, vec!["a::one".to_string(), "b::two".to_string()]);
    assert!(s.internal);
    let other = runtime_worker_summary(&entry("custom"), false, &vec![], &mandatory).unwrap();
    assert!(!other.internal);
    assert!(other.function_ids.is_empty());
    assert!(runtime_worker_summary(&e, true, &fns, &mandatory).is_none());
}

#[test]
fn serve_loop_steps_and_outcome() {
    assert_eq!(serve_step(ServeEvent::ShutdownChanged(true)), ServeAction::Stop);
    assert_eq!(serve_step(ServeEvent::ShutdownChanged(false)), ServeAction::KeepServing);
    assert_eq!(serve_step(ServeEvent::ConfigChanged), ServeAction::Reload);
    let ok: Vec<(String, Result<(), String>)> = vec![("a".into(), Ok(())), ("b".into(), Ok(()))];
    assert_eq!(destroy_outcome(&ok), Ok(()));
    let failed: Vec<(String, Result<(), String>)> =
        vec![("a".into(), Ok(())), ("b".into(), Err("x".into())), ("c".into(), Err("y".into()))];
    assert_eq!(destroy_outcome(&failed), Err("failed to destroy worker 'b': x".to_string()));
    assert_eq!(serve_result(Err("d".into()), Some("r".into())), Err("d".to_string()));
    assert_eq!(serve_result(Ok(()), Some("r".into())), Err("r".to_string()));
    assert_eq!(serve_result(Ok(()), None), Ok(()));
}

#[test]
fn test_config_file_returns_error_when_file_missing() {
    let err_msg =
        EngineConfig::config_read_error("/tmp/iii_nonexistent_config_12345.yaml", true, "No such file or directory");
    assert!(
        err_msg.contains("Config file not found"),
        "Error should mention 'Config file not found', got: {}",
        err_msg
    );
}

#[test]
fn test_config_file_error_message_includes_path() {
    let path = "/tmp/iii_this_does_not_exist_67890.yaml";
    let err_msg = EngineConfig::config_read_error(path, true, "No such file or directory");
    assert!(err_msg.contains(path), "Error should include the path '{}', got: {}", path, err_msg);
    let other = EngineConfig::config_read_error(path, false, "permission denied");
    assert_eq!(other, format!("Failed to read config file '{}': permission denied", path));
    assert_eq!(
        EngineConfig::config_parse_error(path, "bad indent"),
        format!("Failed to parse config file '{}': bad indent", path)
    );
}

#[test]
fn test_default_config_auto_injects_iii_worker_ops() {
    let defaults: Vec<String> = vec!["iii-observability".into()];
    let config = EngineConfig::default_config(&defaults, false, true);
    let count = config.workers.iter().filter(|w| w.name == "iii-worker-ops").count();
    assert_eq!(
        count, 1,
        "default config must auto-inject iii-worker-ops exactly once when the binary is available"
    );
    assert_eq!(config.modules.len(), 1);
    assert_eq!(config.modules[0].name, "iii-observability");
    let without_binary = EngineConfig::default_config(&defaults, false, false);
    assert!(without_binary.workers.is_empty());
    let disabled = EngineConfig::default_config(&defaults, true, true);
    assert!(disabled.workers.is_empty());
}

#[test]
fn test_engine_builder_add_worker_without_config() {
    let config = EngineConfig::add_worker(None, "test::Module", None);
    assert_eq!(config.workers.len(), 1);
    assert_eq!(config.workers[0].name, "test::Module");
    assert!(config.workers[0].config.is_none());
}

fn json_object(pairs: Vec<(&str, serde_json::Value)>) -> serde_json::Value {
    let mut map = serde_json::Map::new();
    for (k, v) in pairs {
        map.insert(k.to_string(), v);
    }
    serde_json::Value::Object(map)
}

#[test]
fn test_engine_builder_add_worker_with_config() {
    let config = EngineConfig::add_worker(
        None,
        "test::Module",
        Some(json_object(vec![("key", serde_json::Value::String("value".into()))])),
    );
    assert_eq!(config.workers[0].config.as_ref().unwrap()["key"], "value");
}

#[test]
fn test_engine_builder_add_multiple_modules() {
    let config = EngineConfig::add_worker(None, "test::ModA", None);
    let config = EngineConfig::add_worker(
        Some(config),
        "test::ModB",
        Some(json_object(vec![("port", serde_json::Value::from(3000))])),
    );
    assert_eq!(config.workers.len(), 2);
    assert_eq!(config.workers[0].name, "test::ModA");
    assert_eq!(config.workers[1].name, "test::ModB");
}

#[test]
fn default_modules_keep_names_in_order() {
    let defaults: Vec<String> = vec!["iii-http".into(), "iii-cron".into()];
    let config = EngineConfig { modules: vec![], workers: vec![entry("x")] }.default_modules(&defaults);
    assert!(config.workers.is_empty());
    let names: Vec<&str> = config.modules.iter().map(|e| e.name.as_str()).collect();
    assert_eq!(names, vec!["iii-http", "iii-cron"]);
    assert!(config.modules.iter().all(|e| e.image.is_none() && e.config.is_none()));
}

#[test]
fn build_entries_adds_mandatory_and_names_instances() {
    let config = EngineConfig { modules: vec![entry("iii-http")], workers: vec![entry("iii-http"), entry("custom")] };
    let mandatory: Vec<String> = vec!["iii-observability".into(), "custom".into()];
    let names: Vec<String> = config.build_entries(&mandatory).into_iter().map(|e| e.name).collect();
    assert_eq!(names, vec!["iii-http", "custom", "iii-http#1", "iii-observability"]);
}

#[test]
fn test_env_var_expansion() {
    let vars = env(&[("TEST_VAR", "value1")]);
    let input = "This is a ${TEST_VAR} and ${UNSET_VAR:default_value}";
    assert_eq!(expand(input, &vars), "This is a value1 and default_value");
}

#[test]
fn test_expand_env_vars_with_default_when_var_missing() {
    assert_eq!(expand("Value is ${MISSING_VAR:default}", &env(&[])), "Value is default");
}

#[test]
fn test_expand_env_vars_nested_in_yaml() {
    let vars = env(&[("TEST_YAML_DB_HOST", "db.example.com"), ("TEST_YAML_DB_PORT", "5432")]);
    let yaml_input = "database:\n  host: ${TEST_YAML_DB_HOST}\n  port: ${TEST_YAML_DB_PORT}\n  name: ${TEST_YAML_DB_NAME:mydb}\n  pool_size: 10";
    let output = expand(yaml_input, &vars);
    let expected = "database:\n  host: db.example.com\n  port: 5432\n  name: mydb\n  pool_size: 10";
    assert_eq!(output, expected);

    let parsed: serde_yaml::Value = serde_yaml::from_str(&output).unwrap();
    let db = &parsed["database"];
    assert_eq!(db["host"].as_str().unwrap(), "db.example.com");
    assert_eq!(db["port"].as_u64().unwrap(), 5432);
    assert_eq!(db["name"].as_str().unwrap(), "mydb");
}

#[test]
fn test_engine_config_with_env_var_expansion() {
    let vars = env(&[("TEST_IMAGE_TAG", "2.0.0")]);
    let yaml = "workers:\n  - name: w\n    image: ghcr.io/org/w:${TEST_IMAGE_TAG}\n";
    let expanded = expand(yaml, &vars);
    let parsed: serde_yaml::Value = serde_yaml::from_str(&expanded).unwrap();
    assert_eq!(parsed["workers"][0]["image"].as_str(), Some("ghcr.io/org/w:2.0.0"));
}

#[test]
fn serve_stops_on_failed_reload_and_watches_parent() {
    assert_eq!(serve_step(ServeEvent::ReloadFinished(true)), ServeAction::KeepServing);
    assert_eq!(serve_step(ServeEvent::ReloadFinished(false)), ServeAction::Stop);
    assert!(event_requests_reload(Some(FsEventKind::Modify)));
    assert!(event_requests_reload(Some(FsEventKind::Create)));
    assert!(event_requests_reload(Some(FsEventKind::Remove)));
    assert!(!event_requests_reload(Some(FsEventKind::Access)));
    assert!(!event_requests_reload(None));
    assert_eq!(watch_target("config.yaml"), ".");
    assert_eq!(watch_target("conf/config.yaml"), "conf");
    assert_eq!(watch_target("/etc/iii/config.yaml"), "/etc/iii");
    assert_eq!(watch_target("/"), ".");
}

#[test]
fn failed_starts_are_dropped_and_every_worker_is_torn_down() {
    assert_eq!(start_failures(&vec![true, false, true, false]), vec![1, 3]);
    assert!(start_failures(&vec![]).is_empty());
    let plan = teardown_plan(2);
    assert_eq!(
        plan,
        vec![
            (TeardownKind::Signal, 0),
            (TeardownKind::Destroy, 0),
            (TeardownKind::RemoveRegistrations, 0),
            (TeardownKind::RemoveRuntime, 0),
            (TeardownKind::Signal, 1),
            (TeardownKind::Destroy, 1),
            (TeardownKind::RemoveRegistrations, 1),
            (TeardownKind::RemoveRuntime, 1),
        ]
    );
}
