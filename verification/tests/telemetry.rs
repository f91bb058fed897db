use iii_core::otel_path::append_otel_path;
use iii_core::payload::resolve_max_bytes;
use iii_core::telemetry::{
    parse_batch_size, parse_flush_interval, resolve_enabled, resolve_otel_settings, service_name_from_argv0,
    OtelConfig, OtelEnv, OtelLifecycle,
};

#[test]
fn appends_otel_path() {
    assert_eq!(append_otel_path("ws://localhost:49134"), "ws://localhost:49134/otel");
}

#[test]
fn strips_trailing_slash_before_appending() {
    assert_eq!(append_otel_path("ws://localhost:49134/"), "ws://localhost:49134/otel");
}

#[test]
fn is_idempotent() {
    assert_eq!(append_otel_path("ws://localhost:49134/otel"), "ws://localhost:49134/otel");
}

#[test]
fn preserves_query_string() {
    assert_eq!(
        append_otel_path("ws://localhost:49134?token=abc"),
        "ws://localhost:49134/otel?token=abc"
    );
}

#[test]
fn preserves_query_string_when_already_otel() {
    assert_eq!(
        append_otel_path("ws://localhost:49134/otel?token=abc"),
        "ws://localhost:49134/otel?token=abc"
    );
}

#[test]
fn preserves_fragment() {
    assert_eq!(append_otel_path("ws://localhost:49134#frag"), "ws://localhost:49134/otel#frag");
}

#[test]
fn strips_trailing_slash_before_query() {
    assert_eq!(
        append_otel_path("ws://localhost:49134/otel/?token=abc"),
        "ws://localhost:49134/otel?token=abc"
    );
}

#[test]
fn appending_twice_changes_nothing_more() {
    let once = append_otel_path("wss://engine.example:443/base//?a=1#f");
    assert_eq!(once, "wss://engine.example:443/base/otel?a=1#f");
    assert_eq!(append_otel_path(&once), once);
}

#[test]
fn extracts_binary_name_from_release_path() {
    assert_eq!(
        service_name_from_argv0("/path/to/workers/harness/target/release/harness").as_deref(),
        Some("harness")
    );
    assert_eq!(
        service_name_from_argv0("/path/to/workers/turn-orchestrator/target/release/turn-orchestrator")
            .as_deref(),
        Some("turn-orchestrator")
    );
}

#[test]
fn extracts_bare_binary_name() {
    assert_eq!(service_name_from_argv0("iii").as_deref(), Some("iii"));
    assert_eq!(service_name_from_argv0("harness").as_deref(), Some("harness"));
}

#[test]
fn returns_none_for_empty_argv0() {
    assert_eq!(service_name_from_argv0(""), None);
}

#[test]
fn test_logs_env_var_parsing_valid() {
    let val: Option<u64> = parse_flush_interval("500");
    assert_eq!(val, Some(500));
}

#[test]
fn test_logs_env_var_parsing_invalid() {
    let val: Option<u64> = parse_flush_interval("not-a-number");
    assert!(val.is_none());
}

#[test]
fn test_logs_batch_size_minimum_filter() {
    let val: Option<usize> = parse_batch_size("0");
    assert!(val.is_none());

    let val: Option<usize> = parse_batch_size("1");
    assert_eq!(val, Some(1));
}

#[test]
fn flush_interval_rejects_overflow_and_signs() {
    assert_eq!(parse_flush_interval("18446744073709551615"), Some(u64::MAX));
    assert_eq!(parse_flush_interval("18446744073709551616"), None);
    assert_eq!(parse_flush_interval("+5"), Some(5));
    assert_eq!(parse_flush_interval("-5"), None);
    assert_eq!(parse_flush_interval(""), None);
}

#[test]
fn payload_cap_setting() {
    assert_eq!(resolve_max_bytes(None), None);
    assert_eq!(resolve_max_bytes(Some("  ")), None);
    assert_eq!(resolve_max_bytes(Some("UnLimited")), None);
    assert_eq!(resolve_max_bytes(Some("0")), None);
    assert_eq!(resolve_max_bytes(Some("abc")), None);
    assert_eq!(resolve_max_bytes(Some(" 4096 ")), Some(4096));
}

#[test]
fn init_then_shutdown_restores_lifecycle() {
    let mut life = OtelLifecycle::new();
    assert!(!life.is_initialized());
    assert!(life.init(true));
    assert!(life.is_initialized());
    assert!(life.shutdown());
    assert!(!life.is_initialized());
}

fn no_config() -> OtelConfig {
    OtelConfig {
        enabled: None,
        service_name: None,
        service_version: None,
        service_namespace: None,
        service_instance_id: None,
        engine_ws_url: None,
        channel_capacity: None,
        metrics_enabled: None,
        metrics_export_interval_ms: None,
        logs_enabled: None,
        logs_flush_interval_ms: None,
        logs_batch_size: None,
        shutdown_timeout_ms: None,
    }
}

fn no_env() -> OtelEnv {
    OtelEnv {
        otel_enabled: None,
        otel_service_name: None,
        service_version: None,
        iii_url: None,
        logs_flush_interval_ms: None,
        logs_batch_size: None,
        argv0: None,
    }
}

#[test]
fn otel_settings_fall_back_in_order() {
    let s = resolve_otel_settings(&no_config(), &no_env(), "1.2.3");
    assert_eq!(s.service_name, "iii-rust-sdk");
    assert_eq!(s.service_version, "1.2.3");
    assert_eq!(s.ws_url, "ws://localhost:49134/otel");
    assert_eq!(s.channel_capacity, 10_000);
    assert!(s.metrics_enabled);
    assert_eq!(s.metrics_export_interval_ms, 60_000);
    assert!(s.logs_enabled);
    assert_eq!(s.logs_flush_interval_ms, 100);
    assert_eq!(s.logs_batch_size, 1);
    assert_eq!(s.shutdown_timeout_ms, 10_000);

    let env = OtelEnv {
        otel_service_name: Some("from-env".into()),
        iii_url: Some("ws://engine:1/".into()),
        logs_flush_interval_ms: Some("250".into()),
        logs_batch_size: Some("0".into()),
        argv0: Some("/usr/bin/worker".into()),
        ..no_env()
    };
    let s = resolve_otel_settings(&no_config(), &env, "1.2.3");
    assert_eq!(s.service_name, "from-env");
    assert_eq!(s.ws_url, "ws://engine:1/otel");
    assert_eq!(s.logs_flush_interval_ms, 250);
    assert_eq!(s.logs_batch_size, 1);

    let argv_only = OtelEnv { argv0: Some("/usr/bin/worker".into()), ..no_env() };
    assert_eq!(resolve_otel_settings(&no_config(), &argv_only, "v").service_name, "worker");

    let config = OtelConfig {
        service_name: Some("explicit".into()),
        logs_enabled: Some(false),
        engine_ws_url: Some("wss://x/otel".into()),
        ..no_config()
    };
    let s = resolve_otel_settings(&config, &env, "1.2.3");
    assert_eq!(s.service_name, "explicit");
    assert_eq!(s.ws_url, "wss://x/otel");
    assert_eq!(s.logs_flush_interval_ms, 0);
    assert_eq!(s.logs_batch_size, 0);
}

#[test]
fn otel_enabled_resolution() {
    assert!(resolve_enabled(&no_config(), &no_env()));
    let off = OtelEnv { otel_enabled: Some("false".into()), ..no_env() };
    assert!(!resolve_enabled(&no_config(), &off));
    let one = OtelEnv { otel_enabled: Some("1".into()), ..no_env() };
    assert!(resolve_enabled(&no_config(), &one));
    let forced = OtelConfig { enabled: Some(true), ..no_config() };
    assert!(resolve_enabled(&forced, &off));
}
