use iii_core::bridge_client::exposed_result;
use iii_core::console::{adapters_reply, cron_response};
use iii_core::protocol::ErrorBody;
use iii_core::bridge_client::{
    call_result, call_timeout_ms, exposed_functions, fire_and_forget_result, forward_request,
    invoke_async_request, invoke_request, local_functions, parse_failure, resolve_bridge_url,
    BridgeClientConfig, ExposeFunctionConfig, ForwardFunctionConfig, InvokeInput,
};
use iii_core::console::{
    adapter_summaries, cron_function_from, cron_payload, cron_trigger_target, engine_healthy,
    module_for_trigger_type, parse_bool_param, trigger_rows, validate_flow_id, worker_runtimes,
    TriggerRow,
};
use iii_core::json::JsonValue;
use iii_core::protocol::{FunctionResult, TriggerAction};
use iii_core::worker_ops::{list_payload_is_default, op_metadata, schema_entries};

fn s(t: &str) -> JsonValue {
    JsonValue::Str(t.to_string())
}

fn obj(pairs: Vec<(&str, JsonValue)>) -> JsonValue {
    JsonValue::Object(pairs.into_iter().map(|(k, v)| (k.to_string(), v)).collect())
}

#[test]
fn op_metadata_table() {
    assert_eq!(op_metadata("worker::add"), (600_000, true));
    assert_eq!(op_metadata("worker::remove"), (30_000, true));
    assert_eq!(op_metadata("worker::update"), (600_000, true));
    assert_eq!(op_metadata("worker::start"), (60_000, false));
    assert_eq!(op_metadata("worker::stop"), (30_000, false));
    assert_eq!(op_metadata("worker::list"), (10_000, true));
    assert_eq!(op_metadata("worker::clear"), (30_000, true));
    assert_eq!(op_metadata("worker::schema"), (10_000, true));
    assert_eq!(op_metadata("worker::other"), (30_000, false));
}

#[test]
fn schema_selection_filters_by_function_id() {
    let schemas: Vec<(Option<JsonValue>, Option<JsonValue>)> = (0..8).map(|_| (None, None)).collect();
    let all = schema_entries(None, &schemas);
    assert_eq!(all.len(), 8);
    assert_eq!(all[0].function_id, "worker::add");
    assert_eq!(all[7].function_id, "worker::schema");
    let one = schema_entries(Some("worker::start"), &schemas);
    assert_eq!(one.len(), 1);
    assert_eq!(one[0].description, "Start a configured worker");
    assert_eq!(one[0].default_timeout_ms, 60_000);
    assert!(!one[0].idempotent);
    assert!(matches!(one[0].request, JsonValue::Null));
    assert!(schema_entries(Some("nope"), &schemas).is_empty());
}

#[test]
fn list_payload_leniency() {
    assert!(list_payload_is_default(&JsonValue::Null));
    assert!(list_payload_is_default(&obj(vec![])));
    assert!(!list_payload_is_default(&obj(vec![("all", JsonValue::Bool(true))])));
    assert!(!list_payload_is_default(&JsonValue::Array(vec![])));
}

#[test]
fn bridge_url_resolution() {
    assert_eq!(resolve_bridge_url(&Some("ws://a".into()), &Some("ws://b".into())), "ws://a");
    assert_eq!(resolve_bridge_url(&None, &Some("ws://b".into())), "ws://b");
    assert_eq!(resolve_bridge_url(&None, &None), "ws://0.0.0.0:49134");
}

#[test]
fn bridge_registrations() {
    let config = BridgeClientConfig {
        url: None,
        expose: vec![
            ExposeFunctionConfig { local_function: "local::a".into(), remote_function: None },
            ExposeFunctionConfig {
                local_function: "local::b".into(),
                remote_function: Some("remote::b".into()),
            },
        ],
        forward: vec![ForwardFunctionConfig {
            local_function: "fwd::x".into(),
            remote_function: "remote::x".into(),
            timeout_ms: Some(5),
        }],
    };
    let locals = local_functions(&config);
    assert_eq!(locals.len(), 3);
    assert_eq!(locals[0].function_id, "bridge.invoke");
    assert_eq!(locals[1].function_id, "bridge.invoke_async");
    assert_eq!(locals[2].function_id, "fwd::x");
    assert_eq!(locals[2].description, "Forward to remote function remote::x");
    let exposed = exposed_functions(&config);
    assert_eq!(exposed[0], ("local::a".to_string(), "local::a".to_string()));
    assert_eq!(exposed[1], ("remote::b".to_string(), "local::b".to_string()));
    let req = forward_request(&config.forward[0], JsonValue::Null);
    assert_eq!(req.function_id, "remote::x");
    assert_eq!(req.timeout_ms, Some(5));
    assert!(BridgeClientConfig::default().expose.is_empty());
}

#[test]
fn bridge_invoke_requests_and_results() {
    assert_eq!(call_timeout_ms(None), 30_000);
    let req = invoke_request(InvokeInput { function_id: "f".into(), data: JsonValue::Null, timeout_ms: None });
    assert_eq!(req.timeout_ms, Some(30_000));
    assert!(req.action.is_none());
    let req = invoke_async_request(InvokeInput { function_id: "f".into(), data: JsonValue::Null, timeout_ms: Some(1) });
    assert!(matches!(req.action, Some(TriggerAction::Void)));
    assert!(req.timeout_ms.is_none());
    match parse_failure("missing field `function_id`") {
        FunctionResult::Failure(e) => {
            assert_eq!(e.code, "deserialization_error");
            assert_eq!(e.message, "Failed to parse invoke input: missing field `function_id`");
        }
        _ => panic!("expected failure"),
    }
    assert!(matches!(call_result(Ok(s("v"))), FunctionResult::Success(Some(JsonValue::Str(_)))));
    assert!(matches!(call_result(Err("down".into())), FunctionResult::Failure(e) if e.code == "bridge_error" && e.message == "down"));
    assert!(matches!(fire_and_forget_result(Ok(())), FunctionResult::NoResult));
}

#[test]
fn flow_ids_and_bool_params() {
    assert_eq!(validate_flow_id("flow-1_a.b"), Ok("flow-1_a.b".to_string()));
    assert_eq!(validate_flow_id("ünïcode"), Ok("ünïcode".to_string()));
    assert_eq!(validate_flow_id(""), Err("Invalid flow_id: ".to_string()));
    assert_eq!(validate_flow_id("a/b"), Err("Invalid flow_id: a/b".to_string()));
    let input = obj(vec![("query_params", obj(vec![("include_internal", s("TRUE"))]))]);
    assert!(parse_bool_param(&input, "include_internal"));
    assert!(parse_bool_param(&obj(vec![("x", JsonValue::Bool(true))]), "x"));
    assert!(!parse_bool_param(&obj(vec![("x", s("yes"))]), "x"));
    assert_eq!(module_for_trigger_type("api"), "rest_api");
    assert_eq!(module_for_trigger_type("stream::join"), "streams");
    assert_eq!(module_for_trigger_type("subscribe"), "streams");
    assert_eq!(module_for_trigger_type("queue"), "queue");
}

#[test]
fn adapter_overview() {
    let triggers = obj(vec![(
        "registered_triggers",
        JsonValue::Array(vec![
            obj(vec![("trigger_type", s("api")), ("function_id", s("engine::a"))]),
            obj(vec![("trigger_type", s("cron")), ("function_id", s("user::b"))]),
            obj(vec![("trigger_type", s("api")), ("function_id", s("engine::c"))]),
        ]),
    )]);
    let rows: Vec<TriggerRow> = trigger_rows(&triggers).unwrap();
    assert_eq!(rows.len(), 3);
    let workers = obj(vec![(
        "workers",
        JsonValue::Array(vec![obj(vec![("runtime", s("node"))]), obj(vec![]), obj(vec![("runtime", s("node"))])]),
    )]);
    let runtimes = worker_runtimes(&workers).unwrap();
    let healthy = engine_healthy(Some(&obj(vec![("status", s("healthy"))])));
    assert!(healthy);
    let out = adapter_summaries(Some(&rows), healthy, Some(&runtimes));
    let ids: Vec<(&str, &str)> = out.iter().map(|a| (a.id.as_str(), a.kind.as_str())).collect();
    assert_eq!(
        ids,
        vec![
            ("rest_api", "module"),
            ("cron", "module"),
            ("api", "trigger"),
            ("cron", "trigger"),
            ("devtools", "module"),
            ("observability", "module"),
            ("node", "worker_pool"),
            ("unknown", "worker_pool"),
        ]
    );
    assert!(out[2].internal);
    assert!(!out[3].internal);
    assert_eq!(out[6].count, Some(2));
    assert_eq!(out[0].description, "rest_api module");
    let degraded = adapter_summaries(None, false, None);
    assert_eq!(degraded.len(), 2);
    assert_eq!(degraded[1].health, "degraded");
    let reply = adapters_reply(&out);
    let (items, count) = match &reply {
        JsonValue::Object(ms) => (&ms[0].1, &ms[1].1),
        _ => panic!("expected an object"),
    };
    assert!(matches!(count, JsonValue::Number(ref t) if t == "8"));
    match items {
        JsonValue::Array(entries) => {
            assert_eq!(entries.len(), 8);
            let pool = entries[6].get("count").unwrap();
            assert!(matches!(pool, JsonValue::Number(ref t) if t == "2"));
            assert!(entries[0].get("count").is_none());
            assert!(matches!(entries[0].get("type"), Some(JsonValue::Str(t)) if t == "module"));
            assert!(matches!(entries[2].get("internal"), Some(JsonValue::Bool(true))));
        }
        _ => panic!("expected an array"),
    }
}

#[test]
fn manual_cron_run() {
    let input = obj(vec![("body", obj(vec![("trigger_id", s("t1"))]))]);
    assert_eq!(cron_trigger_target(&input), Ok(("t1".to_string(), None)));
    assert_eq!(
        cron_trigger_target(&obj(vec![("trigger_id", s(""))])),
        Err("Missing trigger_id in request".to_string())
    );
    let list = obj(vec![(
        "registered_triggers",
        JsonValue::Array(vec![
            obj(vec![("id", s("t1")), ("trigger_type", s("cron")), ("function_id", s("jobs::run"))]),
            obj(vec![("id", s("t2")), ("trigger_type", s("api")), ("function_id", s("x"))]),
            obj(vec![("id", s("t3")), ("trigger_type", s("cron"))]),
        ]),
    )]);
    assert_eq!(cron_function_from("t1", &list), Ok("jobs::run".to_string()));
    assert_eq!(cron_function_from("t2", &list), Err("Trigger 't2' is not a cron trigger".to_string()));
    assert_eq!(cron_function_from("t3", &list), Err("Cron trigger 't3' has no function_id".to_string()));
    assert_eq!(cron_function_from("t9", &list), Err("Cron trigger 't9' not found".to_string()));
    let payload = cron_payload("t1", "1700000000");
    assert!(matches!(payload.get("manual"), Some(JsonValue::Bool(true))));
    assert!(matches!(payload.get("job_id"), Some(JsonValue::Str(t)) if t == "t1"));
}

#[test]
fn exposed_function_results() {
    assert!(matches!(exposed_result(Ok(Some(s("v")))), Ok(JsonValue::Str(ref t)) if t == "v"));
    assert!(matches!(exposed_result(Ok(None)), Ok(JsonValue::Null)));
    let e = ErrorBody { code: "C".into(), message: "m".into(), stacktrace: None };
    assert!(matches!(exposed_result(Err(e)), Err(ref b) if b.code == "C"));
}

#[test]
fn cron_run_answer() {
    let r = cron_response("t-1", "jobs::cleanup", JsonValue::Bool(true));
    match r {
        JsonValue::Object(ms) => {
            assert_eq!(ms.len(), 3);
            assert_eq!(ms[0].0, "trigger_id");
            assert!(matches!(ms[0].1, JsonValue::Str(ref t) if t == "t-1"));
            assert_eq!(ms[1].0, "function_id");
            assert!(matches!(ms[1].1, JsonValue::Str(ref t) if t == "jobs::cleanup"));
            assert_eq!(ms[2].0, "result");
            assert!(matches!(ms[2].1, JsonValue::Bool(true)));
        }
        _ => panic!("expected an object"),
    }
}
