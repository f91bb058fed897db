use iii_core::console_calls::{adapters_calls, cron_lookup_call, cron_run_call, engine_call, status_calls, ConsolePage};
use iii_core::console_queue::{
    dlq_message_request, dlq_page_request, publish_request, published_reply, redrive_request, topic_query,
    topic_reply,
};
use iii_core::console_state::{
    flow_config_key, flow_config_query, flow_config_reply, flow_config_save_payload, forwarded_body, group_items,
    group_listing, include_internal_payload, invoke_target, registered_triggers_reply, scope_payload,
    state_delete_payload, state_set_payload, status_summary, streams_reply, trace_tree_payload,
    trigger_type_names, trigger_types_reply, FLOW_CONFIG_GROUP,
};
use iii_core::json::JsonValue;

fn s(t: &str) -> JsonValue {
    JsonValue::Str(t.to_string())
}

fn n(t: &str) -> JsonValue {
    JsonValue::Number(t.to_string())
}

fn obj(pairs: Vec<(&str, JsonValue)>) -> JsonValue {
    JsonValue::Object(pairs.into_iter().map(|(k, v)| (k.to_string(), v)).collect())
}

fn show(v: &JsonValue) -> String {
    match v {
        JsonValue::Null => "null".to_string(),
        JsonValue::Bool(b) => b.to_string(),
        JsonValue::Number(t) => t.clone(),
        JsonValue::Str(t) => format!("\"{}\"", t),
        JsonValue::Array(items) => format!("[{}]", items.iter().map(show).collect::<Vec<_>>().join(",")),
        JsonValue::Object(ms) => format!(
            "{{{}}}",
            ms.iter().map(|(k, v)| format!("\"{}\":{}", k, show(v))).collect::<Vec<_>>().join(",")
        ),
    }
}

#[test]
fn trace_id_comes_from_body_then_request() {
    let body = obj(vec![("body", obj(vec![("trace_id", s("abc"))])), ("trace_id", s("top"))]);
    assert_eq!(show(&trace_tree_payload(&body).unwrap()), "{\"trace_id\":\"abc\"}");
    let top = obj(vec![("body", obj(vec![])), ("trace_id", s("top"))]);
    assert_eq!(show(&trace_tree_payload(&top).unwrap()), "{\"trace_id\":\"top\"}");
    assert_eq!(trace_tree_payload(&obj(vec![])).unwrap_err(), "Missing trace_id in request");
}

#[test]
fn forwarded_body_prefers_body() {
    let with_body = obj(vec![("body", obj(vec![("x", n("1"))])), ("y", n("2"))]);
    assert_eq!(show(&forwarded_body(&with_body)), "{\"x\":1}");
    let without = obj(vec![("y", n("2"))]);
    assert_eq!(show(&forwarded_body(&without)), "{\"y\":2}");
}

#[test]
fn status_counts_lists() {
    let workers = obj(vec![("workers", JsonValue::Array(vec![s("a"), s("b")]))]);
    let functions = obj(vec![("functions", JsonValue::Array((0..12).map(|_| JsonValue::Null).collect()))]);
    let r = status_summary(Some(&workers), Some(&functions), true);
    assert_eq!(show(&r), "{\"workers\":2,\"functions\":12,\"status\":\"running\",\"metrics_available\":true}");
    let r = status_summary(None, Some(&obj(vec![])), false);
    assert_eq!(show(&r), "{\"workers\":0,\"functions\":0,\"status\":\"running\",\"metrics_available\":false}");
}

#[test]
fn groups_keep_only_names() {
    let data = obj(vec![("groups", JsonValue::Array(vec![s("users"), n("3"), s("orders")]))]);
    assert_eq!(
        show(&group_listing(&data)),
        "{\"groups\":[{\"id\":\"users\",\"count\":0},{\"id\":\"orders\",\"count\":0}],\"count\":2}"
    );
    assert_eq!(show(&group_listing(&obj(vec![]))), "{\"groups\":[],\"count\":0}");
}

#[test]
fn group_items_wraps_array() {
    let r = group_items(JsonValue::Array(vec![s("a"), s("b"), s("c")]));
    assert_eq!(show(&r), "{\"items\":[\"a\",\"b\",\"c\"],\"count\":3}");
    assert_eq!(show(&group_items(obj(vec![]))), "{\"items\":[],\"count\":0}");
    let input = obj(vec![("body", obj(vec![("scope", s("users"))]))]);
    assert_eq!(show(&scope_payload(&input).unwrap()), "{\"scope\":\"users\"}");
    assert_eq!(scope_payload(&obj(vec![])).unwrap_err(), "Missing scope in request");
}

#[test]
fn state_item_set_requires_group_key_and_value() {
    let input = obj(vec![
        ("path_params", obj(vec![("group", s("users"))])),
        ("body", obj(vec![("key", s("u1")), ("value", JsonValue::Null)])),
    ]);
    assert_eq!(show(&state_set_payload(&input).unwrap()), "{\"scope\":\"users\",\"key\":\"u1\",\"value\":null}");
    assert_eq!(state_set_payload(&obj(vec![])).unwrap_err(), "Missing group in path parameters");
    let no_key = obj(vec![("group", s("users"))]);
    assert_eq!(state_set_payload(&no_key).unwrap_err(), "Missing key in request body");
    let no_value = obj(vec![("group", s("users")), ("key", s("k"))]);
    assert_eq!(state_set_payload(&no_value).unwrap_err(), "Missing value in request body");
    let top = obj(vec![("group", s("g")), ("key", s("k")), ("value", n("7"))]);
    assert_eq!(show(&state_set_payload(&top).unwrap()), "{\"scope\":\"g\",\"key\":\"k\",\"value\":7}");
}

#[test]
fn state_item_delete_uses_path() {
    let input = obj(vec![("path_params", obj(vec![("group", s("users")), ("key", s("u1"))]))]);
    assert_eq!(show(&state_delete_payload(&input).unwrap()), "{\"scope\":\"users\",\"key\":\"u1\"}");
    let no_key = obj(vec![("path_params", obj(vec![("group", s("users"))]))]);
    assert_eq!(state_delete_payload(&no_key).unwrap_err(), "Missing key in path parameters");
    assert_eq!(state_delete_payload(&obj(vec![])).unwrap_err(), "Missing group in path parameters");
}

#[test]
fn streams_are_described() {
    let data = obj(vec![(
        "stream",
        JsonValue::Array(vec![
            obj(vec![("id", s("chat")), ("groups", JsonValue::Array(vec![s("room-1"), n("2")]))]),
            obj(vec![("id", s("iii:logs"))]),
        ]),
    )]);
    assert_eq!(
        show(&streams_reply(&data)),
        "{\"streams\":[{\"id\":\"chat\",\"type\":\"user\",\"description\":\"chat stream\",\"groups\":[\"room-1\"],\"status\":\"active\",\"internal\":false},{\"id\":\"iii:logs\",\"type\":\"system\",\"description\":\"iii:logs stream\",\"groups\":[],\"status\":\"active\",\"internal\":true}],\"count\":2,\"websocket_port\":3112}"
    );
    assert_eq!(show(&streams_reply(&obj(vec![]))), "{\"streams\":[],\"count\":0,\"websocket_port\":3112}");
}

#[test]
fn flow_config_lookup() {
    let from_path = obj(vec![
        ("path_params", obj(vec![("flow_id", s("flow-1"))])),
        ("query_params", obj(vec![("flow_id", s("other"))])),
    ]);
    assert_eq!(flow_config_key(&from_path).unwrap(), "flow-1");
    let from_query = obj(vec![("query_params", obj(vec![("flow_id", s("q.1"))]))]);
    assert_eq!(flow_config_key(&from_query).unwrap(), "q.1");
    assert_eq!(flow_config_key(&obj(vec![])).unwrap_err(), "Missing flow_id parameter");
    let bad = obj(vec![("flow_id", s("a/b"))]);
    assert_eq!(flow_config_key(&bad).unwrap_err(), "Invalid flow_id: a/b");
    assert_eq!(
        show(&flow_config_query("flow-1")),
        format!("{{\"scope\":\"{}\",\"key\":\"flow-1\"}}", FLOW_CONFIG_GROUP)
    );
    assert_eq!(FLOW_CONFIG_GROUP, "__console.flowConfigs");
    assert_eq!(show(&flow_config_reply("f", None)), "{\"id\":\"f\",\"config\":{}}");
    assert_eq!(show(&flow_config_reply("f", Some(JsonValue::Null))), "{\"id\":\"f\",\"config\":{}}");
    assert_eq!(show(&flow_config_reply("f", Some(obj(vec![("x", n("1"))])))), "{\"x\":1}");
}

#[test]
fn flow_config_save() {
    let input = obj(vec![
        ("path_params", obj(vec![("flow_id", s("flow-1"))])),
        ("body", obj(vec![("config", obj(vec![("zoom", n("2"))]))])),
    ]);
    assert_eq!(
        show(&flow_config_save_payload(&input).unwrap()),
        "{\"scope\":\"__console.flowConfigs\",\"key\":\"flow-1\",\"value\":{\"id\":\"flow-1\",\"config\":{\"zoom\":2}}}"
    );
    let by_body_id = obj(vec![("body", obj(vec![("id", s("f2"))]))]);
    assert_eq!(
        show(&flow_config_save_payload(&by_body_id).unwrap()),
        "{\"scope\":\"__console.flowConfigs\",\"key\":\"f2\",\"value\":{\"id\":\"f2\",\"config\":{}}}"
    );
    assert_eq!(flow_config_save_payload(&obj(vec![])).unwrap_err(), "Missing flow_id parameter");
    let bad = obj(vec![("id", s(""))]);
    assert_eq!(flow_config_save_payload(&bad).unwrap_err(), "Invalid flow_id: ");
}

#[test]
fn invoke_reads_function_and_input() {
    let input = obj(vec![("body", obj(vec![("function_id", s("math::add")), ("input", obj(vec![("a", n("1"))]))]))]);
    let (f, data) = invoke_target(&input).unwrap();
    assert_eq!(f, "math::add");
    assert_eq!(show(&data), "{\"a\":1}");
    let top = obj(vec![("function_id", s("f"))]);
    let (f, data) = invoke_target(&top).unwrap();
    assert_eq!(f, "f");
    assert_eq!(show(&data), "{}");
    assert_eq!(invoke_target(&obj(vec![])).unwrap_err(), "Missing function_id in request");
}

#[test]
fn trigger_listing() {
    let q = obj(vec![("query_params", obj(vec![("include_internal", s("TRUE"))]))]);
    assert_eq!(show(&include_internal_payload(&q)), "{\"include_internal\":true}");
    assert_eq!(show(&include_internal_payload(&obj(vec![]))), "{\"include_internal\":false}");
    let reply = obj(vec![("registered_triggers", JsonValue::Array(vec![s("t")])), ("total", n("1"))]);
    assert_eq!(show(&registered_triggers_reply(reply)), "{\"total\":1,\"triggers\":[\"t\"]}");
    let plain = obj(vec![("total", n("0"))]);
    assert_eq!(show(&registered_triggers_reply(plain)), "{\"total\":0}");
}

#[test]
fn trigger_types_sorted_and_unique() {
    let fallback = trigger_type_names(None);
    assert_eq!(
        fallback,
        vec![
            "api",
            "cron",
            "engine::functions-available",
            "event",
            "log",
            "state",
            "stream::join",
            "stream::leave",
            "subscribe"
        ]
    );
    let reply = obj(vec![(
        "triggers",
        JsonValue::Array(vec![obj(vec![("id", s("webhook"))]), obj(vec![("id", s("cron"))]), obj(vec![])]),
    )]);
    let names = trigger_type_names(Some(&reply));
    assert_eq!(names.len(), 10);
    assert_eq!(names[9], "webhook");
    let r = trigger_types_reply(vec!["a".to_string(), "b".to_string()]);
    assert_eq!(show(&r), "{\"trigger_types\":[\"a\",\"b\"]}");
}

#[test]
fn queue_topic_requests() {
    let input = obj(vec![("path_params", obj(vec![("topic", s("orders"))]))]);
    let (t, p) = topic_query(&input).unwrap();
    assert_eq!(t, "orders");
    assert_eq!(show(&p), "{\"topic\":\"orders\"}");
    assert_eq!(topic_query(&obj(vec![])).unwrap_err(), "Missing topic in path parameters");
    assert_eq!(show(&topic_reply("orders", "stats", n("4"))), "{\"topic\":\"orders\",\"stats\":4}");
}

#[test]
fn queue_publish() {
    let input = obj(vec![("topic", s("orders")), ("body", obj(vec![("data", obj(vec![("id", n("9"))]))]))]);
    let (t, p) = publish_request(&input).unwrap();
    assert_eq!(t, "orders");
    assert_eq!(show(&p), "{\"topic\":\"orders\",\"data\":{\"id\":9}}");
    let (_, p) = publish_request(&obj(vec![("topic", s("x"))])).unwrap();
    assert_eq!(show(&p), "{\"topic\":\"x\",\"data\":{}}");
    assert_eq!(show(&published_reply("x")), "{\"message\":\"Message published\",\"topic\":\"x\"}");
}

#[test]
fn dlq_page_defaults() {
    let input = obj(vec![("path_params", obj(vec![("topic", s("t"))]))]);
    let (_, p) = dlq_page_request(&input).unwrap();
    assert_eq!(show(&p), "{\"topic\":\"t\",\"offset\":0,\"limit\":50}");
    let paged = obj(vec![
        ("path_params", obj(vec![("topic", s("t"))])),
        ("body", obj(vec![("offset", n("10")), ("limit", n("-3"))])),
    ]);
    let (_, p) = dlq_page_request(&paged).unwrap();
    assert_eq!(show(&p), "{\"topic\":\"t\",\"offset\":10,\"limit\":50}");
    let float = obj(vec![("topic", s("t")), ("offset", n("1.5"))]);
    let (_, p) = dlq_page_request(&float).unwrap();
    assert_eq!(show(&p), "{\"topic\":\"t\",\"offset\":0,\"limit\":50}");
}

#[test]
fn dlq_actions() {
    let input = obj(vec![("topic", s("t"))]);
    assert_eq!(show(&redrive_request(&input).unwrap()), "{\"queue\":\"t\"}");
    let msg = obj(vec![("path_params", obj(vec![("topic", s("t")), ("id", s("m1"))]))]);
    assert_eq!(show(&dlq_message_request(&msg).unwrap()), "{\"queue\":\"t\",\"message_id\":\"m1\"}");
    let top_only = obj(vec![("topic", s("t")), ("id", s("m1"))]);
    assert_eq!(
        dlq_message_request(&top_only).unwrap_err(),
        "Missing topic or message id in path parameters"
    );
}

fn call_of(page: ConsolePage, input: &JsonValue) -> Result<(String, String, Option<u64>), String> {
    engine_call(page, input).map(|q| {
        assert!(q.action.is_none());
        (q.function_id, show(&q.payload), q.timeout_ms)
    })
}

#[test]
fn console_pages_call_the_engine() {
    let empty = obj(vec![]);
    assert_eq!(
        call_of(ConsolePage::Health, &empty).unwrap(),
        ("engine::health::check".to_string(), "{}".to_string(), Some(5000))
    );
    assert_eq!(
        call_of(ConsolePage::Triggers, &empty).unwrap(),
        ("engine::registered-triggers::list".to_string(), "{\"include_internal\":false}".to_string(), Some(5000))
    );
    assert_eq!(
        call_of(ConsolePage::TriggerTypes, &empty).unwrap(),
        ("engine::triggers::list".to_string(), "{\"include_internal\":true}".to_string(), Some(5000))
    );
    let tree = obj(vec![("trace_id", s("t1"))]);
    assert_eq!(
        call_of(ConsolePage::OtelTracesTree, &tree).unwrap(),
        ("engine::traces::tree".to_string(), "{\"trace_id\":\"t1\"}".to_string(), Some(10000))
    );
    assert_eq!(call_of(ConsolePage::OtelTracesTree, &empty).unwrap_err(), "Missing trace_id in request");
    assert_eq!(call_of(ConsolePage::StreamsList, &empty).unwrap().2, Some(10000));
    let logs = obj(vec![("body", obj(vec![("limit", n("5"))]))]);
    assert_eq!(call_of(ConsolePage::OtelLogsList, &logs).unwrap().1, "{\"limit\":5}");
    let flow = obj(vec![("flow_id", s("f1"))]);
    assert_eq!(
        call_of(ConsolePage::FlowConfigGet, &flow).unwrap(),
        ("state::get".to_string(), "{\"scope\":\"__console.flowConfigs\",\"key\":\"f1\"}".to_string(), Some(5000))
    );
    let invoke = obj(vec![("function_id", s("math::add")), ("input", n("1"))]);
    assert_eq!(
        call_of(ConsolePage::Invoke, &invoke).unwrap(),
        ("math::add".to_string(), "1".to_string(), Some(30000))
    );
    let dlq = obj(vec![("path_params", obj(vec![("topic", s("t")), ("id", s("m"))]))]);
    assert_eq!(
        call_of(ConsolePage::DlqDiscardMessage, &dlq).unwrap(),
        ("iii::queue::discard_message".to_string(), "{\"queue\":\"t\",\"message_id\":\"m\"}".to_string(), Some(30000))
    );
    assert_eq!(
        call_of(ConsolePage::QueueDetail, &empty).unwrap_err(),
        "Missing topic in path parameters"
    );
}

#[test]
fn fan_out_pages_make_three_calls() {
    let st = status_calls();
    assert_eq!(st.len(), 3);
    assert_eq!(st[1].function_id, "engine::functions::list");
    assert_eq!(show(&st[1].payload), "{\"include_internal\":true}");
    assert_eq!(st[2].function_id, "engine::metrics::list");
    let ad = adapters_calls();
    assert_eq!(ad[1].function_id, "engine::registered-triggers::list");
    assert_eq!(ad[2].function_id, "engine::health::check");
    assert!(ad.iter().all(|q| q.timeout_ms == Some(5000) && q.action.is_none()));
    let lookup = cron_lookup_call();
    assert_eq!(lookup.function_id, "engine::registered-triggers::list");
    let run = cron_run_call("jobs::cleanup", obj(vec![]));
    assert_eq!(run.function_id, "jobs::cleanup");
    assert_eq!(run.timeout_ms, Some(30000));
}
