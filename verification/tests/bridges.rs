use iii_core::queue_bridge::SubscribePlan;
use iii_core::protocol::TriggerAction;
use iii_core::queue_bridge::{build_enqueue_payload, enqueue_request, function_queue_request, ENQUEUE_FUNCTION_ID};
use iii_core::queue_bridge::{adapter_bridge_url, dlq_unsupported, handler_path, subscriber_trigger, trace_headers, QueueSubscriptions, SUBSCRIBER_TRIGGER_TYPE};
use iii_core::protocol::ErrorBody;
use iii_core::queue_bridge::after_condition;
use iii_core::json::JsonValue;
use iii_core::protocol::TriggerRequest;
use iii_core::stream_bridge::{
    stream_delete_request, stream_event_request, stream_event_trigger, stream_get_request, stream_group_request,
    stream_groups_request, stream_handler_id, stream_set_request, stream_update_request, unreadable_event,
    STREAM_EVENTS_TOPIC,
};

fn s(t: &str) -> JsonValue {
    JsonValue::Str(t.to_string())
}

fn obj(pairs: Vec<(&str, JsonValue)>) -> JsonValue {
    JsonValue::Object(pairs.into_iter().map(|(k, v)| (k.to_string(), v)).collect())
}

fn show(v: &JsonValue) -> String {
    match v {
        JsonValue::Null => "null".to_string(),
        JsonValue::Bool(b) => b.to_string(),
        JsonValue::Number(t) => t.clone(),
        JsonValue::Str(t) => format!("\"{}\"", t),
        JsonValue::Array(items) => format!("[{}]", items.iter().map(show).collect::<Vec<_>>().join(",")),
        JsonValue::Object(ms) => format!(
            "{{{}}}",
            ms.iter().map(|(k, v)| format!("\"{}\":{}", k, show(v))).collect::<Vec<_>>().join(",")
        ),
    }
}

fn plain(r: &TriggerRequest, function_id: &str) -> String {
    assert_eq!(r.function_id, function_id);
    assert!(r.action.is_none());
    assert!(r.timeout_ms.is_none());
    show(&r.payload)
}

#[test]
fn stream_item_requests() {
    let get = stream_get_request("chat", "room", "m1");
    assert_eq!(plain(&get, "stream::get"), "{\"stream_name\":\"chat\",\"group_id\":\"room\",\"item_id\":\"m1\"}");
    let del = stream_delete_request("chat", "room", "m1");
    assert_eq!(plain(&del, "stream::delete"), "{\"stream_name\":\"chat\",\"group_id\":\"room\",\"item_id\":\"m1\"}");
    let set = stream_set_request("chat", "room", "m1", obj(vec![("text", s("hi"))]));
    assert_eq!(
        plain(&set, "stream::set"),
        "{\"stream_name\":\"chat\",\"group_id\":\"room\",\"item_id\":\"m1\",\"data\":{\"text\":\"hi\"}}"
    );
    let upd = stream_update_request("chat", "room", "m1", vec![obj(vec![("type", s("remove"))])]);
    assert_eq!(
        plain(&upd, "stream::update"),
        "{\"stream_name\":\"chat\",\"group_id\":\"room\",\"item_id\":\"m1\",\"ops\":[{\"type\":\"remove\"}]}"
    );
}

#[test]
fn stream_group_requests() {
    let list = stream_group_request("chat", "room");
    assert_eq!(plain(&list, "stream::list"), "{\"stream_name\":\"chat\",\"group_id\":\"room\"}");
    let groups = stream_groups_request("chat");
    assert_eq!(plain(&groups, "stream::list_groups"), "{\"stream_name\":\"chat\"}");
}

#[test]
fn stream_events_go_through_publish() {
    let ev = stream_event_request(obj(vec![("event", s("create"))]));
    assert_eq!(plain(&ev, "publish"), "{\"topic\":\"stream.events\",\"data\":{\"event\":\"create\"}}");
    assert_eq!(STREAM_EVENTS_TOPIC, "stream.events");
    let handler = stream_handler_id("1234");
    assert_eq!(handler, "stream::bridge::on_pub::1234");
    let (kind, function, config) = stream_event_trigger(&handler);
    assert_eq!(kind, "subscribe");
    assert_eq!(function, handler);
    assert_eq!(show(&config), "{\"topic\":\"stream.events\"}");
    let err = unreadable_event("missing field `id`");
    assert_eq!(err.code, "DESERIALIZATION_ERROR");
    assert_eq!(err.message, "Failed to deserialize stream message: missing field `id`");
    assert!(err.stacktrace.is_none());
}

#[test]
fn queue_bridge_enqueue_payloads() {
    let p = build_enqueue_payload("orders", s("x"), Some("00-abc-01"), None);
    assert_eq!(show(&p), "{\"topic\":\"orders\",\"data\":\"x\",\"__traceparent\":\"00-abc-01\"}");
    let p = build_enqueue_payload("orders", s("x"), None, Some("k=v"));
    assert_eq!(show(&p), "{\"topic\":\"orders\",\"data\":\"x\",\"__baggage\":\"k=v\"}");
    let r = enqueue_request("orders", JsonValue::Null, None, None);
    assert_eq!(r.function_id, ENQUEUE_FUNCTION_ID);
    assert_eq!(ENQUEUE_FUNCTION_ID, "iii::durable::publish");
    assert!(matches!(r.action, Some(TriggerAction::Void)));
    assert_eq!(show(&r.payload), "{\"topic\":\"orders\",\"data\":null}");
    let r = function_queue_request("emails", "mail::send", obj(vec![("to", s("a@b"))]));
    assert_eq!(r.function_id, "mail::send");
    assert!(matches!(r.action, Some(TriggerAction::Enqueue { ref queue }) if queue == "emails"));
    assert_eq!(show(&r.payload), "{\"to\":\"a@b\"}");
}

#[test]
fn queue_bridge_subscriptions() {
    let mut subs = QueueSubscriptions::new();
    assert!(!subs.is_subscribed("orders", "s1"));
    let h = handler_path("u-1");
    assert_eq!(h, "queue::bridge::on_message::u-1");
    subs.record("orders", "s1", h.clone());
    assert!(subs.is_subscribed("orders", "s1"));
    assert!(!subs.is_subscribed("orders", "s2"));
    assert_eq!(subs.remove("orders", "s1"), Some(h.clone()));
    assert_eq!(subs.remove("orders", "s1"), None);
    let (kind, function, config) = subscriber_trigger("orders", &h);
    assert_eq!(kind, SUBSCRIBER_TRIGGER_TYPE);
    assert_eq!(kind, "durable:subscriber");
    assert_eq!(function, h);
    assert_eq!(show(&config), "{\"topic\":\"orders\"}");
    let data = obj(vec![("__traceparent", s("tp")), ("__baggage", JsonValue::Bool(true))]);
    assert_eq!(trace_headers(&data), (Some("tp".to_string()), None));
    assert_eq!(dlq_unsupported(), "Bridge queue adapter does not support DLQ operations");
    assert_eq!(adapter_bridge_url(&None), "ws://localhost:49134");
    assert_eq!(adapter_bridge_url(&Some(obj(vec![("bridge_url", s("ws://x:1"))]))), "ws://x:1");
    assert_eq!(adapter_bridge_url(&Some(obj(vec![("bridge_url", JsonValue::Null)]))), "ws://localhost:49134");
}

#[test]
fn queue_bridge_condition_outcomes() {
    assert!(after_condition(Ok(true)).is_none());
    assert!(matches!(after_condition(Ok(false)), Some(Ok(JsonValue::Null))));
    let e = ErrorBody { code: "E".into(), message: "bad".into(), stacktrace: None };
    assert!(matches!(after_condition(Err(e)), Some(Err(ref b)) if b.message == "bad"));
}

#[test]
fn test_enqueue_uses_enqueue_function_id() {
    assert_eq!(iii_core::queue_bridge::ENQUEUE_FUNCTION_ID, "iii::durable::publish");
}

#[test]
fn test_enqueue_builds_enqueue_payload() {
    let payload = build_enqueue_payload("topic.orders.created", obj(vec![("order_id", s("o-1"))]), None, None);
    assert!(matches!(payload.get("topic"), Some(JsonValue::Str(t)) if t == "topic.orders.created"));
    let data = payload.get("data").unwrap();
    assert!(matches!(data.get("order_id"), Some(JsonValue::Str(t)) if t == "o-1"));
    assert!(payload.get("__traceparent").is_none());
    assert!(payload.get("__baggage").is_none());
}

#[test]
fn test_enqueue_builds_enqueue_payload_with_trace_context() {
    let payload = build_enqueue_payload(
        "topic.orders.created",
        obj(vec![("order_id", s("o-1"))]),
        Some("00-4bf92f3577b34da6a3ce929d0e0e4736-00f067aa0ba902b7-01"),
        Some("key=value"),
    );
    assert!(matches!(payload.get("topic"), Some(JsonValue::Str(t)) if t == "topic.orders.created"));
    let data = payload.get("data").unwrap();
    assert!(matches!(data.get("order_id"), Some(JsonValue::Str(t)) if t == "o-1"));
    assert!(matches!(
        payload.get("__traceparent"),
        Some(JsonValue::Str(t)) if t == "00-4bf92f3577b34da6a3ce929d0e0e4736-00f067aa0ba902b7-01"
    ));
    assert!(matches!(payload.get("__baggage"), Some(JsonValue::Str(t)) if t == "key=value"));
}

#[test]
fn queue_bridge_subscribe_steps() {
    let mut subs = QueueSubscriptions::new();
    match subs.plan_subscription("orders", "s1", "u-7") {
        SubscribePlan::Register { handler, trigger } => {
            assert_eq!(handler, "queue::bridge::on_message::u-7");
            assert_eq!(trigger.0, "durable:subscriber");
            assert_eq!(trigger.1, handler);
            assert_eq!(show(&trigger.2), "{\"topic\":\"orders\"}");
            subs.finish_subscription("orders", "s1", handler.clone(), false);
            assert!(!subs.is_subscribed("orders", "s1"));
            subs.finish_subscription("orders", "s1", handler, true);
            assert!(subs.is_subscribed("orders", "s1"));
        }
        _ => panic!("a new subscription is registered"),
    }
    assert!(matches!(
        subs.plan_subscription("orders", "s1", "u-8"),
        SubscribePlan::Duplicate
    ));
    assert!(matches!(subs.begin_subscription("orders", "s1"), SubscribePlan::Duplicate));
    match subs.begin_subscription("orders", "s2") {
        SubscribePlan::Register { handler, .. } => {
            let uuid = handler.strip_prefix("queue::bridge::on_message::").unwrap();
            assert_eq!(uuid.len(), 36);
            assert_eq!(uuid.as_bytes()[14], b'4');
            assert!(matches!(uuid.as_bytes()[19], b'8' | b'9' | b'a' | b'b'));
        }
        _ => panic!("a new subscription is registered"),
    }
    subs.finish_subscription("orders", "s1", "other".to_string(), true);
    assert_eq!(subs.remove("orders", "s1"), Some("queue::bridge::on_message::u-7".to_string()));
}
