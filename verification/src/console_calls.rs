//! The engine call behind each console page: which engine function it
//! calls, with what payload and deadline, or why the request is refused
//! before any call is made.

use vstd::prelude::*;
use vstd::string::StringExecFns;

use crate::console::bool_param;
use crate::console_queue::{
    dlq_message_request, dlq_message_spec, dlq_page_request, dlq_page_spec, publish_request, publish_spec,
    redrive_request, redrive_spec, topic_query, topic_query_spec,
};
use crate::console_state::{
    body_or_self, checked_flow_id, flow_config_key, flow_config_query, flow_config_save_payload,
    flow_config_save_spec, flow_id_param, forwarded_body, include_internal_payload, invoke_spec, invoke_target,
    named_payload_result, payload_result, scope_payload, scope_spec, state_delete_payload, state_delete_spec,
    state_set_payload, state_set_spec, trace_tree_payload, trace_tree_spec, FLOW_CONFIG_GROUP,
};
use crate::json::{object, Json, JsonValue};
use crate::protocol::TriggerRequest;

verus! {

/// The console pages that each make one engine call.
#[derive(Debug, Clone, Copy, PartialEq, Eq, Structural)]
pub enum ConsolePage {
    Health,
    Workers,
    Triggers,
    Functions,
    TriggerTypes,
    AlertsList,
    SamplingRules,
    OtelLogsList,
    OtelLogsClear,
    OtelTracesList,
    OtelTracesClear,
    OtelTracesTree,
    MetricsDetailed,
    RollupsList,
    StateGroupsList,
    StateGroupItems,
    StateItemSet,
    StateItemDelete,
    StreamsList,
    FlowConfigGet,
    FlowConfigSave,
    Invoke,
    QueuesList,
    QueueDetail,
    QueuePublish,
    DlqList,
    DlqMessages,
    DlqRedrive,
    DlqRedriveMessage,
    DlqDiscardMessage,
}

/// The usual deadline of a console call (ms).
pub const CONSOLE_CALL_TIMEOUT_MS: u64 = 5000;

/// The deadline of the trace-tree and stream-list calls (ms).
pub const CONSOLE_SLOW_CALL_TIMEOUT_MS: u64 = 10000;

/// The deadline of invocations and dead-letter operations (ms).
pub const CONSOLE_LONG_CALL_TIMEOUT_MS: u64 = 30000;

pub open spec fn empty_object() -> Json {
    Json::Object(seq![])
}

/// A call: the engine function, the payload and the deadline.
pub open spec fn call(function_id: Seq<char>, payload: Json, timeout_ms: u64) -> Result<(Seq<char>, Json, u64), Seq<char>> {
    Ok((function_id, payload, timeout_ms))
}

/// A call whose payload may be refused.
pub open spec fn call_with(
    function_id: Seq<char>,
    payload: Result<Json, Seq<char>>,
    timeout_ms: u64,
) -> Result<(Seq<char>, Json, u64), Seq<char>> {
    match payload {
        Ok(p) => Ok((function_id, p, timeout_ms)),
        Err(e) => Err(e),
    }
}

/// A call whose named payload may be refused (the name is not needed for
/// the call itself).
pub open spec fn call_with_named(
    function_id: Seq<char>,
    payload: Result<(Seq<char>, Json), Seq<char>>,
    timeout_ms: u64,
) -> Result<(Seq<char>, Json, u64), Seq<char>> {
    match payload {
        Ok(p) => Ok((function_id, p.1, timeout_ms)),
        Err(e) => Err(e),
    }
}

/// The `include_internal` flag of a listing request, as a payload.
pub open spec fn include_internal_model(input: Json) -> Json {
    Json::Object(seq![("include_internal"@, Json::Bool(bool_param(input, "include_internal"@)))])
}

/// The engine call a console page makes for a request.
pub open spec fn engine_call_spec(page: ConsolePage, input: Json) -> Result<(Seq<char>, Json, u64), Seq<char>> {
    match page {
        ConsolePage::Health => call("engine::health::check"@, empty_object(), CONSOLE_CALL_TIMEOUT_MS),
        ConsolePage::Workers => call("engine::workers::list"@, empty_object(), CONSOLE_CALL_TIMEOUT_MS),
        ConsolePage::Triggers => call(
            "engine::registered-triggers::list"@,
            include_internal_model(input),
            CONSOLE_CALL_TIMEOUT_MS,
        ),
        ConsolePage::Functions => call("engine::functions::list"@, include_internal_model(input), CONSOLE_CALL_TIMEOUT_MS),
        ConsolePage::TriggerTypes => call(
            "engine::triggers::list"@,
            Json::Object(seq![("include_internal"@, Json::Bool(true))]),
            CONSOLE_CALL_TIMEOUT_MS,
        ),
        ConsolePage::AlertsList => call("engine::alerts::list"@, empty_object(), CONSOLE_CALL_TIMEOUT_MS),
        ConsolePage::SamplingRules => call("engine::sampling::rules"@, empty_object(), CONSOLE_CALL_TIMEOUT_MS),
        ConsolePage::OtelLogsList => call("engine::logs::list"@, body_or_self(input), CONSOLE_CALL_TIMEOUT_MS),
        ConsolePage::OtelLogsClear => call("engine::logs::clear"@, empty_object(), CONSOLE_CALL_TIMEOUT_MS),
        ConsolePage::OtelTracesList => call("engine::traces::list"@, body_or_self(input), CONSOLE_CALL_TIMEOUT_MS),
        ConsolePage::OtelTracesClear => call("engine::traces::clear"@, empty_object(), CONSOLE_CALL_TIMEOUT_MS),
        ConsolePage::OtelTracesTree => call_with("engine::traces::tree"@, trace_tree_spec(input), CONSOLE_SLOW_CALL_TIMEOUT_MS),
        ConsolePage::MetricsDetailed => call("engine::metrics::list"@, body_or_self(input), CONSOLE_CALL_TIMEOUT_MS),
        ConsolePage::RollupsList => call("engine::rollups::list"@, body_or_self(input), CONSOLE_CALL_TIMEOUT_MS),
        ConsolePage::StateGroupsList => call("state::list_groups"@, empty_object(), CONSOLE_CALL_TIMEOUT_MS),
        ConsolePage::StateGroupItems => call_with("state::list"@, scope_spec(input), CONSOLE_CALL_TIMEOUT_MS),
        ConsolePage::StateItemSet => call_with("state::set"@, state_set_spec(input), CONSOLE_CALL_TIMEOUT_MS),
        ConsolePage::StateItemDelete => call_with("state::delete"@, state_delete_spec(input), CONSOLE_CALL_TIMEOUT_MS),
        ConsolePage::StreamsList => call("stream::list_all"@, empty_object(), CONSOLE_SLOW_CALL_TIMEOUT_MS),
        ConsolePage::FlowConfigGet => match checked_flow_id(flow_id_param(input)) {
            Ok(id) => call(
                "state::get"@,
                Json::Object(seq![("scope"@, Json::Str(FLOW_CONFIG_GROUP@)), ("key"@, Json::Str(id))]),
                CONSOLE_CALL_TIMEOUT_MS,
            ),
            Err(e) => Err(e),
        },
        ConsolePage::FlowConfigSave => call_with("state::set"@, flow_config_save_spec(input), CONSOLE_CALL_TIMEOUT_MS),
        ConsolePage::Invoke => match invoke_spec(input) {
            Ok(p) => call(p.0, p.1, CONSOLE_LONG_CALL_TIMEOUT_MS),
            Err(e) => Err(e),
        },
        ConsolePage::QueuesList => call("engine::queue::list_topics"@, empty_object(), CONSOLE_CALL_TIMEOUT_MS),
        ConsolePage::QueueDetail => call_with_named(
            "engine::queue::topic_stats"@,
            topic_query_spec(input),
            CONSOLE_CALL_TIMEOUT_MS,
        ),
        ConsolePage::QueuePublish => call_with_named("iii::durable::publish"@, publish_spec(input), CONSOLE_CALL_TIMEOUT_MS),
        ConsolePage::DlqList => call("engine::queue::dlq_topics"@, empty_object(), CONSOLE_CALL_TIMEOUT_MS),
        ConsolePage::DlqMessages => call_with_named(
            "engine::queue::dlq_messages"@,
            dlq_page_spec(input),
            CONSOLE_CALL_TIMEOUT_MS,
        ),
        ConsolePage::DlqRedrive => call_with("iii::queue::redrive"@, redrive_spec(input), CONSOLE_LONG_CALL_TIMEOUT_MS),
        ConsolePage::DlqRedriveMessage => call_with(
            "iii::queue::redrive_message"@,
            dlq_message_spec(input),
            CONSOLE_LONG_CALL_TIMEOUT_MS,
        ),
        ConsolePage::DlqDiscardMessage => call_with(
            "iii::queue::discard_message"@,
            dlq_message_spec(input),
            CONSOLE_LONG_CALL_TIMEOUT_MS,
        ),
    }
}

/// A request as its model: the function, the payload and the deadline.
pub open spec fn request_model(r: Result<TriggerRequest, String>) -> Result<(Seq<char>, Json, Option<u64>), Seq<char>> {
    match r {
        Ok(q) => Ok((q.function_id@, q.payload.model(), q.timeout_ms)),
        Err(m) => Err(m@),
    }
}

pub open spec fn spec_request_model(c: Result<(Seq<char>, Json, u64), Seq<char>>) -> Result<(Seq<char>, Json, Option<u64>), Seq<char>> {
    match c {
        Ok(p) => Ok((p.0, p.1, Some(p.2))),
        Err(e) => Err(e),
    }
}

fn empty() -> (r: JsonValue)
    ensures
        r.model() == empty_object(),
{
    let r = object(Vec::new());
    assert(r.model()->Object_0 =~= Seq::<(Seq<char>, Json)>::empty());
    r
}

fn request(function_id: &str, payload: JsonValue, timeout_ms: u64) -> (r: Result<TriggerRequest, String>)
    ensures
        request_model(r) == spec_request_model(call(function_id@, payload.model(), timeout_ms)),
        r matches Ok(q) ==> q.action is None,
{
    Ok(TriggerRequest { function_id: String::from_str(function_id), payload, action: None, timeout_ms: Some(timeout_ms) })
}

fn request_with(function_id: &str, payload: Result<JsonValue, String>, timeout_ms: u64) -> (r: Result<TriggerRequest, String>)
    ensures
        request_model(r) == spec_request_model(call_with(function_id@, payload_result(payload), timeout_ms)),
        r matches Ok(q) ==> q.action is None,
{
    match payload {
        Ok(p) => request(function_id, p, timeout_ms),
        Err(e) => Err(e),
    }
}

fn request_with_named(function_id: &str, payload: Result<(String, JsonValue), String>, timeout_ms: u64) -> (r: Result<TriggerRequest, String>)
    ensures
        request_model(r) == spec_request_model(call_with_named(function_id@, named_payload_result(payload), timeout_ms)),
        r matches Ok(q) ==> q.action is None,
{
    match payload {
        Ok(p) => request(function_id, p.1, timeout_ms),
        Err(e) => Err(e),
    }
}

/// The engine call of a console page for a request, or the handler error
/// that refuses the request. Console calls wait for the answer.
pub fn engine_call(page: ConsolePage, input: &JsonValue) -> (r: Result<TriggerRequest, String>)
    ensures
        request_model(r) == spec_request_model(engine_call_spec(page, input.model())),
        r matches Ok(q) ==> q.action is None,
{
    match page {
        ConsolePage::Health => request("engine::health::check", empty(), CONSOLE_CALL_TIMEOUT_MS),
        ConsolePage::Workers => request("engine::workers::list", empty(), CONSOLE_CALL_TIMEOUT_MS),
        ConsolePage::Triggers => request(
            "engine::registered-triggers::list",
            include_internal_payload(input),
            CONSOLE_CALL_TIMEOUT_MS,
        ),
        ConsolePage::Functions => request("engine::functions::list", include_internal_payload(input), CONSOLE_CALL_TIMEOUT_MS),
        ConsolePage::TriggerTypes => {
            let mut m: Vec<(String, JsonValue)> = Vec::new();
            m.push((String::from_str("include_internal"), JsonValue::Bool(true)));
            let p = object(m);
            assert(p.model()->Object_0 =~= seq![("include_internal"@, Json::Bool(true))]);
            request("engine::triggers::list", p, CONSOLE_CALL_TIMEOUT_MS)
        },
        ConsolePage::AlertsList => request("engine::alerts::list", empty(), CONSOLE_CALL_TIMEOUT_MS),
        ConsolePage::SamplingRules => request("engine::sampling::rules", empty(), CONSOLE_CALL_TIMEOUT_MS),
        ConsolePage::OtelLogsList => request("engine::logs::list", forwarded_body(input), CONSOLE_CALL_TIMEOUT_MS),
        ConsolePage::OtelLogsClear => request("engine::logs::clear", empty(), CONSOLE_CALL_TIMEOUT_MS),
        ConsolePage::OtelTracesList => request("engine::traces::list", forwarded_body(input), CONSOLE_CALL_TIMEOUT_MS),
        ConsolePage::OtelTracesClear => request("engine::traces::clear", empty(), CONSOLE_CALL_TIMEOUT_MS),
        ConsolePage::OtelTracesTree => request_with(
            "engine::traces::tree",
            trace_tree_payload(input),
            CONSOLE_SLOW_CALL_TIMEOUT_MS,
        ),
        ConsolePage::MetricsDetailed => request("engine::metrics::list", forwarded_body(input), CONSOLE_CALL_TIMEOUT_MS),
        ConsolePage::RollupsList => request("engine::rollups::list", forwarded_body(input), CONSOLE_CALL_TIMEOUT_MS),
        ConsolePage::StateGroupsList => request("state::list_groups", empty(), CONSOLE_CALL_TIMEOUT_MS),
        ConsolePage::StateGroupItems => request_with("state::list", scope_payload(input), CONSOLE_CALL_TIMEOUT_MS),
        ConsolePage::StateItemSet => request_with("state::set", state_set_payload(input), CONSOLE_CALL_TIMEOUT_MS),
        ConsolePage::StateItemDelete => request_with("state::delete", state_delete_payload(input), CONSOLE_CALL_TIMEOUT_MS),
        ConsolePage::StreamsList => request("stream::list_all", empty(), CONSOLE_SLOW_CALL_TIMEOUT_MS),
        ConsolePage::FlowConfigGet => match flow_config_key(input) {
            Ok(id) => request("state::get", flow_config_query(id.as_str()), CONSOLE_CALL_TIMEOUT_MS),
            Err(e) => Err(e),
        },
        ConsolePage::FlowConfigSave => request_with("state::set", flow_config_save_payload(input), CONSOLE_CALL_TIMEOUT_MS),
        ConsolePage::Invoke => match invoke_target(input) {
            Ok(p) => request(p.0.as_str(), p.1, CONSOLE_LONG_CALL_TIMEOUT_MS),
            Err(e) => Err(e),
        },
        ConsolePage::QueuesList => request("engine::queue::list_topics", empty(), CONSOLE_CALL_TIMEOUT_MS),
        ConsolePage::QueueDetail => request_with_named(
            "engine::queue::topic_stats",
            topic_query(input),
            CONSOLE_CALL_TIMEOUT_MS,
        ),
        ConsolePage::QueuePublish => request_with_named("iii::durable::publish", publish_request(input), CONSOLE_CALL_TIMEOUT_MS),
        ConsolePage::DlqList => request("engine::queue::dlq_topics", empty(), CONSOLE_CALL_TIMEOUT_MS),
        ConsolePage::DlqMessages => request_with_named(
            "engine::queue::dlq_messages",
            dlq_page_request(input),
            CONSOLE_CALL_TIMEOUT_MS,
        ),
        ConsolePage::DlqRedrive => request_with("iii::queue::redrive", redrive_request(input), CONSOLE_LONG_CALL_TIMEOUT_MS),
        ConsolePage::DlqRedriveMessage => request_with(
            "iii::queue::redrive_message",
            dlq_message_request(input),
            CONSOLE_LONG_CALL_TIMEOUT_MS,
        ),
        ConsolePage::DlqDiscardMessage => request_with(
            "iii::queue::discard_message",
            dlq_message_request(input),
            CONSOLE_LONG_CALL_TIMEOUT_MS,
        ),
    }
}

/// `q` calls `function_id` with `payload` and waits at most `timeout_ms`.
pub open spec fn calls(q: TriggerRequest, function_id: Seq<char>, payload: Json, timeout_ms: u64) -> bool {
    &&& q.function_id@ == function_id
    &&& q.payload.model() == payload
    &&& q.action is None
    &&& q.timeout_ms == Some(timeout_ms)
}

fn plain_request(function_id: &str, payload: JsonValue, timeout_ms: u64) -> (q: TriggerRequest)
    ensures
        calls(q, function_id@, payload.model(), timeout_ms),
{
    TriggerRequest { function_id: String::from_str(function_id), payload, action: None, timeout_ms: Some(timeout_ms) }
}

fn internal_too() -> (r: JsonValue)
    ensures
        r.model() == Json::Object(seq![("include_internal"@, Json::Bool(true))]),
{
    let mut m: Vec<(String, JsonValue)> = Vec::new();
    m.push((String::from_str("include_internal"), JsonValue::Bool(true)));
    let p = object(m);
    assert(p.model()->Object_0 =~= seq![("include_internal"@, Json::Bool(true))]);
    p
}

/// The three calls behind the status page, made together: the worker
/// list, the function list (internal ones included) and the metrics.
pub fn status_calls() -> (r: Vec<TriggerRequest>)
    ensures
        r@.len() == 3,
        calls(r@[0], "engine::workers::list"@, empty_object(), CONSOLE_CALL_TIMEOUT_MS),
        calls(
            r@[1],
            "engine::functions::list"@,
            Json::Object(seq![("include_internal"@, Json::Bool(true))]),
            CONSOLE_CALL_TIMEOUT_MS,
        ),
        calls(r@[2], "engine::metrics::list"@, empty_object(), CONSOLE_CALL_TIMEOUT_MS),
{
    let mut r: Vec<TriggerRequest> = Vec::new();
    r.push(plain_request("engine::workers::list", empty(), CONSOLE_CALL_TIMEOUT_MS));
    r.push(plain_request("engine::functions::list", internal_too(), CONSOLE_CALL_TIMEOUT_MS));
    r.push(plain_request("engine::metrics::list", empty(), CONSOLE_CALL_TIMEOUT_MS));
    r
}

/// The three calls behind the adapters page, made together: the worker
/// list, the registered triggers (internal ones included) and the health
/// check.
pub fn adapters_calls() -> (r: Vec<TriggerRequest>)
    ensures
        r@.len() == 3,
        calls(r@[0], "engine::workers::list"@, empty_object(), CONSOLE_CALL_TIMEOUT_MS),
        calls(
            r@[1],
            "engine::registered-triggers::list"@,
            Json::Object(seq![("include_internal"@, Json::Bool(true))]),
            CONSOLE_CALL_TIMEOUT_MS,
        ),
        calls(r@[2], "engine::health::check"@, empty_object(), CONSOLE_CALL_TIMEOUT_MS),
{
    let mut r: Vec<TriggerRequest> = Vec::new();
    r.push(plain_request("engine::workers::list", empty(), CONSOLE_CALL_TIMEOUT_MS));
    r.push(plain_request("engine::registered-triggers::list", internal_too(), CONSOLE_CALL_TIMEOUT_MS));
    r.push(plain_request("engine::health::check", empty(), CONSOLE_CALL_TIMEOUT_MS));
    r
}

/// A manual cron run first looks its trigger up among the registered
/// triggers (internal ones included).
pub fn cron_lookup_call() -> (q: TriggerRequest)
    ensures
        calls(
            q,
            "engine::registered-triggers::list"@,
            Json::Object(seq![("include_internal"@, Json::Bool(true))]),
            CONSOLE_CALL_TIMEOUT_MS,
        ),
{
    plain_request("engine::registered-triggers::list", internal_too(), CONSOLE_CALL_TIMEOUT_MS)
}

/// Then it calls the trigger's function with the cron payload.
pub fn cron_run_call(function_id: &str, payload: JsonValue) -> (q: TriggerRequest)
    ensures
        calls(q, function_id@, payload.model(), CONSOLE_LONG_CALL_TIMEOUT_MS),
{
    plain_request(function_id, payload, CONSOLE_LONG_CALL_TIMEOUT_MS)
}

} // verus!
