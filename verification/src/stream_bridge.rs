//! The bridge stream adapter: stream operations forwarded to a remote
//! engine. Here are the requests it sends, the subscription through which
//! remote stream events come back, and the error for an event it cannot
//! read.

use vstd::prelude::*;
use vstd::string::StringExecFns;

use crate::json::{object, Json, JsonValue};
use crate::protocol::{ErrorBody, TriggerRequest};
use crate::text::join2;

verus! {

/// The topic on which stream events are published between engines.
pub const STREAM_EVENTS_TOPIC: &'static str = "stream.events";

/// The error code of a stream event that could not be read.
pub const UNREADABLE_EVENT_CODE: &'static str = "DESERIALIZATION_ERROR";

fn text_value(t: &str) -> (r: JsonValue)
    ensures
        r.model() == Json::Str(t@),
{
    JsonValue::Str(String::from_str(t))
}

/// A request to the remote engine that waits for its answer, with no
/// deadline of its own.
pub open spec fn plain_request(r: TriggerRequest, function_id: Seq<char>, payload: Json) -> bool {
    &&& r.function_id@ == function_id
    &&& r.payload.model() == payload
    &&& r.action is None
    &&& r.timeout_ms is None
}

fn request(function_id: &str, payload: JsonValue) -> (r: TriggerRequest)
    ensures
        plain_request(r, function_id@, payload.model()),
{
    TriggerRequest { function_id: String::from_str(function_id), payload, action: None, timeout_ms: None }
}

/// The address of one stream item.
pub open spec fn item_address(stream: Seq<char>, group: Seq<char>, item: Seq<char>) -> Seq<(Seq<char>, Json)> {
    seq![("stream_name"@, Json::Str(stream)), ("group_id"@, Json::Str(group)), ("item_id"@, Json::Str(item))]
}

fn address_members(stream: &str, group: &str, item: &str) -> (r: Vec<(String, JsonValue)>)
    ensures
        r@.map_values(|m: (String, JsonValue)| (m.0@, m.1.model())) == item_address(stream@, group@, item@),
{
    let mut m: Vec<(String, JsonValue)> = Vec::new();
    m.push((String::from_str("stream_name"), text_value(stream)));
    m.push((String::from_str("group_id"), text_value(group)));
    m.push((String::from_str("item_id"), text_value(item)));
    assert(m@.map_values(|m: (String, JsonValue)| (m.0@, m.1.model())) =~= item_address(stream@, group@, item@));
    m
}

/// The request that reads one stream item.
pub fn stream_get_request(stream: &str, group: &str, item: &str) -> (r: TriggerRequest)
    ensures
        plain_request(r, "stream::get"@, Json::Object(item_address(stream@, group@, item@))),
{
    request("stream::get", object(address_members(stream, group, item)))
}

/// The request that deletes one stream item.
pub fn stream_delete_request(stream: &str, group: &str, item: &str) -> (r: TriggerRequest)
    ensures
        plain_request(r, "stream::delete"@, Json::Object(item_address(stream@, group@, item@))),
{
    request("stream::delete", object(address_members(stream, group, item)))
}

/// The request that writes one stream item.
pub fn stream_set_request(stream: &str, group: &str, item: &str, data: JsonValue) -> (r: TriggerRequest)
    ensures
        plain_request(r, "stream::set"@, Json::Object(item_address(stream@, group@, item@).push(("data"@, data.model())))),
{
    let ghost dm = data.model();
    let mut m = address_members(stream, group, item);
    let ghost before = m@;
    m.push((String::from_str("data"), data));
    assert(m@.map_values(|m: (String, JsonValue)| (m.0@, m.1.model())) =~= item_address(stream@, group@, item@).push(("data"@, dm))) by {
        assert(m@ =~= before.push(m@[before.len() as int]));
    }
    request("stream::set", object(m))
}

/// The request that applies update operations (each already in its wire
/// form) to one stream item.
pub fn stream_update_request(stream: &str, group: &str, item: &str, ops: Vec<JsonValue>) -> (r: TriggerRequest)
    ensures
        plain_request(
            r,
            "stream::update"@,
            Json::Object(item_address(stream@, group@, item@).push(("ops"@, Json::Array(ops@.map_values(|o: JsonValue| o.model()))))),
        ),
{
    let ghost om = ops@.map_values(|o: JsonValue| o.model());
    let arr = JsonValue::Array(ops);
    assert(arr.model()->Array_0 =~= om);
    let mut m = address_members(stream, group, item);
    let ghost before = m@;
    m.push((String::from_str("ops"), arr));
    assert(m@.map_values(|m: (String, JsonValue)| (m.0@, m.1.model())) =~= item_address(stream@, group@, item@).push(("ops"@, Json::Array(om)))) by {
        assert(m@ =~= before.push(m@[before.len() as int]));
    }
    request("stream::update", object(m))
}

/// The request that lists the items of a group.
pub fn stream_group_request(stream: &str, group: &str) -> (r: TriggerRequest)
    ensures
        plain_request(
            r,
            "stream::list"@,
            Json::Object(seq![("stream_name"@, Json::Str(stream@)), ("group_id"@, Json::Str(group@))]),
        ),
{
    let mut m: Vec<(String, JsonValue)> = Vec::new();
    m.push((String::from_str("stream_name"), text_value(stream)));
    m.push((String::from_str("group_id"), text_value(group)));
    let p = object(m);
    assert(p.model()->Object_0 =~= seq![("stream_name"@, Json::Str(stream@)), ("group_id"@, Json::Str(group@))]);
    request("stream::list", p)
}

/// The request that lists the groups of a stream.
pub fn stream_groups_request(stream: &str) -> (r: TriggerRequest)
    ensures
        plain_request(r, "stream::list_groups"@, Json::Object(seq![("stream_name"@, Json::Str(stream@))])),
{
    let mut m: Vec<(String, JsonValue)> = Vec::new();
    m.push((String::from_str("stream_name"), text_value(stream)));
    let p = object(m);
    assert(p.model()->Object_0 =~= seq![("stream_name"@, Json::Str(stream@))]);
    request("stream::list_groups", p)
}

/// The request that publishes a stream event (already in its wire form)
/// to the other engines.
pub fn stream_event_request(message: JsonValue) -> (r: TriggerRequest)
    ensures
        plain_request(
            r,
            "publish"@,
            Json::Object(seq![("topic"@, Json::Str(STREAM_EVENTS_TOPIC@)), ("data"@, message.model())]),
        ),
{
    let ghost mm = message.model();
    let mut m: Vec<(String, JsonValue)> = Vec::new();
    m.push((String::from_str("topic"), text_value(STREAM_EVENTS_TOPIC)));
    m.push((String::from_str("data"), message));
    let p = object(m);
    assert(p.model()->Object_0 =~= seq![("topic"@, Json::Str(STREAM_EVENTS_TOPIC@)), ("data"@, mm)]);
    request("publish", p)
}

/// The name under which the adapter's event handler is registered:
/// `stream::bridge::on_pub::` and a fresh UUID.
pub fn stream_handler_id(uuid_text: &str) -> (r: String)
    ensures
        r@ == "stream::bridge::on_pub::"@ + uuid_text@,
{
    join2("stream::bridge::on_pub::", uuid_text)
}

/// The trigger through which remote stream events reach the handler: a
/// `subscribe` trigger on [`STREAM_EVENTS_TOPIC`].
pub fn stream_event_trigger(handler: &str) -> (r: (String, String, JsonValue))
    ensures
        r.0@ == "subscribe"@,
        r.1@ == handler@,
        r.2.model() == Json::Object(seq![("topic"@, Json::Str(STREAM_EVENTS_TOPIC@))]),
{
    let mut m: Vec<(String, JsonValue)> = Vec::new();
    m.push((String::from_str("topic"), text_value(STREAM_EVENTS_TOPIC)));
    let config = object(m);
    assert(config.model()->Object_0 =~= seq![("topic"@, Json::Str(STREAM_EVENTS_TOPIC@))]);
    (String::from_str("subscribe"), String::from_str(handler), config)
}

/// The error the handler answers for an event it could not read (`reason`
/// is the decoder's message).
pub fn unreadable_event(reason: &str) -> (r: ErrorBody)
    ensures
        r.code@ == UNREADABLE_EVENT_CODE@,
        r.message@ == "Failed to deserialize stream message: "@ + reason@,
        r.stacktrace is None,
{
    ErrorBody {
        code: String::from_str(UNREADABLE_EVENT_CODE),
        message: join2("Failed to deserialize stream message: ", reason),
        stacktrace: None,
    }
}

} // verus!
