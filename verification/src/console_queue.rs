//! The console's queue and dead-letter pages: the topic a request names,
//! the payload passed on to the engine and the reply shown.

use vstd::prelude::*;
use vstd::string::StringExecFns;

use crate::console_state::{
    body_or_self, named_payload_result, nested_member, nested_text, payload_result, text_in_or_top, text_in_or_top_of,
};
use crate::decimal::decimal;
use crate::json::{member, number_from_u64, number_u64, object, text_of, Json, JsonValue};

verus! {

/// Dead-letter messages are listed from this offset when the request
/// names none.
pub const DEFAULT_DLQ_OFFSET: u64 = 0;

/// At most this many dead-letter messages are listed when the request
/// names no limit.
pub const DEFAULT_DLQ_LIMIT: u64 = 50;

fn text_value(t: &str) -> (r: JsonValue)
    ensures
        r.model() == Json::Str(t@),
{
    JsonValue::Str(String::from_str(t))
}

/// The topic a queue request names: its path parameter, else the request.
pub open spec fn topic_param(input: Json) -> Option<Seq<char>> {
    text_in_or_top(input, "path_params"@, "topic"@)
}

fn topic_of(input: &JsonValue) -> (r: Result<String, String>)
    ensures
        match topic_param(input.model()) {
            Some(t) => r matches Ok(s) && s@ == t,
            None => r matches Err(m) && m@ == "Missing topic in path parameters"@,
        },
{
    match text_in_or_top_of(input, "path_params", "topic") {
        Some(t) => Ok(t),
        None => Err(String::from_str("Missing topic in path parameters")),
    }
}

/// The topic statistics query: the topic, and the payload naming it.
pub open spec fn topic_query_spec(input: Json) -> Result<(Seq<char>, Json), Seq<char>> {
    match topic_param(input) {
        Some(t) => Ok((t, Json::Object(seq![("topic"@, Json::Str(t))]))),
        None => Err("Missing topic in path parameters"@),
    }
}

pub fn topic_query(input: &JsonValue) -> (r: Result<(String, JsonValue), String>)
    ensures
        named_payload_result(r) == topic_query_spec(input.model()),
{
    let topic = match topic_of(input) {
        Ok(t) => t,
        Err(e) => {
            return Err(e);
        },
    };
    let mut m: Vec<(String, JsonValue)> = Vec::new();
    m.push((String::from_str("topic"), text_value(topic.as_str())));
    let p = object(m);
    assert(p.model()->Object_0 =~= seq![("topic"@, Json::Str(topic@))]);
    Ok((topic, p))
}

/// A reply about a topic: the topic and, under `key`, what the engine
/// returned.
pub fn topic_reply(topic: &str, key: &str, data: JsonValue) -> (r: JsonValue)
    ensures
        r.model() == Json::Object(seq![("topic"@, Json::Str(topic@)), (key@, data.model())]),
{
    let ghost dm = data.model();
    let mut m: Vec<(String, JsonValue)> = Vec::new();
    m.push((String::from_str("topic"), text_value(topic)));
    m.push((String::from_str(key), data));
    let r = object(m);
    assert(r.model()->Object_0 =~= seq![("topic"@, Json::Str(topic@)), (key@, dm)]);
    r
}

/// The data a publish request carries: the body's `data`, else an empty
/// object.
pub open spec fn published_data(input: Json) -> Json {
    match member(body_or_self(input), "data"@) {
        Some(d) => d,
        None => Json::Object(seq![]),
    }
}

/// A message published from the console: the topic, and the payload of
/// the durable publish.
pub open spec fn publish_spec(input: Json) -> Result<(Seq<char>, Json), Seq<char>> {
    match topic_param(input) {
        Some(t) => Ok((t, Json::Object(seq![("topic"@, Json::Str(t)), ("data"@, published_data(input))]))),
        None => Err("Missing topic in path parameters"@),
    }
}

pub fn publish_request(input: &JsonValue) -> (r: Result<(String, JsonValue), String>)
    ensures
        named_payload_result(r) == publish_spec(input.model()),
{
    let topic = match topic_of(input) {
        Ok(t) => t,
        Err(e) => {
            return Err(e);
        },
    };
    let body = match input.get("body") {
        Some(b) => b,
        None => input,
    };
    let data = match body.get("data") {
        Some(d) => d.duplicate(),
        None => {
            let e = object(Vec::new());
            assert(e.model()->Object_0 =~= Seq::<(Seq<char>, Json)>::empty());
            e
        },
    };
    let ghost dm = data.model();
    let mut m: Vec<(String, JsonValue)> = Vec::new();
    m.push((String::from_str("topic"), text_value(topic.as_str())));
    m.push((String::from_str("data"), data));
    let p = object(m);
    assert(p.model()->Object_0 =~= seq![("topic"@, Json::Str(topic@)), ("data"@, dm)]);
    Ok((topic, p))
}

/// The reply to a published message.
pub fn published_reply(topic: &str) -> (r: JsonValue)
    ensures
        r.model() == Json::Object(seq![("message"@, Json::Str("Message published"@)), ("topic"@, Json::Str(topic@))]),
{
    let mut m: Vec<(String, JsonValue)> = Vec::new();
    m.push((String::from_str("message"), text_value("Message published")));
    m.push((String::from_str("topic"), text_value(topic)));
    let r = object(m);
    assert(r.model()->Object_0 =~= seq![("message"@, Json::Str("Message published"@)), ("topic"@, Json::Str(topic@))]);
    r
}

/// An unsigned request parameter of the body: its value when it is an
/// unsigned integer that fits in 64 bits, else `default`.
pub open spec fn u64_param(input: Json, key: Seq<char>, default: u64) -> u64 {
    match member(body_or_self(input), key) {
        Some(Json::Number(t)) => match number_u64(t) {
            Some(n) => n,
            None => default,
        },
        _ => default,
    }
}

fn u64_param_of(input: &JsonValue, key: &str, default: u64) -> (r: u64)
    ensures
        r == u64_param(input.model(), key@, default),
{
    let body = match input.get("body") {
        Some(b) => b,
        None => input,
    };
    match body.get(key) {
        Some(v) => match v.as_u64() {
            Some(n) => n,
            None => default,
        },
        None => default,
    }
}

/// A page of dead-letter messages: the topic, and the query naming the
/// topic, the offset and the limit.
pub open spec fn dlq_page_spec(input: Json) -> Result<(Seq<char>, Json), Seq<char>> {
    match topic_param(input) {
        Some(t) => Ok((
            t,
            Json::Object(
                seq![
                    ("topic"@, Json::Str(t)),
                    ("offset"@, Json::Number(decimal(u64_param(input, "offset"@, DEFAULT_DLQ_OFFSET) as nat))),
                    ("limit"@, Json::Number(decimal(u64_param(input, "limit"@, DEFAULT_DLQ_LIMIT) as nat))),
                ],
            ),
        )),
        None => Err("Missing topic in path parameters"@),
    }
}

pub fn dlq_page_request(input: &JsonValue) -> (r: Result<(String, JsonValue), String>)
    ensures
        named_payload_result(r) == dlq_page_spec(input.model()),
{
    let topic = match topic_of(input) {
        Ok(t) => t,
        Err(e) => {
            return Err(e);
        },
    };
    let offset = u64_param_of(input, "offset", DEFAULT_DLQ_OFFSET);
    let limit = u64_param_of(input, "limit", DEFAULT_DLQ_LIMIT);
    let mut m: Vec<(String, JsonValue)> = Vec::new();
    m.push((String::from_str("topic"), text_value(topic.as_str())));
    m.push((String::from_str("offset"), number_from_u64(offset)));
    m.push((String::from_str("limit"), number_from_u64(limit)));
    let p = object(m);
    assert(p.model()->Object_0 =~= seq![
        ("topic"@, Json::Str(topic@)),
        ("offset"@, Json::Number(decimal(offset as nat))),
        ("limit"@, Json::Number(decimal(limit as nat))),
    ]);
    Ok((topic, p))
}

/// The payload that moves a topic's dead letters back onto its queue.
pub open spec fn redrive_spec(input: Json) -> Result<Json, Seq<char>> {
    match topic_param(input) {
        Some(t) => Ok(Json::Object(seq![("queue"@, Json::Str(t))])),
        None => Err("Missing topic in path parameters"@),
    }
}

pub fn redrive_request(input: &JsonValue) -> (r: Result<JsonValue, String>)
    ensures
        payload_result(r) == redrive_spec(input.model()),
{
    let topic = match topic_of(input) {
        Ok(t) => t,
        Err(e) => {
            return Err(e);
        },
    };
    let mut m: Vec<(String, JsonValue)> = Vec::new();
    m.push((String::from_str("queue"), text_value(topic.as_str())));
    let p = object(m);
    assert(p.model()->Object_0 =~= seq![("queue"@, Json::Str(topic@))]);
    Ok(p)
}

/// The payload that acts on one dead-letter message (redrive or discard):
/// topic and message id, both from the path parameters.
pub open spec fn dlq_message_spec(input: Json) -> Result<Json, Seq<char>> {
    match (text_of(nested_member(input, "path_params"@, "topic"@)), text_of(nested_member(input, "path_params"@, "id"@))) {
        (Some(t), Some(id)) => Ok(Json::Object(seq![("queue"@, Json::Str(t)), ("message_id"@, Json::Str(id))])),
        _ => Err("Missing topic or message id in path parameters"@),
    }
}

pub fn dlq_message_request(input: &JsonValue) -> (r: Result<JsonValue, String>)
    ensures
        payload_result(r) == dlq_message_spec(input.model()),
{
    let topic = nested_text(input, "path_params", "topic");
    let id = nested_text(input, "path_params", "id");
    match (topic, id) {
        (Some(t), Some(i)) => {
            let mut m: Vec<(String, JsonValue)> = Vec::new();
            m.push((String::from_str("queue"), text_value(t.as_str())));
            m.push((String::from_str("message_id"), text_value(i.as_str())));
            let p = object(m);
            assert(p.model()->Object_0 =~= seq![("queue"@, Json::Str(t@)), ("message_id"@, Json::Str(i@))]);
            Ok(p)
        },
        _ => Err(String::from_str("Missing topic or message id in path parameters")),
    }
}

} // verus!
