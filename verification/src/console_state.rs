//! The console's state, trace and status pages: which parameters each
//! request must carry, the payload sent on to the engine, and how the
//! engine's reply is reshaped for the frontend.

use vstd::prelude::*;
use vstd::string::StringExecFns;

use crate::console::{
    array_member, bool_param, parse_bool_param, flow_id_char, starts_with, str_starts_with, text_member, text_member_or, text_or,
    validate_flow_id,
};
use crate::decimal::decimal;
use crate::json::{member, number_from_u64, object, text_of, Json, JsonValue};
use crate::sort::{insert_sorted_name, names_of, strictly_sorted};
use crate::text::{join2, str_eq};

verus! {

/// Member `key` of member `outer` of `j`.
pub open spec fn nested_member(j: Json, outer: Seq<char>, key: Seq<char>) -> Option<Json> {
    match member(j, outer) {
        Some(o) => member(o, key),
        None => None,
    }
}

/// Member `key` of member `outer`, else member `key` of `j` itself.
pub open spec fn member_in_or_top(j: Json, outer: Seq<char>, key: Seq<char>) -> Option<Json> {
    match nested_member(j, outer, key) {
        Some(v) => Some(v),
        None => member(j, key),
    }
}

/// The text of member `key` of member `outer`, else the text of member
/// `key` of `j` itself.
pub open spec fn text_in_or_top(j: Json, outer: Seq<char>, key: Seq<char>) -> Option<Seq<char>> {
    match text_of(nested_member(j, outer, key)) {
        Some(t) => Some(t),
        None => text_of(member(j, key)),
    }
}

/// The request body (`body`), or the request itself when it has none.
pub open spec fn body_or_self(j: Json) -> Json {
    match member(j, "body"@) {
        Some(b) => b,
        None => j,
    }
}

/// The outcome of building a payload, as its model.
pub open spec fn payload_result(r: Result<JsonValue, String>) -> Result<Json, Seq<char>> {
    match r {
        Ok(p) => Ok(p.model()),
        Err(m) => Err(m@),
    }
}

/// The outcome of reading a name and building a payload, as its model.
pub open spec fn named_payload_result(r: Result<(String, JsonValue), String>) -> Result<(Seq<char>, Json), Seq<char>> {
    match r {
        Ok(p) => Ok((p.0@, p.1.model())),
        Err(m) => Err(m@),
    }
}

pub(crate) fn nested_text(j: &JsonValue, outer: &str, key: &str) -> (r: Option<String>)
    ensures
        match r {
            Some(t) => text_of(nested_member(j.model(), outer@, key@)) == Some(t@),
            None => text_of(nested_member(j.model(), outer@, key@)) is None,
        },
{
    match j.get(outer) {
        Some(o) => text_member(o, key),
        None => None,
    }
}

pub(crate) fn text_in_or_top_of(j: &JsonValue, outer: &str, key: &str) -> (r: Option<String>)
    ensures
        match r {
            Some(t) => text_in_or_top(j.model(), outer@, key@) == Some(t@),
            None => text_in_or_top(j.model(), outer@, key@) is None,
        },
{
    match nested_text(j, outer, key) {
        Some(t) => Some(t),
        None => text_member(j, key),
    }
}

fn member_in_or_top_of(j: &JsonValue, outer: &str, key: &str) -> (r: Option<JsonValue>)
    ensures
        match r {
            Some(v) => member_in_or_top(j.model(), outer@, key@) == Some(v.model()),
            None => member_in_or_top(j.model(), outer@, key@) is None,
        },
{
    let inner = match j.get(outer) {
        Some(o) => o.get(key),
        None => None,
    };
    match inner {
        Some(v) => Some(v.duplicate()),
        None => match j.get(key) {
            Some(v) => Some(v.duplicate()),
            None => None,
        },
    }
}

fn text_value(t: &str) -> (r: JsonValue)
    ensures
        r.model() == Json::Str(t@),
{
    JsonValue::Str(String::from_str(t))
}

fn count_value(n: usize) -> (r: JsonValue)
    ensures
        r.model() == Json::Number(decimal(n as nat)),
{
    number_from_u64(n as u64)
}

/// The payload of a trace-tree query: the `trace_id` of the request body,
/// else of the request itself.
pub open spec fn trace_tree_spec(input: Json) -> Result<Json, Seq<char>> {
    match text_in_or_top(input, "body"@, "trace_id"@) {
        Some(t) => Ok(Json::Object(seq![("trace_id"@, Json::Str(t))])),
        None => Err("Missing trace_id in request"@),
    }
}

pub fn trace_tree_payload(input: &JsonValue) -> (r: Result<JsonValue, String>)
    ensures
        payload_result(r) == trace_tree_spec(input.model()),
{
    match text_in_or_top_of(input, "body", "trace_id") {
        Some(t) => {
            let mut m: Vec<(String, JsonValue)> = Vec::new();
            m.push((String::from_str("trace_id"), text_value(t.as_str())));
            let p = object(m);
            assert(p.model()->Object_0 =~= seq![("trace_id"@, Json::Str(t@))]);
            Ok(p)
        },
        None => Err(String::from_str("Missing trace_id in request")),
    }
}

/// What the metrics and rollup pages pass on to the engine: the request
/// body, or the request itself when it has none.
pub fn forwarded_body(input: &JsonValue) -> (r: JsonValue)
    ensures
        r.model() == body_or_self(input.model()),
{
    match input.get("body") {
        Some(b) => b.duplicate(),
        None => input.duplicate(),
    }
}

/// The number of items under `key` in a reply, 0 when there is no reply
/// or no such array.
pub open spec fn listed_count(reply: Option<Json>, key: Seq<char>) -> nat {
    match reply {
        Some(j) => match array_member(j, key) {
            Some(items) => items.len(),
            None => 0,
        },
        None => 0,
    }
}

pub open spec fn reply_model(reply: Option<&JsonValue>) -> Option<Json> {
    match reply {
        Some(j) => Some(j.model()),
        None => None,
    }
}

fn listed_count_of(reply: Option<&JsonValue>, key: &str) -> (r: usize)
    ensures
        r as nat == listed_count(reply_model(reply), key@),
{
    match reply {
        Some(j) => match j.get(key) {
            Some(v) => match v.as_array() {
                Some(items) => items.len(),
                None => 0,
            },
            None => 0,
        },
        None => 0,
    }
}

/// The console's status summary, from the engine's worker list, its
/// function list (each absent when the call failed) and whether its
/// metrics could be read.
pub fn status_summary(workers: Option<&JsonValue>, functions: Option<&JsonValue>, metrics_available: bool) -> (r: JsonValue)
    ensures
        r.model() == Json::Object(
            seq![
                ("workers"@, Json::Number(decimal(listed_count(reply_model(workers), "workers"@)))),
                ("functions"@, Json::Number(decimal(listed_count(reply_model(functions), "functions"@)))),
                ("status"@, Json::Str("running"@)),
                ("metrics_available"@, Json::Bool(metrics_available)),
            ],
        ),
{
    let w = listed_count_of(workers, "workers");
    let f = listed_count_of(functions, "functions");
    let mut m: Vec<(String, JsonValue)> = Vec::new();
    m.push((String::from_str("workers"), count_value(w)));
    m.push((String::from_str("functions"), count_value(f)));
    m.push((String::from_str("status"), text_value("running")));
    m.push((String::from_str("metrics_available"), JsonValue::Bool(metrics_available)));
    let r = object(m);
    assert(r.model()->Object_0 =~= seq![
        ("workers"@, Json::Number(decimal(listed_count(reply_model(workers), "workers"@)))),
        ("functions"@, Json::Number(decimal(listed_count(reply_model(functions), "functions"@)))),
        ("status"@, Json::Str("running"@)),
        ("metrics_available"@, Json::Bool(metrics_available)),
    ]);
    r
}

/// The texts among `items`, in order (other values are skipped).
pub open spec fn string_items(items: Seq<Json>) -> Seq<Seq<char>>
    decreases items.len(),
{
    if items.len() == 0 {
        seq![]
    } else {
        let rest = string_items(items.drop_last());
        match items.last() {
            Json::Str(t) => rest.push(t),
            _ => rest,
        }
    }
}

/// The texts among the items of an array value, in order.
pub(crate) fn strings_of(items: &Vec<JsonValue>) -> (r: Vec<String>)
    ensures
        r@.map_values(|t: String| t@) == string_items(items@.map_values(|v: JsonValue| v.model())),
{
    let ghost ms = items@.map_values(|v: JsonValue| v.model());
    let mut out: Vec<String> = Vec::new();
    let mut i: usize = 0;
    while i < items.len()
        invariant
            i <= items@.len(),
            ms == items@.map_values(|v: JsonValue| v.model()),
            out@.map_values(|t: String| t@) == string_items(ms.subrange(0, i as int)),
        decreases items.len() - i,
    {
        assert(ms.subrange(0, i as int + 1).drop_last() =~= ms.subrange(0, i as int));
        assert(ms.subrange(0, i as int + 1).last() == items@[i as int].model());
        match items[i].as_str() {
            Some(t) => {
                out.push(String::from_str(t));
                assert(out@.map_values(|t: String| t@) =~= string_items(ms.subrange(0, i as int)).push(t@));
            },
            None => {},
        }
        i += 1;
    }
    assert(ms.subrange(0, items@.len() as int) =~= ms);
    out
}

/// A state group as the console lists it.
pub open spec fn group_object(id: Seq<char>) -> Json {
    Json::Object(seq![("id"@, Json::Str(id)), ("count"@, Json::Number(decimal(0)))])
}

/// The group list reply: one entry per group name under `groups` (none
/// when the engine's reply has no such array), and their number.
pub open spec fn group_listing_model(data: Json) -> Json {
    let names = match array_member(data, "groups"@) {
        Some(items) => string_items(items),
        None => seq![],
    };
    Json::Object(
        seq![
            ("groups"@, Json::Array(names.map_values(|n: Seq<char>| group_object(n)))),
            ("count"@, Json::Number(decimal(names.len()))),
        ],
    )
}

/// Reshape the engine's list of state groups for the console.
pub fn group_listing(data: &JsonValue) -> (r: JsonValue)
    ensures
        r.model() == group_listing_model(data.model()),
{
    let names: Vec<String> = match data.get("groups") {
        Some(g) => match g.as_array() {
            Some(items) => {
                assert(items@.map_values(|v: JsonValue| v.model()) =~= g.model()->Array_0);
                strings_of(items)
            },
            None => Vec::new(),
        },
        None => Vec::new(),
    };
    let ghost nm = names@.map_values(|t: String| t@);
    assert(nm =~= match array_member(data.model(), "groups"@) {
        Some(items) => string_items(items),
        None => seq![],
    });
    let mut groups: Vec<JsonValue> = Vec::new();
    let mut i: usize = 0;
    while i < names.len()
        invariant
            i <= names@.len(),
            nm == names@.map_values(|t: String| t@),
            groups@.len() == i,
            forall|k: int| 0 <= k < i ==> (#[trigger] groups@[k]).model() == group_object(nm[k]),
        decreases names.len() - i,
    {
        let mut m: Vec<(String, JsonValue)> = Vec::new();
        m.push((String::from_str("id"), text_value(names[i].as_str())));
        m.push((String::from_str("count"), count_value(0)));
        let g = object(m);
        assert(g.model()->Object_0 =~= seq![("id"@, Json::Str(nm[i as int])), ("count"@, Json::Number(decimal(0)))]);
        groups.push(g);
        i += 1;
    }
    let n = groups.len();
    let arr = JsonValue::Array(groups);
    assert(arr.model()->Array_0 =~= nm.map_values(|n: Seq<char>| group_object(n)));
    let mut m: Vec<(String, JsonValue)> = Vec::new();
    m.push((String::from_str("groups"), arr));
    m.push((String::from_str("count"), count_value(n)));
    let r = object(m);
    assert(r.model()->Object_0 =~= group_listing_model(data.model())->Object_0);
    r
}

/// The payload of a state-group listing: the `scope` of the request body,
/// else of the request itself.
pub open spec fn scope_spec(input: Json) -> Result<Json, Seq<char>> {
    match text_in_or_top(input, "body"@, "scope"@) {
        Some(t) => Ok(Json::Object(seq![("scope"@, Json::Str(t))])),
        None => Err("Missing scope in request"@),
    }
}

pub fn scope_payload(input: &JsonValue) -> (r: Result<JsonValue, String>)
    ensures
        payload_result(r) == scope_spec(input.model()),
{
    match text_in_or_top_of(input, "body", "scope") {
        Some(t) => {
            let mut m: Vec<(String, JsonValue)> = Vec::new();
            m.push((String::from_str("scope"), text_value(t.as_str())));
            let p = object(m);
            assert(p.model()->Object_0 =~= seq![("scope"@, Json::Str(t@))]);
            Ok(p)
        },
        None => Err(String::from_str("Missing scope in request")),
    }
}

/// The items of a state group as the console shows them: the engine's
/// array and its length (none when the reply is not an array).
pub open spec fn group_items_model(data: Json) -> Json {
    let items = match data {
        Json::Array(items) => items,
        _ => seq![],
    };
    Json::Object(seq![("items"@, Json::Array(items)), ("count"@, Json::Number(decimal(items.len())))])
}

pub fn group_items(data: JsonValue) -> (r: JsonValue)
    ensures
        r.model() == group_items_model(data.model()),
{
    let ghost dm = data.model();
    let items: Vec<JsonValue> = match data {
        JsonValue::Array(items) => items,
        _ => Vec::new(),
    };
    let n = items.len();
    let arr = JsonValue::Array(items);
    assert(arr.model() == Json::Array(match dm {
        Json::Array(items) => items,
        _ => seq![],
    })) by {
        assert(arr.model()->Array_0 =~= (match dm {
            Json::Array(items) => items,
            _ => seq![],
        }));
    }
    let mut m: Vec<(String, JsonValue)> = Vec::new();
    m.push((String::from_str("items"), arr));
    m.push((String::from_str("count"), count_value(n)));
    let r = object(m);
    assert(r.model()->Object_0 =~= group_items_model(dm)->Object_0);
    r
}

/// The payload that stores a state item: the group from the path
/// parameters (else the request), the key and the value from the body
/// (else the request).
pub open spec fn state_set_spec(input: Json) -> Result<Json, Seq<char>> {
    match text_in_or_top(input, "path_params"@, "group"@) {
        None => Err("Missing group in path parameters"@),
        Some(g) => match text_in_or_top(input, "body"@, "key"@) {
            None => Err("Missing key in request body"@),
            Some(k) => match member_in_or_top(input, "body"@, "value"@) {
                None => Err("Missing value in request body"@),
                Some(v) => Ok(Json::Object(seq![("scope"@, Json::Str(g)), ("key"@, Json::Str(k)), ("value"@, v)])),
            },
        },
    }
}

pub fn state_set_payload(input: &JsonValue) -> (r: Result<JsonValue, String>)
    ensures
        payload_result(r) == state_set_spec(input.model()),
{
    let group = match text_in_or_top_of(input, "path_params", "group") {
        Some(g) => g,
        None => {
            return Err(String::from_str("Missing group in path parameters"));
        },
    };
    let key = match text_in_or_top_of(input, "body", "key") {
        Some(k) => k,
        None => {
            return Err(String::from_str("Missing key in request body"));
        },
    };
    let value = match member_in_or_top_of(input, "body", "value") {
        Some(v) => v,
        None => {
            return Err(String::from_str("Missing value in request body"));
        },
    };
    let ghost vm = value.model();
    let mut m: Vec<(String, JsonValue)> = Vec::new();
    m.push((String::from_str("scope"), text_value(group.as_str())));
    m.push((String::from_str("key"), text_value(key.as_str())));
    m.push((String::from_str("value"), value));
    let p = object(m);
    assert(p.model()->Object_0 =~= seq![("scope"@, Json::Str(group@)), ("key"@, Json::Str(key@)), ("value"@, vm)]);
    Ok(p)
}

/// The payload that deletes a state item: group and key from the path
/// parameters (else the request).
pub open spec fn state_delete_spec(input: Json) -> Result<Json, Seq<char>> {
    match text_in_or_top(input, "path_params"@, "group"@) {
        None => Err("Missing group in path parameters"@),
        Some(g) => match text_in_or_top(input, "path_params"@, "key"@) {
            None => Err("Missing key in path parameters"@),
            Some(k) => Ok(Json::Object(seq![("scope"@, Json::Str(g)), ("key"@, Json::Str(k))])),
        },
    }
}

pub fn state_delete_payload(input: &JsonValue) -> (r: Result<JsonValue, String>)
    ensures
        payload_result(r) == state_delete_spec(input.model()),
{
    let group = match text_in_or_top_of(input, "path_params", "group") {
        Some(g) => g,
        None => {
            return Err(String::from_str("Missing group in path parameters"));
        },
    };
    let key = match text_in_or_top_of(input, "path_params", "key") {
        Some(k) => k,
        None => {
            return Err(String::from_str("Missing key in path parameters"));
        },
    };
    let mut m: Vec<(String, JsonValue)> = Vec::new();
    m.push((String::from_str("scope"), text_value(group.as_str())));
    m.push((String::from_str("key"), text_value(key.as_str())));
    let p = object(m);
    assert(p.model()->Object_0 =~= seq![("scope"@, Json::Str(group@)), ("key"@, Json::Str(key@))]);
    Ok(p)
}

/// The state group that holds the console's flow configurations.
pub const FLOW_CONFIG_GROUP: &'static str = "__console.flowConfigs";

/// Whether `id` is an acceptable flow id.
pub open spec fn flow_id_ok(id: Seq<char>) -> bool {
    id.len() > 0 && forall|i: int| 0 <= i < id.len() ==> flow_id_char(#[trigger] id[i])
}

/// The flow id a request names: in its path parameters, else its query
/// parameters, else the request itself.
pub open spec fn flow_id_param(input: Json) -> Option<Seq<char>> {
    match text_of(nested_member(input, "path_params"@, "flow_id"@)) {
        Some(t) => Some(t),
        None => match text_of(nested_member(input, "query_params"@, "flow_id"@)) {
            Some(t) => Some(t),
            None => text_of(member(input, "flow_id"@)),
        },
    }
}

/// The checked flow id (`Missing flow_id parameter` when there is none).
pub open spec fn checked_flow_id(id: Option<Seq<char>>) -> Result<Seq<char>, Seq<char>> {
    match id {
        None => Err("Missing flow_id parameter"@),
        Some(t) => if flow_id_ok(t) {
            Ok(t)
        } else {
            Err("Invalid flow_id: "@ + t)
        },
    }
}

fn check_flow_id(id: Option<String>) -> (r: Result<String, String>)
    ensures
        match checked_flow_id(match id {
            Some(t) => Some(t@),
            None => None,
        }) {
            Ok(t) => r matches Ok(s) && s@ == t,
            Err(e) => r matches Err(m) && m@ == e,
        },
{
    match id {
        Some(t) => validate_flow_id(t.as_str()),
        None => Err(String::from_str("Missing flow_id parameter")),
    }
}

/// The flow whose configuration is asked for.
pub fn flow_config_key(input: &JsonValue) -> (r: Result<String, String>)
    ensures
        match checked_flow_id(flow_id_param(input.model())) {
            Ok(t) => r matches Ok(s) && s@ == t,
            Err(e) => r matches Err(m) && m@ == e,
        },
{
    let id = match nested_text(input, "path_params", "flow_id") {
        Some(t) => Some(t),
        None => match nested_text(input, "query_params", "flow_id") {
            Some(t) => Some(t),
            None => text_member(input, "flow_id"),
        },
    };
    check_flow_id(id)
}

/// The state query for a flow's configuration.
pub fn flow_config_query(flow_id: &str) -> (r: JsonValue)
    ensures
        r.model() == Json::Object(seq![("scope"@, Json::Str(FLOW_CONFIG_GROUP@)), ("key"@, Json::Str(flow_id@))]),
{
    let mut m: Vec<(String, JsonValue)> = Vec::new();
    m.push((String::from_str("scope"), text_value(FLOW_CONFIG_GROUP)));
    m.push((String::from_str("key"), text_value(flow_id)));
    let r = object(m);
    assert(r.model()->Object_0 =~= seq![("scope"@, Json::Str(FLOW_CONFIG_GROUP@)), ("key"@, Json::Str(flow_id@))]);
    r
}

/// An empty configuration for a flow.
pub open spec fn empty_flow_config(flow_id: Seq<char>) -> Json {
    Json::Object(seq![("id"@, Json::Str(flow_id)), ("config"@, Json::Object(seq![]))])
}

fn empty_config_of(flow_id: &str) -> (r: JsonValue)
    ensures
        r.model() == empty_flow_config(flow_id@),
{
    let mut m: Vec<(String, JsonValue)> = Vec::new();
    m.push((String::from_str("id"), text_value(flow_id)));
    m.push((String::from_str("config"), object(Vec::new())));
    let r = object(m);
    assert(r.model()->Object_0[1].1->Object_0 =~= Seq::<(Seq<char>, Json)>::empty());
    assert(r.model()->Object_0 =~= empty_flow_config(flow_id@)->Object_0);
    r
}

/// The configuration the console shows for a flow, from what the state
/// store returned (absent when the call failed): an empty configuration
/// when nothing is stored.
pub fn flow_config_reply(flow_id: &str, stored: Option<JsonValue>) -> (r: JsonValue)
    ensures
        match stored {
            Some(d) => if d.model() is Null {
                r.model() == empty_flow_config(flow_id@)
            } else {
                r.model() == d.model()
            },
            None => r.model() == empty_flow_config(flow_id@),
        },
{
    match stored {
        Some(JsonValue::Null) => empty_config_of(flow_id),
        Some(d) => d,
        None => empty_config_of(flow_id),
    }
}

/// The flow id under which a configuration is saved: the path parameter,
/// else the body's `id`.
pub open spec fn saved_flow_id(input: Json) -> Option<Seq<char>> {
    match text_of(nested_member(input, "path_params"@, "flow_id"@)) {
        Some(t) => Some(t),
        None => text_of(member(body_or_self(input), "id"@)),
    }
}

/// The configuration being saved: the body's `config`, else an empty
/// object.
pub open spec fn saved_config(input: Json) -> Json {
    match member(body_or_self(input), "config"@) {
        Some(c) => c,
        None => Json::Object(seq![]),
    }
}

/// The state write that saves a flow's configuration.
pub open spec fn flow_config_save_spec(input: Json) -> Result<Json, Seq<char>> {
    match checked_flow_id(saved_flow_id(input)) {
        Ok(t) => Ok(Json::Object(
            seq![
                ("scope"@, Json::Str(FLOW_CONFIG_GROUP@)),
                ("key"@, Json::Str(t)),
                ("value"@, Json::Object(seq![("id"@, Json::Str(t)), ("config"@, saved_config(input))])),
            ],
        )),
        Err(e) => Err(e),
    }
}

pub fn flow_config_save_payload(input: &JsonValue) -> (r: Result<JsonValue, String>)
    ensures
        payload_result(r) == flow_config_save_spec(input.model()),
{
    let body = match input.get("body") {
        Some(b) => b,
        None => input,
    };
    let id = match nested_text(input, "path_params", "flow_id") {
        Some(t) => Some(t),
        None => text_member(body, "id"),
    };
    let flow_id = match check_flow_id(id) {
        Ok(t) => t,
        Err(e) => {
            return Err(e);
        },
    };
    let config = match body.get("config") {
        Some(c) => c.duplicate(),
        None => object(Vec::new()),
    };
    let ghost cm = config.model();
    assert(cm == saved_config(input.model())) by {
        if member(body.model(), "config"@) is None {
            assert(cm->Object_0 =~= Seq::<(Seq<char>, Json)>::empty());
        }
    }
    let mut v: Vec<(String, JsonValue)> = Vec::new();
    v.push((String::from_str("id"), text_value(flow_id.as_str())));
    v.push((String::from_str("config"), config));
    let value = object(v);
    assert(value.model()->Object_0 =~= seq![("id"@, Json::Str(flow_id@)), ("config"@, cm)]);
    let mut m: Vec<(String, JsonValue)> = Vec::new();
    m.push((String::from_str("scope"), text_value(FLOW_CONFIG_GROUP)));
    m.push((String::from_str("key"), text_value(flow_id.as_str())));
    m.push((String::from_str("value"), value));
    let p = object(m);
    assert(p.model()->Object_0 =~= seq![
        ("scope"@, Json::Str(FLOW_CONFIG_GROUP@)),
        ("key"@, Json::Str(flow_id@)),
        ("value"@, Json::Object(seq![("id"@, Json::Str(flow_id@)), ("config"@, cm)])),
    ]);
    Ok(p)
}

/// The function a console invocation calls: `function_id` of the body,
/// else of the request.
pub open spec fn invoked_function(input: Json) -> Option<Seq<char>> {
    match text_of(member(body_or_self(input), "function_id"@)) {
        Some(t) => Some(t),
        None => text_of(member(input, "function_id"@)),
    }
}

/// The input a console invocation passes: `input` of the body, else of
/// the request, else an empty object.
pub open spec fn invocation_input(input: Json) -> Json {
    match member(body_or_self(input), "input"@) {
        Some(v) => v,
        None => match member(input, "input"@) {
            Some(v) => v,
            None => Json::Object(seq![]),
        },
    }
}

/// The function a console invocation calls and its input.
pub open spec fn invoke_spec(input: Json) -> Result<(Seq<char>, Json), Seq<char>> {
    match invoked_function(input) {
        Some(f) => Ok((f, invocation_input(input))),
        None => Err("Missing function_id in request"@),
    }
}

/// The function to call and the input to call it with.
pub fn invoke_target(input: &JsonValue) -> (r: Result<(String, JsonValue), String>)
    ensures
        named_payload_result(r) == invoke_spec(input.model()),
{
    let body = match input.get("body") {
        Some(b) => b,
        None => input,
    };
    let function_id = match text_member(body, "function_id") {
        Some(t) => t,
        None => match text_member(input, "function_id") {
            Some(t) => t,
            None => {
                return Err(String::from_str("Missing function_id in request"));
            },
        },
    };
    let data = match body.get("input") {
        Some(v) => v.duplicate(),
        None => match input.get("input") {
            Some(v) => v.duplicate(),
            None => {
                let e = object(Vec::new());
                assert(e.model()->Object_0 =~= Seq::<(Seq<char>, Json)>::empty());
                e
            },
        },
    };
    Ok((function_id, data))
}

/// The port the console's stream websocket listens on.
pub const STREAM_WEBSOCKET_PORT: u64 = 3112;

/// Whether a stream is one of the engine's own (`iii.` or `iii:`).
pub open spec fn internal_stream(id: Seq<char>) -> bool {
    starts_with(id, "iii."@) || starts_with(id, "iii:"@)
}

/// The group names of a stream entry.
pub open spec fn stream_groups(s: Json) -> Seq<Seq<char>> {
    match array_member(s, "groups"@) {
        Some(items) => string_items(items),
        None => seq![],
    }
}

/// A stream as the console shows it.
pub open spec fn stream_object(s: Json) -> Json {
    let id = text_or(s, "id"@, ""@);
    let internal = internal_stream(id);
    Json::Object(
        seq![
            ("id"@, Json::Str(id)),
            ("type"@, Json::Str(if internal { "system"@ } else { "user"@ })),
            ("description"@, Json::Str(id + " stream"@)),
            ("groups"@, Json::Array(stream_groups(s).map_values(|g: Seq<char>| Json::Str(g)))),
            ("status"@, Json::Str("active"@)),
            ("internal"@, Json::Bool(internal)),
        ],
    )
}

/// The stream list reply: one entry per stream of the engine's `stream`
/// array (none when there is no such array), their number and the
/// websocket port.
pub open spec fn streams_model(data: Json) -> Json {
    let streams = match array_member(data, "stream"@) {
        Some(items) => items,
        None => seq![],
    };
    Json::Object(
        seq![
            ("streams"@, Json::Array(streams.map_values(|s: Json| stream_object(s)))),
            ("count"@, Json::Number(decimal(streams.len()))),
            ("websocket_port"@, Json::Number(decimal(STREAM_WEBSOCKET_PORT as nat))),
        ],
    )
}

fn stream_entry(s: &JsonValue) -> (r: JsonValue)
    ensures
        r.model() == stream_object(s.model()),
{
    let id = text_member_or(s, "id", "");
    let names: Vec<String> = match s.get("groups") {
        Some(g) => match g.as_array() {
            Some(items) => {
                assert(items@.map_values(|v: JsonValue| v.model()) =~= g.model()->Array_0);
                strings_of(items)
            },
            None => Vec::new(),
        },
        None => Vec::new(),
    };
    let ghost nm = names@.map_values(|t: String| t@);
    assert(nm =~= stream_groups(s.model()));
    let mut groups: Vec<JsonValue> = Vec::new();
    let mut i: usize = 0;
    while i < names.len()
        invariant
            i <= names@.len(),
            nm == names@.map_values(|t: String| t@),
            groups@.len() == i,
            forall|k: int| 0 <= k < i ==> (#[trigger] groups@[k]).model() == Json::Str(nm[k]),
        decreases names.len() - i,
    {
        groups.push(text_value(names[i].as_str()));
        i += 1;
    }
    let arr = JsonValue::Array(groups);
    assert(arr.model()->Array_0 =~= nm.map_values(|g: Seq<char>| Json::Str(g)));
    let internal = str_starts_with(id.as_str(), "iii.") || str_starts_with(id.as_str(), "iii:");
    let kind = if internal {
        "system"
    } else {
        "user"
    };
    let description = join2(id.as_str(), " stream");
    let mut m: Vec<(String, JsonValue)> = Vec::new();
    m.push((String::from_str("id"), text_value(id.as_str())));
    m.push((String::from_str("type"), text_value(kind)));
    m.push((String::from_str("description"), JsonValue::Str(description)));
    m.push((String::from_str("groups"), arr));
    m.push((String::from_str("status"), text_value("active")));
    m.push((String::from_str("internal"), JsonValue::Bool(internal)));
    let r = object(m);
    assert(r.model()->Object_0 =~= stream_object(s.model())->Object_0);
    r
}

/// Reshape the engine's stream list for the console.
pub fn streams_reply(data: &JsonValue) -> (r: JsonValue)
    ensures
        r.model() == streams_model(data.model()),
{
    let mut out: Vec<JsonValue> = Vec::new();
    match data.get("stream") {
        Some(v) => match v.as_array() {
            Some(items) => {
                let mut i: usize = 0;
                while i < items.len()
                    invariant
                        i <= items@.len(),
                        array_member(data.model(), "stream"@) == Some(v.model()->Array_0),
                        v.model()->Array_0.len() == items@.len(),
                        forall|k: int| 0 <= k < items@.len() ==> (#[trigger] items@[k]).model() == v.model()->Array_0[k],
                        out@.len() == i,
                        forall|k: int| 0 <= k < i ==> (#[trigger] out@[k]).model() == stream_object(items@[k].model()),
                    decreases items.len() - i,
                {
                    out.push(stream_entry(&items[i]));
                    i += 1;
                }
            },
            None => {},
        },
        None => {},
    }
    let ghost streams = match array_member(data.model(), "stream"@) {
        Some(items) => items,
        None => seq![],
    };
    let n = out.len();
    let arr = JsonValue::Array(out);
    assert(arr.model()->Array_0 =~= streams.map_values(|s: Json| stream_object(s)));
    let mut m: Vec<(String, JsonValue)> = Vec::new();
    m.push((String::from_str("streams"), arr));
    m.push((String::from_str("count"), count_value(n)));
    m.push((String::from_str("websocket_port"), number_from_u64(STREAM_WEBSOCKET_PORT)));
    let r = object(m);
    assert(r.model()->Object_0 =~= streams_model(data.model())->Object_0);
    r
}

/// The `include_internal` flag a listing request asks for, as the payload
/// passed on to the engine.
pub fn include_internal_payload(input: &JsonValue) -> (r: JsonValue)
    ensures
        r.model() == Json::Object(seq![("include_internal"@, Json::Bool(bool_param(input.model(), "include_internal"@)))]),
{
    let b = parse_bool_param(input, "include_internal");
    let mut m: Vec<(String, JsonValue)> = Vec::new();
    m.push((String::from_str("include_internal"), JsonValue::Bool(b)));
    let r = object(m);
    assert(r.model()->Object_0 =~= seq![("include_internal"@, Json::Bool(b))]);
    r
}

/// The members of an object other than those named `key`.
pub open spec fn without_key(ms: Seq<(Seq<char>, Json)>, key: Seq<char>) -> Seq<(Seq<char>, Json)>
    decreases ms.len(),
{
    if ms.len() == 0 {
        seq![]
    } else {
        let rest = without_key(ms.drop_last(), key);
        if ms.last().0 == key {
            rest
        } else {
            rest.push(ms.last())
        }
    }
}

/// The engine's registered-trigger list with its rows under `triggers`
/// instead of `registered_triggers` (a reply without such rows is passed
/// on as it is).
pub open spec fn triggers_renamed(data: Json) -> Json {
    match data {
        Json::Object(ms) => match member(data, "registered_triggers"@) {
            Some(rows) => Json::Object(
                without_key(without_key(ms, "registered_triggers"@), "triggers"@).push(("triggers"@, rows)),
            ),
            None => data,
        },
        _ => data,
    }
}

/// Re-key the engine's registered-trigger list for the console.
pub fn registered_triggers_reply(data: JsonValue) -> (r: JsonValue)
    ensures
        r.model() == triggers_renamed(data.model()),
{
    let ghost dm = data.model();
    let rows = match data.get("registered_triggers") {
        Some(v) => v.duplicate(),
        None => {
            return data;
        },
    };
    let ghost rm = rows.model();
    let members = match data {
        JsonValue::Object(ms) => ms,
        _ => {
            return data;
        },
    };
    let ghost ms = dm->Object_0;
    assert(ms.len() == members@.len());
    assert(forall|k: int| 0 <= k < members@.len() ==> #[trigger] ms[k] == (members@[k].0@, members@[k].1.model()));
    let mut kept: Vec<(String, JsonValue)> = Vec::new();
    let mut rest = members;
    let mut i: usize = 0;
    let n = rest.len();
    let ghost orig = rest@;
    while rest.len() > 0
        invariant
            n == orig.len(),
            ms.len() == n,
            forall|k: int| 0 <= k < n ==> #[trigger] ms[k] == (orig[k].0@, orig[k].1.model()),
            i + rest@.len() == n,
            rest@ == orig.skip(i as int),
            kept@.map_values(|m: (String, JsonValue)| (m.0@, m.1.model()))
                == without_key(without_key(ms.subrange(0, i as int), "registered_triggers"@), "triggers"@),
        decreases rest.len(),
    {
        let m = rest.remove(0);
        assert(m == orig[i as int]);
        assert(ms.subrange(0, i as int + 1).drop_last() =~= ms.subrange(0, i as int));
        assert(ms.subrange(0, i as int + 1).last() == ms[i as int]);
        assert(rest@ =~= orig.skip(i as int + 1));
        let skip = str_eq(m.0.as_str(), "registered_triggers") || str_eq(m.0.as_str(), "triggers");
        proof {
            let pre = ms.subrange(0, i as int);
            let cur = ms.subrange(0, i as int + 1);
            let inner = without_key(pre, "registered_triggers"@);
            assert(cur.drop_last() =~= pre);
            if ms[i as int].0 == "registered_triggers"@ {
                assert(without_key(cur, "registered_triggers"@) == inner);
            } else {
                assert(without_key(cur, "registered_triggers"@) == inner.push(ms[i as int]));
                assert(inner.push(ms[i as int]).drop_last() =~= inner);
                assert(inner.push(ms[i as int]).last() == ms[i as int]);
            }
        }
        if !skip {
            kept.push(m);
            assert(kept@.map_values(|m: (String, JsonValue)| (m.0@, m.1.model())) =~= without_key(
                without_key(ms.subrange(0, i as int), "registered_triggers"@),
                "triggers"@,
            ).push(ms[i as int]));
        }
        i += 1;
    }
    assert(ms.subrange(0, n as int) =~= ms);
    let ghost before = kept@;
    kept.push((String::from_str("triggers"), rows));
    let r = JsonValue::Object(kept);
    assert(r.model()->Object_0 =~= without_key(without_key(ms, "registered_triggers"@), "triggers"@).push(("triggers"@, rm))) by {
        assert(kept@ == before.push(kept@[before.len() as int]));
        assert(before.map_values(|m: (String, JsonValue)| (m.0@, m.1.model())) =~= without_key(without_key(ms, "registered_triggers"@), "triggers"@));
    }
    r
}

/// The trigger types the console always offers.
pub open spec fn static_trigger_types() -> Seq<Seq<char>> {
    seq![
        "api"@,
        "event"@,
        "subscribe"@,
        "cron"@,
        "log"@,
        "stream::join"@,
        "stream::leave"@,
        "state"@,
        "engine::functions-available"@,
    ]
}

/// The texts of the `id` members of `items`, in order.
pub open spec fn item_ids(items: Seq<Json>) -> Seq<Seq<char>>
    decreases items.len(),
{
    if items.len() == 0 {
        seq![]
    } else {
        let rest = item_ids(items.drop_last());
        match text_of(member(items.last(), "id"@)) {
            Some(t) => rest.push(t),
            None => rest,
        }
    }
}

/// The trigger type ids of the engine's reply (none without a reply).
pub open spec fn reported_types(reply: Option<Json>) -> Seq<Seq<char>> {
    match reply {
        Some(d) => match array_member(d, "triggers"@) {
            Some(items) => item_ids(items),
            None => seq![],
        },
        None => seq![],
    }
}

/// The trigger types the console offers: its own and those the engine
/// reported (absent when the call failed), each once, in text order.
pub fn trigger_type_names(reply: Option<&JsonValue>) -> (r: Vec<String>)
    ensures
        strictly_sorted(names_of(r@)),
        forall|t: Seq<char>| #[trigger] names_of(r@).contains(t) <==> (static_trigger_types().contains(t) || reported_types(
            reply_model(reply),
        ).contains(t)),
{
    let statics: [&'static str; 9] = [
        "api",
        "event",
        "subscribe",
        "cron",
        "log",
        "stream::join",
        "stream::leave",
        "state",
        "engine::functions-available",
    ];
    proof {
        reveal_strlit("api");
        reveal_strlit("event");
        reveal_strlit("subscribe");
        reveal_strlit("cron");
        reveal_strlit("log");
        reveal_strlit("stream::join");
        reveal_strlit("stream::leave");
        reveal_strlit("state");
        reveal_strlit("engine::functions-available");
    }
    let ghost st = static_trigger_types();
    assert(forall|k: int| 0 <= k < 9 ==> #[trigger] statics@[k]@ == st[k]);
    let mut r: Vec<String> = Vec::new();
    let mut i: usize = 0;
    while i < 9
        invariant
            i <= 9,
            st == static_trigger_types(),
            forall|k: int| 0 <= k < 9 ==> #[trigger] statics@[k]@ == st[k],
            strictly_sorted(names_of(r@)),
            forall|t: Seq<char>| #[trigger] names_of(r@).contains(t) <==> st.subrange(0, i as int).contains(t),
        decreases 9 - i,
    {
        let ghost prev = names_of(r@);
        insert_sorted_name(&mut r, statics[i]);
        assert forall|t: Seq<char>| #[trigger] names_of(r@).contains(t) <==> st.subrange(0, i as int + 1).contains(t) by {
            assert(st.subrange(0, i as int + 1) =~= st.subrange(0, i as int).push(st[i as int]));
            if st.subrange(0, i as int + 1).contains(t) {
                let k = choose|k: int| 0 <= k < i + 1 && #[trigger] st.subrange(0, i as int + 1)[k] == t;
                if k < i {
                    assert(st.subrange(0, i as int)[k] == t);
                }
            }
            if st.subrange(0, i as int).contains(t) {
                let k = choose|k: int| 0 <= k < i && #[trigger] st.subrange(0, i as int)[k] == t;
                assert(st.subrange(0, i as int + 1)[k] == t);
            }
            if t == st[i as int] {
                assert(st.subrange(0, i as int + 1)[i as int] == t);
            }
        }
        i += 1;
    }
    assert(st.subrange(0, 9) =~= st);
    let ghost reported = reported_types(reply_model(reply));
    let items: Option<&Vec<JsonValue>> = match reply {
        Some(d) => match d.get("triggers") {
            Some(v) => {
                let a = v.as_array();
                proof {
                    if a is Some {
                        assert(a.unwrap()@.map_values(|x: JsonValue| x.model()) =~= v.model()->Array_0);
                    }
                }
                a
            },
            None => None,
        },
        None => None,
    };
    match items {
        Some(items) => {
            let ghost ms = items@.map_values(|x: JsonValue| x.model());
            assert(reported == item_ids(ms));
            let mut j: usize = 0;
            while j < items.len()
                invariant
                    j <= items@.len(),
                    ms == items@.map_values(|x: JsonValue| x.model()),
                    strictly_sorted(names_of(r@)),
                    forall|t: Seq<char>| #[trigger] names_of(r@).contains(t) <==> (st.contains(t) || item_ids(
                        ms.subrange(0, j as int),
                    ).contains(t)),
                decreases items.len() - j,
            {
                assert(ms.subrange(0, j as int + 1).drop_last() =~= ms.subrange(0, j as int));
                assert(ms.subrange(0, j as int + 1).last() == items@[j as int].model());
                let ghost prior = item_ids(ms.subrange(0, j as int));
                match text_member(&items[j], "id") {
                    Some(id) => {
                        insert_sorted_name(&mut r, id.as_str());
                        assert(item_ids(ms.subrange(0, j as int + 1)) == prior.push(id@));
                        assert forall|t: Seq<char>| #[trigger] prior.push(id@).contains(t) <==> (prior.contains(t) || t == id@) by {
                            if prior.push(id@).contains(t) {
                                let k = choose|k: int| 0 <= k < prior.len() + 1 && #[trigger] prior.push(id@)[k] == t;
                                if k < prior.len() {
                                    assert(prior[k] == t);
                                }
                            }
                            if prior.contains(t) {
                                let k = choose|k: int| 0 <= k < prior.len() && #[trigger] prior[k] == t;
                                assert(prior.push(id@)[k] == t);
                            }
                            if t == id@ {
                                assert(prior.push(id@)[prior.len() as int] == t);
                            }
                        }
                    },
                    None => {
                        assert(item_ids(ms.subrange(0, j as int + 1)) == prior);
                    },
                }
                j += 1;
            }
            assert(ms.subrange(0, items@.len() as int) =~= ms);
        },
        None => {
            assert(reported =~= Seq::<Seq<char>>::empty());
        },
    }
    r
}

/// The trigger type list reply.
pub fn trigger_types_reply(names: Vec<String>) -> (r: JsonValue)
    ensures
        r.model() == Json::Object(seq![("trigger_types"@, Json::Array(names_of(names@).map_values(|t: Seq<char>| Json::Str(t))))]),
{
    let ghost nm = names_of(names@);
    let mut items: Vec<JsonValue> = Vec::new();
    let mut i: usize = 0;
    while i < names.len()
        invariant
            i <= names@.len(),
            nm == names_of(names@),
            items@.len() == i,
            forall|k: int| 0 <= k < i ==> (#[trigger] items@[k]).model() == Json::Str(nm[k]),
        decreases names.len() - i,
    {
        items.push(text_value(names[i].as_str()));
        i += 1;
    }
    let arr = JsonValue::Array(items);
    assert(arr.model()->Array_0 =~= nm.map_values(|t: Seq<char>| Json::Str(t)));
    let mut m: Vec<(String, JsonValue)> = Vec::new();
    m.push((String::from_str("trigger_types"), arr));
    let r = object(m);
    assert(r.model()->Object_0 =~= seq![("trigger_types"@, Json::Array(nm.map_values(|t: Seq<char>| Json::Str(t))))]);
    r
}

} // verus!
