//! The `worker::*` operations of the worker-manager daemon: their catalog,
//! client hints, the `worker::schema` selection, and which `worker::list`
//! payloads stand for "no arguments".

use vstd::prelude::*;
use vstd::string::StringExecFns;

use crate::json::{Json, JsonValue};
use crate::text::str_eq;

verus! {

/// The operations, in catalog order, with their descriptions.
pub open spec fn catalog() -> Seq<(Seq<char>, Seq<char>)> {
    seq![
        ("worker::add"@, "Install a worker from registry name or OCI ref"@),
        ("worker::remove"@, "Uninstall workers and clear their artifacts"@),
        ("worker::update"@, "Reinstall workers preserving config"@),
        ("worker::start"@, "Start a configured worker"@),
        ("worker::stop"@, "Stop a running worker"@),
        ("worker::list"@, "List installed workers"@),
        ("worker::clear"@, "Wipe worker artifacts"@),
        ("worker::schema"@, "Introspect request/response schemas for worker::* triggers"@),
    ]
}

/// Recommended client timeout (ms) and whether retrying the same payload
/// is safe, for an operation id; `(30000, false)` for an unknown id.
pub open spec fn metadata_of(function_id: Seq<char>) -> (u64, bool) {
    if function_id == "worker::add"@ {
        (600000, true)
    } else if function_id == "worker::remove"@ {
        (30000, true)
    } else if function_id == "worker::update"@ {
        (600000, true)
    } else if function_id == "worker::start"@ {
        (60000, false)
    } else if function_id == "worker::stop"@ {
        (30000, false)
    } else if function_id == "worker::list"@ {
        (10000, true)
    } else if function_id == "worker::clear"@ {
        (30000, true)
    } else if function_id == "worker::schema"@ {
        (10000, true)
    } else {
        (30000, false)
    }
}

/// `(default_timeout_ms, idempotent)` of an operation.
pub fn op_metadata(function_id: &str) -> (r: (u64, bool))
    ensures
        r == metadata_of(function_id@),
{
    if str_eq(function_id, "worker::add") {
        (600000, true)
    } else if str_eq(function_id, "worker::remove") {
        (30000, true)
    } else if str_eq(function_id, "worker::update") {
        (600000, true)
    } else if str_eq(function_id, "worker::start") {
        (60000, false)
    } else if str_eq(function_id, "worker::stop") {
        (30000, false)
    } else if str_eq(function_id, "worker::list") {
        (10000, true)
    } else if str_eq(function_id, "worker::clear") {
        (30000, true)
    } else if str_eq(function_id, "worker::schema") {
        (10000, true)
    } else {
        (30000, false)
    }
}

fn catalog_entries() -> (r: Vec<(&'static str, &'static str)>)
    ensures
        r@.len() == catalog().len(),
        forall|i: int| 0 <= i < r@.len() ==> (#[trigger] r@[i]).0@ == catalog()[i].0 && r@[i].1@
            == catalog()[i].1,
{
    let r = vec![
        ("worker::add", "Install a worker from registry name or OCI ref"),
        ("worker::remove", "Uninstall workers and clear their artifacts"),
        ("worker::update", "Reinstall workers preserving config"),
        ("worker::start", "Start a configured worker"),
        ("worker::stop", "Stop a running worker"),
        ("worker::list", "List installed workers"),
        ("worker::clear", "Wipe worker artifacts"),
        ("worker::schema", "Introspect request/response schemas for worker::* triggers"),
    ];
    r
}

/// One entry of the `worker::schema` answer.
#[derive(Debug, Clone)]
pub struct SchemaEntry {
    pub function_id: String,
    pub description: String,
    pub request: JsonValue,
    pub response: JsonValue,
    /// Recommended client timeout (ms).
    pub default_timeout_ms: u64,
    /// Safe to retry on the same payload.
    pub idempotent: bool,
}

/// The catalog indices `worker::schema` answers for: all of them without a
/// filter, else those whose id equals it.
pub open spec fn selected_ops(filter: Option<Seq<char>>) -> Seq<int> {
    Seq::new(catalog().len(), |i: int| i).filter(
        |i: int|
            match filter {
                None => true,
                Some(f) => catalog()[i].0 == f,
            },
    )
}

/// The schema model of an optional schema: `null` when none.
pub open spec fn schema_or_null(s: Option<JsonValue>) -> Json {
    match s {
        Some(v) => v.model(),
        None => Json::Null,
    }
}

/// The answer of `worker::schema`: for each selected operation in catalog
/// order, its id, description, request and response schemas (`schemas`
/// holds them in catalog order; `null` when one could not be produced),
/// and its client hints.
pub fn schema_entries(filter: Option<&str>, schemas: &Vec<(Option<JsonValue>, Option<JsonValue>)>) -> (r: Vec<SchemaEntry>)
    requires
        schemas@.len() == catalog().len(),
    ensures
        r@.len() == selected_ops(match filter {
            Some(f) => Some(f@),
            None => None,
        }).len(),
        forall|j: int|
            0 <= j < r@.len() ==> {
                let i = selected_ops(
                    match filter {
                        Some(f) => Some(f@),
                        None => None,
                    },
                )[j];
                &&& (#[trigger] r@[j]).function_id@ == catalog()[i].0
                &&& r@[j].description@ == catalog()[i].1
                &&& r@[j].request.model() == schema_or_null(schemas@[i].0)
                &&& r@[j].response.model() == schema_or_null(schemas@[i].1)
                &&& (r@[j].default_timeout_ms, r@[j].idempotent) == metadata_of(catalog()[i].0)
            },
{
    let ghost fspec = match filter {
        Some(f) => Some(f@),
        None => None,
    };
    let ghost pred = |i: int|
        match fspec {
            None => true,
            Some(f) => catalog()[i].0 == f,
        };
    let ghost idx = Seq::new(catalog().len(), |i: int| i);
    let all = catalog_entries();
    let mut r: Vec<SchemaEntry> = Vec::new();
    let mut i: usize = 0;
    while i < all.len()
        invariant
            i <= all@.len() == catalog().len() == schemas@.len(),
            forall|q: int| 0 <= q < all@.len() ==> (#[trigger] all@[q]).0@ == catalog()[q].0 && all@[q].1@
                == catalog()[q].1,
            idx == Seq::new(catalog().len(), |i: int| i),
            pred == (|i: int|
                match fspec {
                    None => true,
                    Some(f) => catalog()[i].0 == f,
                }),
            fspec == match filter {
                Some(f) => Some(f@),
                None => None,
            },
            r@.len() == idx.take(i as int).filter(pred).len(),
            forall|j: int|
                0 <= j < r@.len() ==> {
                    let q = idx.take(i as int).filter(pred)[j];
                    &&& (#[trigger] r@[j]).function_id@ == catalog()[q].0
                    &&& r@[j].description@ == catalog()[q].1
                    &&& r@[j].request.model() == schema_or_null(schemas@[q].0)
                    &&& r@[j].response.model() == schema_or_null(schemas@[q].1)
                    &&& (r@[j].default_timeout_ms, r@[j].idempotent) == metadata_of(catalog()[q].0)
                },
        decreases all.len() - i,
    {
        let (id, desc) = all[i];
        let keep = match filter {
            None => true,
            Some(f) => str_eq(f, id),
        };
        proof {
            let t0 = idx.take(i as int);
            let t1 = idx.take(i as int + 1);
            assert(t1 == t0.push(i as int));
            t0.lemma_filter_push(i as int, pred);
            assert(keep == pred(i as int));
        }
        if keep {
            let (timeout, idem) = op_metadata(id);
            let request = match &schemas[i].0 {
                Some(v) => v.duplicate(),
                None => JsonValue::Null,
            };
            let response = match &schemas[i].1 {
                Some(v) => v.duplicate(),
                None => JsonValue::Null,
            };
            let ghost before = r@;
            r.push(
                SchemaEntry {
                    function_id: String::from_str(id),
                    description: String::from_str(desc),
                    request,
                    response,
                    default_timeout_ms: timeout,
                    idempotent: idem,
                },
            );
            proof {
                assert forall|j: int| 0 <= j < before.len() implies r@[j] == before[j] by {}
            }
        }
        i += 1;
    }
    assert(idx.take(catalog().len() as int) == idx);
    r
}

/// Whether a `worker::list` payload means "no arguments": `null` or an
/// empty object. Any other payload must parse as list options.
pub fn list_payload_is_default(payload: &JsonValue) -> (r: bool)
    ensures
        r == (payload.model() == Json::Null || payload.model() == Json::Object(Seq::empty())),
{
    match payload {
        JsonValue::Null => {
            assert(payload.model() == Json::Null);
            true
        },
        JsonValue::Object(members) => {
            let r = members.len() == 0;
            assert(r ==> payload.model()->Object_0 =~= Seq::<(Seq<char>, Json)>::empty());
            assert(!r ==> payload.model()->Object_0.len() > 0);
            r
        },
        JsonValue::Bool(_) => false,
        JsonValue::Number(_) => false,
        JsonValue::Str(_) => false,
        JsonValue::Array(_) => false,
    }
}

/// The worker operations' client metadata: installing and updating
/// (`worker::add`, `worker::update`) get ten minutes, starting one minute,
/// listing and schema introspection ten seconds, and removing, stopping,
/// clearing and any unknown id thirty seconds; every listed operation but
/// `worker::start` and `worker::stop` may be retried, and an unknown id may
/// not.
pub proof fn op_metadata_table(function_id: Seq<char>)
    ensures
        (function_id == "worker::add"@ || function_id == "worker::update"@) ==> metadata_of(function_id)
            == (600000u64, true),
        function_id == "worker::start"@ ==> metadata_of(function_id) == (60000u64, false),
        function_id == "worker::stop"@ ==> metadata_of(function_id) == (30000u64, false),
        (function_id == "worker::remove"@ || function_id == "worker::clear"@) ==> metadata_of(function_id)
            == (30000u64, true),
        (function_id == "worker::list"@ || function_id == "worker::schema"@) ==> metadata_of(function_id)
            == (10000u64, true),
        !(function_id == "worker::add"@ || function_id == "worker::remove"@ || function_id == "worker::update"@
            || function_id == "worker::start"@ || function_id == "worker::stop"@ || function_id == "worker::list"@
            || function_id == "worker::clear"@ || function_id == "worker::schema"@) ==> metadata_of(function_id)
            == (30000u64, false),
{
    reveal_strlit("worker::add");
    reveal_strlit("worker::remove");
    reveal_strlit("worker::update");
    reveal_strlit("worker::start");
    reveal_strlit("worker::stop");
    reveal_strlit("worker::list");
    reveal_strlit("worker::clear");
    reveal_strlit("worker::schema");
    assert("worker::add"@[8] == 'a');
    assert("worker::add"@[9] == 'd');
    assert("worker::add"@[10] == 'd');
    assert("worker::remove"@[8] == 'r');
    assert("worker::remove"@[9] == 'e');
    assert("worker::remove"@[10] == 'm');
    assert("worker::update"@[8] == 'u');
    assert("worker::update"@[9] == 'p');
    assert("worker::update"@[10] == 'd');
    assert("worker::start"@[8] == 's');
    assert("worker::start"@[9] == 't');
    assert("worker::start"@[10] == 'a');
    assert("worker::stop"@[8] == 's');
    assert("worker::stop"@[9] == 't');
    assert("worker::stop"@[10] == 'o');
    assert("worker::list"@[8] == 'l');
    assert("worker::list"@[9] == 'i');
    assert("worker::list"@[10] == 's');
    assert("worker::clear"@[8] == 'c');
    assert("worker::clear"@[9] == 'l');
    assert("worker::clear"@[10] == 'e');
    assert("worker::schema"@[8] == 's');
    assert("worker::schema"@[9] == 'c');
    assert("worker::schema"@[10] == 'h');
}

} // verus!

