//! The console's bridge functions: the checks and reshaping they apply to
//! requests and to the engine's replies.

use vstd::prelude::*;
use vstd::string::StringExecFns;

use crate::decimal::decimal;
use crate::json::{member, number_from_u64, object, text_of, Json, JsonValue};
use crate::numeric::{chars_eq_ignore_ascii_case, eq_ignore_ascii_case};
use crate::text::{chars_of, join2, str_eq};

verus! {

/// What `char::is_alphanumeric` answers for a character.
pub uninterp spec fn unicode_alphanumeric(c: char) -> bool;

/// `char::is_alphanumeric` (alphabetic or numeric in Unicode's terms). On
/// ASCII it holds exactly for letters and digits; beyond ASCII the
/// Unicode tables decide, which are not restated here.
#[verifier::external_body]
fn is_alphanumeric(c: char) -> (r: bool)
    ensures
        r == unicode_alphanumeric(c),
        (c as u32) < 128 ==> (r <==> ('a' <= c <= 'z' || 'A' <= c <= 'Z' || '0' <= c <= '9')),
{
    c.is_alphanumeric()
}

/// A character a flow id may hold.
pub open spec fn flow_id_char(c: char) -> bool {
    unicode_alphanumeric(c) || c == '-' || c == '_' || c == '.'
}

/// Check a flow id: non-empty, alphanumeric characters, `-`, `_` and `.`
/// only. The error is the handler message.
pub fn validate_flow_id(id: &str) -> (r: Result<String, String>)
    ensures
        (id@.len() > 0 && forall|i: int| 0 <= i < id@.len() ==> flow_id_char(#[trigger] id@[i]))
            ==> (r matches Ok(s) && s@ == id@),
        !(id@.len() > 0 && forall|i: int| 0 <= i < id@.len() ==> flow_id_char(#[trigger] id@[i]))
            ==> (r matches Err(m) && m@ == "Invalid flow_id: "@ + id@),
{
    let cs = chars_of(id);
    let mut ok = cs.len() > 0;
    let mut i: usize = 0;
    while i < cs.len()
        invariant
            i <= cs@.len(),
            cs@ == id@,
            ok == (cs@.len() > 0 && forall|j: int| 0 <= j < i ==> flow_id_char(#[trigger] cs@[j])),
        decreases cs.len() - i,
    {
        let c = cs[i];
        let good = is_alphanumeric(c) || c == '-' || c == '_' || c == '.';
        ok = ok && good;
        i += 1;
    }
    if ok {
        Ok(String::from_str(id))
    } else {
        Err(join2("Invalid flow_id: ", id))
    }
}

/// The parameters a request carries: its `query_params` object when it has
/// one, else the request itself.
pub open spec fn params_of(input: Json) -> Json {
    match member(input, "query_params"@) {
        Some(p) => p,
        None => input,
    }
}

/// A boolean request parameter: a JSON boolean as is, a string `true` in
/// any case as true; anything else (or nothing) is false.
pub open spec fn bool_param(input: Json, key: Seq<char>) -> bool {
    match member(params_of(input), key) {
        Some(Json::Bool(b)) => b,
        Some(Json::Str(s)) => eq_ignore_ascii_case(s, "true"@),
        _ => false,
    }
}

pub fn parse_bool_param(input: &JsonValue, key: &str) -> (r: bool)
    ensures
        r == bool_param(input.model(), key@),
{
    let params = match input.get("query_params") {
        Some(p) => p,
        None => input,
    };
    match params.get(key) {
        Some(JsonValue::Bool(b)) => *b,
        Some(JsonValue::Str(s)) => chars_eq_ignore_ascii_case(&chars_of(s.as_str()), &chars_of("true")),
        _ => false,
    }
}

/// Whether `t` begins with `p`.
pub open spec fn starts_with(t: Seq<char>, p: Seq<char>) -> bool {
    p.len() <= t.len() && t.subrange(0, p.len() as int) == p
}

pub fn str_starts_with(t: &str, p: &str) -> (r: bool)
    ensures
        r == starts_with(t@, p@),
{
    let a = chars_of(t);
    let b = chars_of(p);
    if b.len() > a.len() {
        return false;
    }
    let mut i: usize = 0;
    while i < b.len()
        invariant
            i <= b@.len() <= a@.len(),
            a@ == t@,
            b@ == p@,
            forall|j: int| 0 <= j < i ==> a@[j] == b@[j],
        decreases b.len() - i,
    {
        if a[i] != b[i] {
            assert(a@.subrange(0, b@.len() as int)[i as int] != b@[i as int]);
            return false;
        }
        i += 1;
    }
    assert(a@.subrange(0, b@.len() as int) == b@);
    true
}

/// The module a trigger type belongs to.
pub open spec fn module_of(t: Seq<char>) -> Seq<char> {
    if t == "api"@ {
        "rest_api"@
    } else if t == "cron"@ {
        "cron"@
    } else if t == "event"@ {
        "event"@
    } else if starts_with(t, "stream"@) {
        "streams"@
    } else if t == "subscribe"@ {
        "streams"@
    } else {
        t
    }
}

pub fn module_for_trigger_type(t: &str) -> (r: String)
    ensures
        r@ == module_of(t@),
{
    if str_eq(t, "api") {
        String::from_str("rest_api")
    } else if str_eq(t, "cron") {
        String::from_str("cron")
    } else if str_eq(t, "event") {
        String::from_str("event")
    } else if str_starts_with(t, "stream") {
        String::from_str("streams")
    } else if str_eq(t, "subscribe") {
        String::from_str("streams")
    } else {
        String::from_str(t)
    }
}

/// Each text of `s` once, in order of first appearance.
pub open spec fn distinct_firsts(s: Seq<Seq<char>>) -> Seq<Seq<char>>
    decreases s.len(),
{
    if s.len() == 0 {
        Seq::empty()
    } else {
        let r = distinct_firsts(s.drop_last());
        if r.contains(s.last()) {
            r
        } else {
            r.push(s.last())
        }
    }
}

/// How many times `t` occurs in `s`.
pub open spec fn occurrences(s: Seq<Seq<char>>, t: Seq<char>) -> nat
    decreases s.len(),
{
    if s.len() == 0 {
        0
    } else {
        occurrences(s.drop_last(), t) + if s.last() == t {
            1nat
        } else {
            0nat
        }
    }
}

fn seq_contains(v: &Vec<String>, t: &str) -> (r: bool)
    ensures
        r == v@.map_values(|x: String| x@).contains(t@),
{
    let ghost vs = v@.map_values(|x: String| x@);
    let mut i: usize = 0;
    while i < v.len()
        invariant
            i <= v@.len(),
            vs == v@.map_values(|x: String| x@),
            forall|j: int| 0 <= j < i ==> vs[j] != t@,
        decreases v.len() - i,
    {
        if str_eq(v[i].as_str(), t) {
            assert(vs[i as int] == t@);
            return true;
        }
        i += 1;
    }
    false
}

/// Each of `items` once, in order of first appearance.
pub fn distinct_in_order(items: &Vec<String>) -> (r: Vec<String>)
    ensures
        r@.map_values(|x: String| x@) == distinct_firsts(items@.map_values(|x: String| x@)),
{
    let ghost src = items@.map_values(|x: String| x@);
    let mut r: Vec<String> = Vec::new();
    let mut i: usize = 0;
    while i < items.len()
        invariant
            i <= items@.len(),
            src == items@.map_values(|x: String| x@),
            r@.map_values(|x: String| x@) == distinct_firsts(src.take(i as int)),
        decreases items.len() - i,
    {
        let t = &items[i];
        assert(src.take(i as int + 1).drop_last() == src.take(i as int));
        assert(src.take(i as int + 1).last() == t@);
        if !seq_contains(&r, t.as_str()) {
            let ghost before = r@;
            r.push(t.clone());
            assert(r@.map_values(|x: String| x@) == before.map_values(|x: String| x@).push(t@));
        }
        i += 1;
    }
    assert(src.take(items@.len() as int) == src);
    r
}

/// How many of `items` equal `t`.
pub fn count_of(items: &Vec<String>, t: &str) -> (r: usize)
    ensures
        r == occurrences(items@.map_values(|x: String| x@), t@),
{
    let ghost src = items@.map_values(|x: String| x@);
    let mut n: usize = 0;
    let mut i: usize = 0;
    while i < items.len()
        invariant
            i <= items@.len(),
            src == items@.map_values(|x: String| x@),
            n == occurrences(src.take(i as int), t@),
            n <= i,
        decreases items.len() - i,
    {
        assert(src.take(i as int + 1).drop_last() == src.take(i as int));
        if str_eq(items[i].as_str(), t) {
            n += 1;
        }
        i += 1;
    }
    assert(src.take(items@.len() as int) == src);
    n
}

/// One row of the engine's registered-trigger list, as the console reads
/// it (`unknown` and the empty text stand for missing fields).
#[derive(Debug, Clone)]
pub struct TriggerRow {
    pub trigger_type: String,
    pub function_id: String,
}

/// One entry of the console's adapter overview.
#[derive(Debug, Clone)]
pub struct AdapterSummary {
    pub id: String,
    /// `module`, `trigger` or `worker_pool`.
    pub kind: String,
    pub status: String,
    pub health: String,
    pub description: String,
    pub internal: bool,
    /// Number of workers in a pool.
    pub count: Option<usize>,
}

/// The model of an overview entry (its status is always `active`).
pub struct SummaryModel {
    pub id: Seq<char>,
    pub kind: Seq<char>,
    pub health: Seq<char>,
    pub description: Seq<char>,
    pub internal: bool,
    pub count: Option<nat>,
}

pub open spec fn summary_model(a: AdapterSummary) -> SummaryModel {
    SummaryModel {
        id: a.id@,
        kind: a.kind@,
        health: a.health@,
        description: a.description@,
        internal: a.internal,
        count: match a.count {
            Some(n) => Some(n as nat),
            None => None,
        },
    }
}

pub open spec fn health_word(healthy: bool) -> Seq<char> {
    if healthy {
        "healthy"@
    } else {
        "degraded"@
    }
}

pub open spec fn module_entry(m: Seq<char>, healthy: bool) -> SummaryModel {
    SummaryModel {
        id: m,
        kind: "module"@,
        health: health_word(healthy),
        description: m + " module"@,
        internal: false,
        count: None,
    }
}

/// Whether every trigger of type `t` calls an `engine::` function.
pub open spec fn all_internal(rows: Seq<TriggerRow>, t: Seq<char>) -> bool {
    forall|i: int| 0 <= i < rows.len() && (#[trigger] rows[i]).trigger_type@ == t ==> starts_with(
        rows[i].function_id@,
        "engine::"@,
    )
}

pub open spec fn trigger_entry(t: Seq<char>, rows: Seq<TriggerRow>) -> SummaryModel {
    SummaryModel {
        id: t,
        kind: "trigger"@,
        health: "healthy"@,
        description: t + " trigger handler"@,
        internal: all_internal(rows, t),
        count: None,
    }
}

pub open spec fn pool_entry(p: Seq<char>, runtimes: Seq<Seq<char>>) -> SummaryModel {
    SummaryModel {
        id: p,
        kind: "worker_pool"@,
        health: "healthy"@,
        description: p + " worker pool"@,
        internal: false,
        count: Some(occurrences(runtimes, p)),
    }
}

pub open spec fn row_types(rows: Seq<TriggerRow>) -> Seq<Seq<char>> {
    rows.map_values(|r: TriggerRow| r.trigger_type@)
}

pub open spec fn row_modules(rows: Seq<TriggerRow>) -> Seq<Seq<char>> {
    rows.map_values(|r: TriggerRow| module_of(r.trigger_type@))
}

/// The modules the overview shows.
pub open spec fn modules_shown(rows: Option<Seq<TriggerRow>>) -> Seq<Seq<char>> {
    match rows {
        Some(rs) => distinct_firsts(row_modules(rs)),
        None => Seq::empty(),
    }
}

/// The console's adapter overview: a module entry per module with active
/// triggers (first appearance order), a trigger-handler entry per trigger
/// type, the devtools and observability modules unless already listed,
/// then a pool entry per worker runtime with its worker count. Trigger and
/// pool entries come in order of first appearance.
pub open spec fn overview(rows: Option<Seq<TriggerRow>>, healthy: bool, runtimes: Option<Seq<Seq<char>>>) -> Seq<SummaryModel> {
    let ms = modules_shown(rows);
    let modules = ms.map_values(|m: Seq<char>| module_entry(m, healthy));
    let triggers = match rows {
        Some(rs) => distinct_firsts(row_types(rs)).map_values(|t: Seq<char>| trigger_entry(t, rs)),
        None => Seq::empty(),
    };
    let devtools = if ms.contains("devtools"@) {
        Seq::empty()
    } else {
        seq![
            SummaryModel {
                id: "devtools"@,
                kind: "module"@,
                health: "healthy"@,
                description: "devtools module"@,
                internal: true,
                count: None,
            },
        ]
    };
    let observability = if ms.contains("observability"@) {
        Seq::empty()
    } else {
        seq![
            SummaryModel {
                id: "observability"@,
                kind: "module"@,
                health: health_word(healthy),
                description: "observability module"@,
                internal: true,
                count: None,
            },
        ]
    };
    let pools = match runtimes {
        Some(rt) => distinct_firsts(rt).map_values(|p: Seq<char>| pool_entry(p, rt)),
        None => Seq::empty(),
    };
    modules + triggers + devtools + observability + pools
}

fn summary(id: String, kind: &str, health: &str, description: String, internal: bool, count: Option<usize>) -> (r: AdapterSummary)
    ensures
        r.id@ == id@,
        r.kind@ == kind@,
        r.status@ == "active"@,
        r.health@ == health@,
        r.description@ == description@,
        r.internal == internal,
        r.count == count,
{
    AdapterSummary {
        id,
        kind: String::from_str(kind),
        status: String::from_str("active"),
        health: String::from_str(health),
        description,
        internal,
        count,
    }
}

fn health_text(healthy: bool) -> (r: &'static str)
    ensures
        r@ == health_word(healthy),
{
    if healthy {
        "healthy"
    } else {
        "degraded"
    }
}

fn rows_all_internal(rows: &Vec<TriggerRow>, t: &str) -> (r: bool)
    ensures
        r == all_internal(rows@, t@),
{
    let mut i: usize = 0;
    while i < rows.len()
        invariant
            i <= rows@.len(),
            forall|j: int| 0 <= j < i && (#[trigger] rows@[j]).trigger_type@ == t@ ==> starts_with(
                rows@[j].function_id@,
                "engine::"@,
            ),
        decreases rows.len() - i,
    {
        if str_eq(rows[i].trigger_type.as_str(), t) && !str_starts_with(
            rows[i].function_id.as_str(),
            "engine::",
        ) {
            return false;
        }
        i += 1;
    }
    true
}

/// The console's adapter overview (see [`overview`]): `rows` are the
/// registered triggers when the engine listed them, `runtimes` the workers'
/// runtimes when it listed them.
pub fn adapter_summaries(rows: Option<&Vec<TriggerRow>>, healthy: bool, runtimes: Option<&Vec<String>>) -> (r: Vec<AdapterSummary>)
    ensures
        r@.map_values(|a: AdapterSummary| summary_model(a)) == overview(
            match rows {
                Some(v) => Some(v@),
                None => None,
            },
            healthy,
            match runtimes {
                Some(v) => Some(v@.map_values(|x: String| x@)),
                None => None,
            },
        ),
        forall|i: int| 0 <= i < r@.len() ==> (#[trigger] r@[i]).status@ == "active"@,
{
    let ghost rows_m = match rows {
        Some(v) => Some(v@),
        None => None::<Seq<TriggerRow>>,
    };
    let ghost rt_m = match runtimes {
        Some(v) => Some(v@.map_values(|x: String| x@)),
        None => None::<Seq<Seq<char>>>,
    };
    let mut modules: Vec<String> = Vec::new();
    let mut types: Vec<String> = Vec::new();
    match rows {
        Some(v) => {
            let mut ms: Vec<String> = Vec::new();
            let mut ts: Vec<String> = Vec::new();
            let mut i: usize = 0;
            while i < v.len()
                invariant
                    i <= v@.len(),
                    ms@.len() == i,
                    ts@.len() == i,
                    forall|j: int| 0 <= j < i ==> (#[trigger] ms@[j])@ == module_of(v@[j].trigger_type@),
                    forall|j: int| 0 <= j < i ==> (#[trigger] ts@[j])@ == v@[j].trigger_type@,
                decreases v.len() - i,
            {
                ms.push(module_for_trigger_type(v[i].trigger_type.as_str()));
                ts.push(v[i].trigger_type.clone());
                i += 1;
            }
            assert(ms@.map_values(|x: String| x@) =~= row_modules(v@));
            assert(ts@.map_values(|x: String| x@) =~= row_types(v@));
            modules = distinct_in_order(&ms);
            types = distinct_in_order(&ts);
        },
        None => {
            assert(modules@.map_values(|x: String| x@) =~= Seq::<Seq<char>>::empty());
        },
    }
    let ghost ms_m = modules_shown(rows_m);
    assert(modules@.map_values(|x: String| x@) == ms_m);
    let ghost ov = overview(rows_m, healthy, rt_m);
    let mut r: Vec<AdapterSummary> = Vec::new();
    let mut i: usize = 0;
    while i < modules.len()
        invariant
            i <= modules@.len(),
            modules@.map_values(|x: String| x@) == ms_m,
            r@.map_values(|a: AdapterSummary| summary_model(a)) == ms_m.take(i as int).map_values(
                |m: Seq<char>| module_entry(m, healthy),
            ),
            forall|q: int| 0 <= q < r@.len() ==> (#[trigger] r@[q]).status@ == "active"@,
        decreases modules.len() - i,
    {
        let m = &modules[i];
        assert(ms_m[i as int] == m@);
        let e = summary(m.clone(), "module", health_text(healthy), join2(m.as_str(), " module"), false, None);
        let ghost before = r@;
        r.push(e);
        assert(ms_m.take(i as int + 1) == ms_m.take(i as int).push(m@));
        assert(r@.map_values(|a: AdapterSummary| summary_model(a)) == before.map_values(|a: AdapterSummary| summary_model(a)).push(module_entry(m@, healthy)));
        i += 1;
    }
    assert(ms_m.take(modules@.len() as int) == ms_m);
    let ghost part1 = r@.map_values(|a: AdapterSummary| summary_model(a));
    match rows {
        Some(v) => {
            let ghost ts_m = distinct_firsts(row_types(v@));
            assert(types@.map_values(|x: String| x@) == ts_m);
            let ghost base = r@;
            let mut k: usize = 0;
            while k < types.len()
                invariant
                    k <= types@.len(),
                    types@.map_values(|x: String| x@) == ts_m,
                    r@.len() == base.len() + k,
                    forall|q: int| 0 <= q < base.len() ==> #[trigger] r@[q] == base[q],
                    r@.map_values(|a: AdapterSummary| summary_model(a)) == base.map_values(|a: AdapterSummary| summary_model(a)) + ts_m.take(k as int).map_values(
                        |t: Seq<char>| trigger_entry(t, v@),
                    ),
                    forall|q: int| 0 <= q < r@.len() ==> (#[trigger] r@[q]).status@ == "active"@,
                decreases types.len() - k,
            {
                let t = &types[k];
                assert(ts_m[k as int] == t@);
                let internal = rows_all_internal(v, t.as_str());
                let e = summary(t.clone(), "trigger", "healthy", join2(t.as_str(), " trigger handler"), internal, None);
                let ghost before = r@;
                r.push(e);
                assert(ts_m.take(k as int + 1) == ts_m.take(k as int).push(t@));
                assert(r@.map_values(|a: AdapterSummary| summary_model(a)) == before.map_values(|a: AdapterSummary| summary_model(a)).push(trigger_entry(t@, v@)));
                k += 1;
            }
            assert(ts_m.take(types@.len() as int) == ts_m);
        },
        None => {},
    }
    let ghost part2 = r@.map_values(|a: AdapterSummary| summary_model(a));
    let has_devtools = seq_contains(&modules, "devtools");
    if !has_devtools {
        r.push(summary(String::from_str("devtools"), "module", "healthy", String::from_str("devtools module"), true, None));
    }
    let has_observability = seq_contains(&modules, "observability");
    if !has_observability {
        r.push(summary(String::from_str("observability"), "module", health_text(healthy), String::from_str("observability module"), true, None));
    }
    let ghost part3 = r@.map_values(|a: AdapterSummary| summary_model(a));
    match runtimes {
        Some(rt) => {
            let pools = distinct_in_order(rt);
            let ghost ps_m = distinct_firsts(rt@.map_values(|x: String| x@));
            let ghost base = r@;
            let mut k: usize = 0;
            while k < pools.len()
                invariant
                    k <= pools@.len(),
                    pools@.map_values(|x: String| x@) == ps_m,
                    r@.map_values(|a: AdapterSummary| summary_model(a)) == base.map_values(|a: AdapterSummary| summary_model(a)) + ps_m.take(k as int).map_values(
                        |p: Seq<char>| pool_entry(p, rt@.map_values(|x: String| x@)),
                    ),
                    forall|q: int| 0 <= q < r@.len() ==> (#[trigger] r@[q]).status@ == "active"@,
                decreases pools.len() - k,
            {
                let p = &pools[k];
                assert(ps_m[k as int] == p@);
                let n = count_of(rt, p.as_str());
                let e = summary(p.clone(), "worker_pool", "healthy", join2(p.as_str(), " worker pool"), false, Some(n));
                let ghost before = r@;
                r.push(e);
                assert(ps_m.take(k as int + 1) == ps_m.take(k as int).push(p@));
                assert(r@.map_values(|a: AdapterSummary| summary_model(a)) == before.map_values(|a: AdapterSummary| summary_model(a)).push(pool_entry(p@, rt@.map_values(|x: String| x@))));
                k += 1;
            }
            assert(ps_m.take(pools@.len() as int) == ps_m);
        },
        None => {},
    }
    proof {
        reveal_strlit("devtools");
        reveal_strlit("observability");
    }
    assert(r@.map_values(|a: AdapterSummary| summary_model(a)) =~= ov);
    r
}

/// The text of member `key` of `j`, or `default` when it is missing or not
/// a string.
pub open spec fn text_or(j: Json, key: Seq<char>, default: Seq<char>) -> Seq<char> {
    match text_of(member(j, key)) {
        Some(t) => t,
        None => default,
    }
}

pub(crate) fn text_member_or(j: &JsonValue, key: &str, default: &str) -> (r: String)
    ensures
        r@ == text_or(j.model(), key@, default@),
{
    match j.get(key) {
        Some(v) => match v.as_str() {
            Some(t) => String::from_str(t),
            None => String::from_str(default),
        },
        None => String::from_str(default),
    }
}

/// The items of member `key` of `j`, when it is an array.
pub open spec fn array_member(j: Json, key: Seq<char>) -> Option<Seq<Json>> {
    match member(j, key) {
        Some(Json::Array(items)) => Some(items),
        _ => None,
    }
}

/// The rows of the engine's registered-trigger list (`registered_triggers`),
/// when the reply has them.
pub fn trigger_rows(data: &JsonValue) -> (r: Option<Vec<TriggerRow>>)
    ensures
        array_member(data.model(), "registered_triggers"@) is None ==> r is None,
        array_member(data.model(), "registered_triggers"@) matches Some(items) ==> (r matches Some(rows)
            && rows@.len() == items.len() && forall|i: int| 0 <= i < rows@.len() ==> {
            &&& (#[trigger] rows@[i]).trigger_type@ == text_or(items[i], "trigger_type"@, "unknown"@)
            &&& rows@[i].function_id@ == text_or(items[i], "function_id"@, ""@)
        }),
{
    let list = match data.get("registered_triggers") {
        Some(v) => match v.as_array() {
            Some(items) => items,
            None => {
                return None;
            },
        },
        None => {
            return None;
        },
    };
    let mut rows: Vec<TriggerRow> = Vec::new();
    let mut i: usize = 0;
    while i < list.len()
        invariant
            i <= list@.len(),
            rows@.len() == i,
            forall|j: int| 0 <= j < i ==> {
                &&& (#[trigger] rows@[j]).trigger_type@ == text_or(list@[j].model(), "trigger_type"@, "unknown"@)
                &&& rows@[j].function_id@ == text_or(list@[j].model(), "function_id"@, ""@)
            },
        decreases list.len() - i,
    {
        let t = text_member_or(&list[i], "trigger_type", "unknown");
        let f = text_member_or(&list[i], "function_id", "");
        rows.push(TriggerRow { trigger_type: t, function_id: f });
        i += 1;
    }
    Some(rows)
}

/// The runtimes of the engine's worker list (`workers`), when the reply has
/// one (`unknown` for a worker without a runtime).
pub fn worker_runtimes(data: &JsonValue) -> (r: Option<Vec<String>>)
    ensures
        array_member(data.model(), "workers"@) is None ==> r is None,
        array_member(data.model(), "workers"@) matches Some(items) ==> (r matches Some(rts)
            && rts@.len() == items.len() && forall|i: int| 0 <= i < rts@.len() ==> (#[trigger] rts@[i])@
            == text_or(items[i], "runtime"@, "unknown"@)),
{
    let list = match data.get("workers") {
        Some(v) => match v.as_array() {
            Some(items) => items,
            None => {
                return None;
            },
        },
        None => {
            return None;
        },
    };
    let mut rts: Vec<String> = Vec::new();
    let mut i: usize = 0;
    while i < list.len()
        invariant
            i <= list@.len(),
            rts@.len() == i,
            forall|j: int| 0 <= j < i ==> (#[trigger] rts@[j])@ == text_or(list@[j].model(), "runtime"@, "unknown"@),
        decreases list.len() - i,
    {
        rts.push(text_member_or(&list[i], "runtime", "unknown"));
        i += 1;
    }
    Some(rts)
}

/// Whether the engine reported itself healthy: its health reply's `status`
/// is `healthy`.
pub fn engine_healthy(health: Option<&JsonValue>) -> (r: bool)
    ensures
        r == (health matches Some(h) && text_or(h.model(), "status"@, "unknown"@) == "healthy"@),
{
    match health {
        Some(h) => {
            let status = text_member_or(h, "status", "unknown");
            str_eq(status.as_str(), "healthy")
        },
        None => false,
    }
}

/// The text of `key` in the request body (`body`, or the request itself
/// when it has none), else in the request itself.
pub open spec fn body_text_of(input: Json, key: Seq<char>) -> Option<Seq<char>> {
    let body = match member(input, "body"@) {
        Some(b) => b,
        None => input,
    };
    match text_of(member(body, key)) {
        Some(t) => Some(t),
        None => text_of(member(input, key)),
    }
}

pub(crate) fn text_member(j: &JsonValue, key: &str) -> (r: Option<String>)
    ensures
        match r {
            Some(t) => text_of(member(j.model(), key@)) == Some(t@),
            None => text_of(member(j.model(), key@)) is None,
        },
{
    match j.get(key) {
        Some(v) => match v.as_str() {
            Some(t) => Some(String::from_str(t)),
            None => None,
        },
        None => None,
    }
}

fn body_text(input: &JsonValue, key: &str) -> (r: Option<String>)
    ensures
        match r {
            Some(t) => body_text_of(input.model(), key@) == Some(t@),
            None => body_text_of(input.model(), key@) is None,
        },
{
    let body = match input.get("body") {
        Some(b) => b,
        None => input,
    };
    match text_member(body, key) {
        Some(t) => Some(t),
        None => text_member(input, key),
    }
}

/// What a manual cron run was asked for: the trigger id (required,
/// non-empty) and the function id when the request names one.
pub fn cron_trigger_target(input: &JsonValue) -> (r: Result<(String, Option<String>), String>)
    ensures
        match body_text_of(input.model(), "trigger_id"@) {
            Some(t) => if t.len() > 0 {
                r matches Ok(p) && p.0@ == t && match body_text_of(input.model(), "function_id"@) {
                    Some(f) => p.1 matches Some(g) && g@ == f,
                    None => p.1 is None,
                }
            } else {
                r matches Err(m) && m@ == "Missing trigger_id in request"@
            },
            None => r matches Err(m) && m@ == "Missing trigger_id in request"@,
        },
{
    let trigger_id = match body_text(input, "trigger_id") {
        Some(t) => {
            if chars_of(t.as_str()).len() == 0 {
                return Err(String::from_str("Missing trigger_id in request"));
            }
            t
        },
        None => {
            return Err(String::from_str("Missing trigger_id in request"));
        },
    };
    let function_id = body_text(input, "function_id");
    Ok((trigger_id, function_id))
}

/// The first item whose `id` is the text `id`.
pub open spec fn first_with_id(items: Seq<Json>, id: Seq<char>, i: int) -> Option<Json>
    decreases items.len() - i,
{
    if i < 0 || i >= items.len() {
        None
    } else if text_of(member(items[i], "id"@)) == Some(id) {
        Some(items[i])
    } else {
        first_with_id(items, id, i + 1)
    }
}

fn find_by_id(items: &Vec<JsonValue>, id: &str) -> (r: Option<usize>)
    ensures
        ({
            let ms = items@.map_values(|v: JsonValue| v.model());
            match r {
                Some(i) => i < items@.len() && first_with_id(ms, id@, 0) == Some(ms[i as int]),
                None => first_with_id(ms, id@, 0) is None,
            }
        }),
{
    let ghost ms = items@.map_values(|v: JsonValue| v.model());
    let mut i: usize = 0;
    while i < items.len()
        invariant
            i <= items@.len(),
            ms == items@.map_values(|v: JsonValue| v.model()),
            first_with_id(ms, id@, 0) == first_with_id(ms, id@, i as int),
        decreases items.len() - i,
    {
        let hit = match text_member(&items[i], "id") {
            Some(t) => str_eq(t.as_str(), id),
            None => false,
        };
        if hit {
            return Some(i);
        }
        i += 1;
    }
    None
}

/// The function a cron trigger runs, looked up in the engine's
/// registered-trigger list: the trigger must be listed, be a cron trigger
/// and name a function.
pub fn cron_function_from(trigger_id: &str, triggers_data: &JsonValue) -> (r: Result<String, String>)
    ensures
        ({
            let found = match array_member(triggers_data.model(), "registered_triggers"@) {
                Some(items) => first_with_id(items, trigger_id@, 0),
                None => None,
            };
            match found {
                None => r matches Err(m) && m@ == "Cron trigger '"@ + trigger_id@ + "' not found"@,
                Some(t) => if text_or(t, "trigger_type"@, ""@) != "cron"@ {
                    r matches Err(m) && m@ == "Trigger '"@ + trigger_id@ + "' is not a cron trigger"@
                } else {
                    match text_of(member(t, "function_id"@)) {
                        Some(f) => if f.len() > 0 {
                            r matches Ok(g) && g@ == f
                        } else {
                            r matches Err(m) && m@ == "Cron trigger '"@ + trigger_id@ + "' has no function_id"@
                        },
                        None => r matches Err(m) && m@ == "Cron trigger '"@ + trigger_id@ + "' has no function_id"@,
                    }
                },
            }
        }),
{
    let not_found = join2("Cron trigger '", trigger_id).concat("' not found");
    let list = match triggers_data.get("registered_triggers") {
        Some(v) => v,
        None => {
            return Err(not_found);
        },
    };
    let items = match list.as_array() {
        Some(items) => items,
        None => {
            return Err(not_found);
        },
    };
    proof {
        assert(list.model()->Array_0 =~= items@.map_values(|v: JsonValue| v.model()));
    }
    let t = match find_by_id(items, trigger_id) {
        Some(i) => &items[i],
        None => {
            return Err(not_found);
        },
    };
    let kind = text_member_or(t, "trigger_type", "");
    if !str_eq(kind.as_str(), "cron") {
        return Err(join2("Trigger '", trigger_id).concat("' is not a cron trigger"));
    }
    match text_member(t, "function_id") {
        Some(f) => {
            if chars_of(f.as_str()).len() == 0 {
                Err(join2("Cron trigger '", trigger_id).concat("' has no function_id"))
            } else {
                Ok(f)
            }
        },
        None => Err(join2("Cron trigger '", trigger_id).concat("' has no function_id")),
    }
}

fn obj(members: Vec<(String, JsonValue)>) -> (r: JsonValue)
    ensures
        r.model() == Json::Object(members@.map_values(|m: (String, JsonValue)| (m.0@, m.1.model()))),
{
    let r = JsonValue::Object(members);
    assert(r.model()->Object_0 =~= members@.map_values(|m: (String, JsonValue)| (m.0@, m.1.model())));
    r
}

/// The payload of a manual cron run (`now` is the current Unix time in
/// seconds, as text).
pub fn cron_payload(trigger_id: &str, now: &str) -> (r: JsonValue)
    ensures
        r.model() == Json::Object(
            seq![
                ("trigger"@, Json::Str("cron"@)),
                ("job_id"@, Json::Str(trigger_id@)),
                ("scheduled_time"@, Json::Str(now@)),
                ("actual_time"@, Json::Str(now@)),
                ("manual"@, Json::Bool(true)),
                ("source"@, Json::Str("console"@)),
            ],
        ),
{
    let mut m: Vec<(String, JsonValue)> = Vec::new();
    m.push((String::from_str("trigger"), JsonValue::Str(String::from_str("cron"))));
    m.push((String::from_str("job_id"), JsonValue::Str(String::from_str(trigger_id))));
    m.push((String::from_str("scheduled_time"), JsonValue::Str(String::from_str(now))));
    m.push((String::from_str("actual_time"), JsonValue::Str(String::from_str(now))));
    m.push((String::from_str("manual"), JsonValue::Bool(true)));
    m.push((String::from_str("source"), JsonValue::Str(String::from_str("console"))));
    let r = obj(m);
    assert(r.model()->Object_0 =~= seq![
        ("trigger"@, Json::Str("cron"@)),
        ("job_id"@, Json::Str(trigger_id@)),
        ("scheduled_time"@, Json::Str(now@)),
        ("actual_time"@, Json::Str(now@)),
        ("manual"@, Json::Bool(true)),
        ("source"@, Json::Str("console"@)),
    ]);
    r
}

/// The answer of a manual cron run.
pub fn cron_response(trigger_id: &str, function_id: &str, result: JsonValue) -> (r: JsonValue)
    ensures
        r.model() == Json::Object(
            seq![
                ("trigger_id"@, Json::Str(trigger_id@)),
                ("function_id"@, Json::Str(function_id@)),
                ("result"@, result.model()),
            ],
        ),
{
    let ghost rm = result.model();
    let mut m: Vec<(String, JsonValue)> = Vec::new();
    m.push((String::from_str("trigger_id"), JsonValue::Str(String::from_str(trigger_id))));
    m.push((String::from_str("function_id"), JsonValue::Str(String::from_str(function_id))));
    m.push((String::from_str("result"), result));
    let r = obj(m);
    assert(r.model()->Object_0 =~= seq![
        ("trigger_id"@, Json::Str(trigger_id@)),
        ("function_id"@, Json::Str(function_id@)),
        ("result"@, rm),
    ]);
    r
}

/// An overview entry as the console sends it: id, type, status, health,
/// description, the worker count of a pool, and whether it is internal.
pub open spec fn summary_json(a: AdapterSummary) -> Json {
    let head = seq![
        ("id"@, Json::Str(a.id@)),
        ("type"@, Json::Str(a.kind@)),
        ("status"@, Json::Str(a.status@)),
        ("health"@, Json::Str(a.health@)),
        ("description"@, Json::Str(a.description@)),
    ];
    let counted = match a.count {
        Some(n) => head.push(("count"@, Json::Number(decimal(n as nat)))),
        None => head,
    };
    Json::Object(counted.push(("internal"@, Json::Bool(a.internal))))
}

fn text_json(t: &str) -> (r: JsonValue)
    ensures
        r.model() == Json::Str(t@),
{
    JsonValue::Str(String::from_str(t))
}

fn summary_value(a: &AdapterSummary) -> (r: JsonValue)
    ensures
        r.model() == summary_json(*a),
{
    let mut m: Vec<(String, JsonValue)> = Vec::new();
    m.push((String::from_str("id"), text_json(a.id.as_str())));
    m.push((String::from_str("type"), text_json(a.kind.as_str())));
    m.push((String::from_str("status"), text_json(a.status.as_str())));
    m.push((String::from_str("health"), text_json(a.health.as_str())));
    m.push((String::from_str("description"), text_json(a.description.as_str())));
    match a.count {
        Some(n) => m.push((String::from_str("count"), number_from_u64(n as u64))),
        None => {},
    }
    m.push((String::from_str("internal"), JsonValue::Bool(a.internal)));
    let r = object(m);
    assert(r.model()->Object_0 =~= summary_json(*a)->Object_0);
    r
}

/// The adapter overview reply: the entries and their number.
pub fn adapters_reply(summaries: &Vec<AdapterSummary>) -> (r: JsonValue)
    ensures
        r.model() == Json::Object(
            seq![
                ("adapters"@, Json::Array(summaries@.map_values(|a: AdapterSummary| summary_json(a)))),
                ("count"@, Json::Number(decimal(summaries@.len()))),
            ],
        ),
{
    let mut items: Vec<JsonValue> = Vec::new();
    let mut i: usize = 0;
    while i < summaries.len()
        invariant
            i <= summaries@.len(),
            items@.len() == i,
            forall|k: int| 0 <= k < i ==> (#[trigger] items@[k]).model() == summary_json(summaries@[k]),
        decreases summaries.len() - i,
    {
        items.push(summary_value(&summaries[i]));
        i += 1;
    }
    let n = items.len();
    let arr = JsonValue::Array(items);
    assert(arr.model()->Array_0 =~= summaries@.map_values(|a: AdapterSummary| summary_json(a)));
    let mut m: Vec<(String, JsonValue)> = Vec::new();
    m.push((String::from_str("adapters"), arr));
    m.push((String::from_str("count"), number_from_u64(n as u64)));
    let r = object(m);
    assert(r.model()->Object_0 =~= seq![
        ("adapters"@, Json::Array(summaries@.map_values(|a: AdapterSummary| summary_json(a)))),
        ("count"@, Json::Number(decimal(summaries@.len()))),
    ]);
    r
}

} // verus!
