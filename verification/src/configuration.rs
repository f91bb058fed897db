//! The configuration worker: registered configuration entries, their ids,
//! the placeholder expansion of their values, the errors of the store, and
//! the registry of `configuration` triggers with its TTL bookkeeping.

use vstd::prelude::*;
use vstd::string::StringExecFns;

use crate::env_expand::{expand_with, expansion, find_unresolved, resolvable_from, EnvVars};
use crate::json::{member, text_of, Json, JsonValue};
use crate::keyed::KeyedList;
use crate::schema::{schema_validity, validate_against_schema};
use crate::sort::{sort_by_key, text_le};
use crate::protocol::ErrorBody;
use crate::text::{chars_of, join2};
use crate::trigger_formats::{ConfigurationCallRequest, ConfigurationEventType};

verus! {

/// An adapter choice: its name and its own configuration.
#[derive(Debug, Clone)]
pub struct AdapterEntry {
    pub name: String,
    pub config: Option<JsonValue>,
}

/// Worker-level configuration of the configuration worker.
#[derive(Debug, Clone)]
pub struct ConfigurationModuleConfig {
    /// Adapter entry; `fs` when absent.
    pub adapter: Option<AdapterEntry>,
    /// Seconds after which an entry whose last trigger went away is
    /// deleted; `0` disables the clean-up.
    pub ttl_seconds: u64,
}

impl Default for ConfigurationModuleConfig {
    fn default() -> (r: Self)
        ensures
            r.adapter is None,
            r.ttl_seconds == 0,
    {
        ConfigurationModuleConfig { adapter: None, ttl_seconds: 0 }
    }
}

/// Whether a registration created an entry or replaced one.
#[derive(Debug, Clone, Copy, PartialEq, Eq, Structural)]
pub enum RegisterKind {
    Created,
    Replaced,
}

/// A registered configuration.
#[derive(Debug, Clone)]
pub struct ConfigurationEntry {
    pub id: String,
    pub name: String,
    pub description: String,
    /// JSON Schema the value must satisfy.
    pub schema: JsonValue,
    /// The stored value, placeholders unexpanded.
    pub value: JsonValue,
    pub metadata: Option<JsonValue>,
}

/// Errors of the configuration store.
#[derive(Debug, Clone)]
pub enum StoreError {
    NotRegistered(String),
    InvalidId(String),
    SchemaInvalid(String),
    /// The adapter failed; its message.
    Adapter(String),
}

impl StoreError {
    pub open spec fn text(self) -> Seq<char> {
        match self {
            StoreError::NotRegistered(id) => "configuration '"@ + id@
                + "' is not registered; call configuration::register first"@,
            StoreError::InvalidId(id) => "invalid configuration id '"@ + id@
                + "': must match [a-z0-9_-]{1,64}"@,
            StoreError::SchemaInvalid(m) => "schema validation failed: "@ + m@,
            StoreError::Adapter(m) => m@,
        }
    }

    pub open spec fn code_text(self) -> Seq<char> {
        match self {
            StoreError::NotRegistered(_) => "NOT_REGISTERED"@,
            StoreError::InvalidId(_) => "INVALID_ID"@,
            StoreError::SchemaInvalid(_) => "SCHEMA_INVALID"@,
            StoreError::Adapter(_) => "ADAPTER_ERROR"@,
        }
    }

    /// The error's message.
    pub fn message(&self) -> (r: String)
        ensures
            r@ == self.text(),
    {
        match self {
            StoreError::NotRegistered(id) => {
                let a = join2("configuration '", id.as_str());
                a.concat("' is not registered; call configuration::register first")
            },
            StoreError::InvalidId(id) => {
                let a = join2("invalid configuration id '", id.as_str());
                a.concat("': must match [a-z0-9_-]{1,64}")
            },
            StoreError::SchemaInvalid(m) => join2("schema validation failed: ", m.as_str()),
            StoreError::Adapter(m) => m.clone(),
        }
    }

    /// The code the error is reported under.
    pub fn code(&self) -> (r: &'static str)
        ensures
            r@ == self.code_text(),
    {
        match self {
            StoreError::NotRegistered(_) => "NOT_REGISTERED",
            StoreError::InvalidId(_) => "INVALID_ID",
            StoreError::SchemaInvalid(_) => "SCHEMA_INVALID",
            StoreError::Adapter(_) => "ADAPTER_ERROR",
        }
    }
}

/// The failure a store error is reported as.
pub fn store_error_to_failure(err: StoreError) -> (r: ErrorBody)
    ensures
        r.message@ == err.text(),
        r.code@ == err.code_text(),
        r.stacktrace is None,
{
    ErrorBody {
        message: err.message(),
        code: String::from_str(err.code()),
        stacktrace: None,
    }
}

/// A character an id may hold: `a`-`z`, `0`-`9`, `-`, `_`.
pub open spec fn id_char(c: char) -> bool {
    ('a' <= c <= 'z') || ('0' <= c <= '9') || c == '-' || c == '_'
}

/// Whether `id` matches `[a-z0-9_-]{1,64}`.
pub open spec fn valid_id(id: Seq<char>) -> bool {
    1 <= id.len() <= 64 && forall|i: int| 0 <= i < id.len() ==> id_char(#[trigger] id[i])
}

/// Configuration ids are 1 to 64 characters of lower-case ASCII letters,
/// digits, `-` and `_`: any such text is an id; an empty or longer text, or
/// one holding an upper-case letter, a `/`, a `.` or a space anywhere, is
/// not (so an id never escapes its directory as a file name).
pub proof fn configuration_ids(id: Seq<char>, i: int)
    ensures
        (1 <= id.len() <= 64 && forall|j: int| 0 <= j < id.len() ==> (('a' <= #[trigger] id[j] <= 'z') || ('0'
            <= id[j] <= '9') || id[j] == '-' || id[j] == '_')) ==> valid_id(id),
        id.len() == 0 || id.len() > 64 ==> !valid_id(id),
        0 <= i < id.len() && ('A' <= id[i] <= 'Z' || id[i] == '/' || id[i] == '.' || id[i] == ' ') ==> !valid_id(
            id,
        ),
{
    if 0 <= i < id.len() && valid_id(id) {
        assert(id_char(id[i]));
    }
}

/// Check a configuration id.
pub fn validate_id(id: &str) -> (r: Result<(), StoreError>)
    ensures
        r is Ok <==> valid_id(id@),
        r matches Err(e) ==> (e matches StoreError::InvalidId(s) && s@ == id@),
{
    let cs = chars_of(id);
    let ok = if cs.len() == 0 || cs.len() > 64 {
        false
    } else {
        let mut i: usize = 0;
        let mut all = true;
        while i < cs.len()
            invariant
                i <= cs.len(),
                cs@ == id@,
                all == forall|j: int| 0 <= j < i ==> id_char(#[trigger] cs@[j]),
            decreases cs.len() - i,
        {
            let c = cs[i];
            let good = ('a' <= c && c <= 'z') || ('0' <= c && c <= '9') || c == '-' || c == '_';
            all = all && good;
            i += 1;
        }
        all
    };
    if ok {
        Ok(())
    } else {
        Err(StoreError::InvalidId(String::from_str(id)))
    }
}

/// Every string in `j` has only resolvable placeholders.
pub open spec fn strings_resolvable(j: Json, env: EnvVars) -> bool
    decreases j,
{
    match j {
        Json::Str(s) => resolvable_from(s, 0, env),
        Json::Array(items) => forall|i: int|
            0 <= i < items.len() ==> strings_resolvable(#[trigger] items[i], env),
        Json::Object(members) => forall|i: int|
            0 <= i < members.len() ==> strings_resolvable(#[trigger] members[i].1, env),
        _ => true,
    }
}

/// The model of a value with every string's placeholders expanded;
/// arrays and objects are walked, other scalars stay as they are.
pub open spec fn expanded(j: Json, env: EnvVars, version: Seq<char>) -> Json
    decreases j,
{
    match j {
        Json::Str(s) => Json::Str(expansion(s, env, version)),
        Json::Array(items) => Json::Array(
            Seq::new(
                items.len(),
                |i: int|
                    if 0 <= i < items.len() {
                        expanded(items[i], env, version)
                    } else {
                        Json::Null
                    },
            ),
        ),
        Json::Object(members) => Json::Object(
            Seq::new(
                members.len(),
                |i: int|
                    if 0 <= i < members.len() {
                        (members[i].0, expanded(members[i].1, env, version))
                    } else {
                        (Seq::empty(), Json::Null)
                    },
            ),
        ),
        _ => j,
    }
}

#[verifier::spinoff_prover]
/// Expand the placeholders of every string in `v` against `env`
/// (`version` stands for the engine version placeholder).
pub fn expand_value(v: &JsonValue, env: &EnvVars, version: &str) -> (r: JsonValue)
    requires
        strings_resolvable(v.model(), *env),
    ensures
        r.model() == expanded(v.model(), *env, version@),
    decreases v,
{
    match v {
        JsonValue::Null => JsonValue::Null,
        JsonValue::Bool(b) => JsonValue::Bool(*b),
        JsonValue::Number(n) => JsonValue::Number(n.clone()),
        JsonValue::Str(t) => JsonValue::Str(expand_with(t.as_str(), env, version)),
        JsonValue::Array(items) => {
            let mut out: Vec<JsonValue> = Vec::new();
            let mut i: usize = 0;
            while i < items.len()
                invariant
                    i <= items.len(),
                    out.len() == i,
                    *v == JsonValue::Array(*items),
                    strings_resolvable(v.model(), *env),
                    forall|k: int|
                        0 <= k < i ==> #[trigger] out@[k].model() == expanded(
                            items@[k].model(),
                            *env,
                            version@,
                        ),
                decreases items.len() - i,
            {
                assert(decreases_to!(v => items@[i as int])) by {
                    assert(decreases_to!(*v => v->Array_0));
                    assert(decreases_to!(*items => items@));
                    assert(decreases_to!(items@ => items@[i as int]));
                }
                assert(v.model()->Array_0[i as int] == items@[i as int].model());
                let e = expand_value(&items[i], env, version);
                out.push(e);
                i += 1;
            }
            let r = JsonValue::Array(out);
            proof {
                let ms = v.model()->Array_0;
                assert forall|k: int| 0 <= k < items@.len() implies #[trigger] r.model()->Array_0[k]
                    == expanded(v.model(), *env, version@)->Array_0[k] by {
                    assert(ms[k] == items@[k].model());
                    assert(out@[k].model() == expanded(items@[k].model(), *env, version@));
                }
                assert(r.model()->Array_0 =~= expanded(v.model(), *env, version@)->Array_0);
            }
            r
        },
        JsonValue::Object(members) => {
            let mut out: Vec<(String, JsonValue)> = Vec::new();
            let mut i: usize = 0;
            while i < members.len()
                invariant
                    i <= members.len(),
                    out.len() == i,
                    *v == JsonValue::Object(*members),
                    strings_resolvable(v.model(), *env),
                    forall|k: int| 0 <= k < i ==> #[trigger] out@[k].0@ == members@[k].0@,
                    forall|k: int|
                        0 <= k < i ==> #[trigger] out@[k].1.model() == expanded(
                            members@[k].1.model(),
                            *env,
                            version@,
                        ),
                decreases members.len() - i,
            {
                assert(decreases_to!(v => members@[i as int].1)) by {
                    assert(decreases_to!(*v => v->Object_0));
                    assert(decreases_to!(*members => members@));
                    assert(decreases_to!(members@ => members@[i as int]));
                    assert(decreases_to!(members@[i as int] => members@[i as int].1));
                }
                assert(v.model()->Object_0[i as int] == (
                    members@[i as int].0@,
                    members@[i as int].1.model(),
                ));
                assert(strings_resolvable(v.model()->Object_0[i as int].1, *env));
                let e = expand_value(&members[i].1, env, version);
                let key = members[i].0.clone();
                let ghost before = out@;
                out.push((key, e));
                assert(out@[i as int].1.model() == expanded(members@[i as int].1.model(), *env, version@));
                assert forall|k: int| 0 <= k < i + 1 implies #[trigger] out@[k].1.model() == expanded(
                    members@[k].1.model(),
                    *env,
                    version@,
                ) by {
                    if k < i {
                        assert(out@[k] == before[k]);
                    }
                }
                i += 1;
            }
            let r = JsonValue::Object(out);
            proof {
                let ms = v.model()->Object_0;
                assert forall|k: int| 0 <= k < members@.len() implies #[trigger] r.model()->Object_0[k]
                    == expanded(v.model(), *env, version@)->Object_0[k] by {
                    assert(ms[k] == (members@[k].0@, members@[k].1.model()));
                    assert(out@[k].0@ == members@[k].0@);
                    assert(out@[k].1.model() == expanded(members@[k].1.model(), *env, version@));
                }
                assert(r.model()->Object_0 =~= expanded(v.model(), *env, version@)->Object_0);
            }
            r
        },
    }
}

/// Whether every string of `v` has only resolvable placeholders (the
/// condition [`expand_value`] needs).
pub fn value_resolvable(v: &JsonValue, env: &EnvVars) -> (r: bool)
    ensures
        r == strings_resolvable(v.model(), *env),
    decreases v,
{
    match v {
        JsonValue::Str(t) => find_unresolved(t.as_str(), env).is_none(),
        JsonValue::Array(items) => {
            let mut i: usize = 0;
            while i < items.len()
                invariant
                    i <= items.len(),
                    *v == JsonValue::Array(*items),
                    forall|k: int| 0 <= k < i ==> strings_resolvable(#[trigger] items@[k].model(), *env),
                decreases items.len() - i,
            {
                assert(decreases_to!(v => items@[i as int])) by {
                    assert(decreases_to!(*v => v->Array_0));
                    assert(decreases_to!(*items => items@));
                    assert(decreases_to!(items@ => items@[i as int]));
                }
                if !value_resolvable(&items[i], env) {
                    assert(v.model()->Array_0[i as int] == items@[i as int].model());
                    return false;
                }
                i += 1;
            }
            proof {
                let ms = v.model()->Array_0;
                assert forall|k: int| 0 <= k < ms.len() implies strings_resolvable(#[trigger] ms[k], *env) by {
                    assert(ms[k] == items@[k].model());
                }
            }
            true
        },
        JsonValue::Object(members) => {
            let mut i: usize = 0;
            while i < members.len()
                invariant
                    i <= members.len(),
                    *v == JsonValue::Object(*members),
                    forall|k: int|
                        0 <= k < i ==> strings_resolvable(#[trigger] members@[k].1.model(), *env),
                decreases members.len() - i,
            {
                assert(decreases_to!(v => members@[i as int].1)) by {
                    assert(decreases_to!(*v => v->Object_0));
                    assert(decreases_to!(*members => members@));
                    assert(decreases_to!(members@ => members@[i as int]));
                    assert(decreases_to!(members@[i as int] => members@[i as int].1));
                }
                if !value_resolvable(&members[i].1, env) {
                    assert(v.model()->Object_0[i as int].1 == members@[i as int].1.model());
                    return false;
                }
                i += 1;
            }
            proof {
                let ms = v.model()->Object_0;
                assert forall|k: int| 0 <= k < ms.len() implies strings_resolvable(#[trigger] ms[k].1, *env) by {
                    assert(ms[k] == (members@[k].0@, members@[k].1.model()));
                }
            }
            true
        },
        _ => true,
    }
}

/// The trigger type name of configuration triggers.
pub const TRIGGER_TYPE: &'static str = "configuration";

/// A trigger as the engine registers it.
#[derive(Debug, Clone)]
pub struct Trigger {
    pub id: String,
    pub trigger_type: String,
    pub function_id: String,
    pub config: JsonValue,
    pub worker_id: Option<String>,
    pub metadata: Option<JsonValue>,
}

/// The filters of a `configuration` trigger.
#[derive(Debug, Clone)]
pub struct ConfigurationTriggerConfig {
    /// Configuration id to watch (exact match); every id when absent.
    pub configuration_id: Option<String>,
    /// Wire names of the event types to deliver; every event when absent.
    pub event_types: Option<Vec<String>>,
    /// Condition function evaluated on the event before the handler runs.
    pub condition_function_id: Option<String>,
}

impl Default for ConfigurationTriggerConfig {
    fn default() -> (r: Self)
        ensures
            r.configuration_id is None,
            r.event_types is None,
            r.condition_function_id is None,
    {
        ConfigurationTriggerConfig {
            configuration_id: None,
            event_types: None,
            condition_function_id: None,
        }
    }
}

/// A registered `configuration` trigger: its parsed filters and the trigger.
#[derive(Debug, Clone)]
pub struct ConfigurationTrigger {
    pub config: ConfigurationTriggerConfig,
    pub trigger: Trigger,
}

/// The triggers bound to one configuration id, and whether a TTL countdown
/// is pending for it.
pub struct TriggerSlot {
    triggers: KeyedList<ConfigurationTrigger>,
    expiry_pending: bool,
}

/// The model of a slot: its triggers by trigger id, and the countdown flag.
pub struct SlotModel {
    pub triggers: Map<Seq<char>, ConfigurationTrigger>,
    pub pending: bool,
}

/// The model of the registry: triggers without an id filter, and the slot
/// of each configuration id that has one.
pub struct TriggersModel {
    pub global: Map<Seq<char>, ConfigurationTrigger>,
    pub slots: Map<Seq<char>, SlotModel>,
}

/// The registry of `configuration` triggers.
pub struct ConfigurationTriggers {
    global: KeyedList<ConfigurationTrigger>,
    per_id: KeyedList<TriggerSlot>,
}

impl TriggerSlot {
    pub closed spec fn model(&self) -> SlotModel {
        SlotModel { triggers: self.triggers.map(), pending: self.expiry_pending }
    }

    pub closed spec fn wf(&self) -> bool {
        self.triggers.wf()
    }
}

/// The triggers registered for `id` in a model (none when it has no slot).
pub open spec fn slot_triggers(m: TriggersModel, id: Seq<char>) -> Map<Seq<char>, ConfigurationTrigger> {
    if m.slots.dom().contains(id) {
        m.slots[id].triggers
    } else {
        Map::empty()
    }
}

/// Whether `t` is one of the global triggers of `m`.
pub open spec fn in_global(m: TriggersModel, t: ConfigurationTrigger) -> bool {
    exists|k: Seq<char>| #[trigger] m.global.dom().contains(k) && m.global[k] == t
}

/// Whether `t` is one of the triggers of `id`'s slot in `m`.
pub open spec fn in_slot(m: TriggersModel, id: Seq<char>, t: ConfigurationTrigger) -> bool {
    exists|k: Seq<char>| #[trigger] slot_triggers(m, id).dom().contains(k) && slot_triggers(m, id)[k] == t
}

/// Whether `t` is evaluated for an event on `id`.
pub open spec fn in_bucket(m: TriggersModel, id: Seq<char>, t: ConfigurationTrigger) -> bool {
    in_global(m, t) || in_slot(m, id, t)
}

/// Whether `t` occurs in `r`.
pub open spec fn listed(r: Seq<&ConfigurationTrigger>, t: ConfigurationTrigger) -> bool {
    exists|i: int| 0 <= i < r.len() && *#[trigger] r[i] == t
}

/// Whether a TTL countdown is pending for `id` in a model.
pub open spec fn pending(m: TriggersModel, id: Seq<char>) -> bool {
    m.slots.dom().contains(id) && m.slots[id].pending
}

/// The model after registering `t`: without an id filter it joins the
/// global triggers; otherwise it joins the slot of its id (made if need
/// be), and any countdown pending there is cancelled.
pub open spec fn after_register(m: TriggersModel, t: ConfigurationTrigger) -> TriggersModel {
    match t.config.configuration_id {
        None => TriggersModel { global: m.global.insert(t.trigger.id@, t), slots: m.slots },
        Some(cid) => TriggersModel {
            global: m.global,
            slots: m.slots.insert(
                cid@,
                SlotModel { triggers: slot_triggers(m, cid@).insert(t.trigger.id@, t), pending: false },
            ),
        },
    }
}

/// The model after unregistering trigger `tid` with id filter `cid`: it
/// leaves the global triggers or its slot; when that empties an existing
/// slot and `ttl_seconds` is not zero, a countdown becomes pending there.
pub open spec fn after_unregister(
    m: TriggersModel,
    tid: Seq<char>,
    cid: Option<Seq<char>>,
    ttl_seconds: u64,
) -> TriggersModel {
    match cid {
        None => TriggersModel { global: m.global.remove(tid), slots: m.slots },
        Some(c) => if m.slots.dom().contains(c) {
            let left = m.slots[c].triggers.remove(tid);
            TriggersModel {
                global: m.global,
                slots: m.slots.insert(
                    c,
                    SlotModel {
                        triggers: left,
                        pending: if left.dom().len() == 0 && ttl_seconds > 0 {
                            true
                        } else {
                            m.slots[c].pending
                        },
                    },
                ),
            }
        } else {
            m
        },
    }
}

/// The model with every pending countdown cancelled.
pub open spec fn all_cancelled(m: TriggersModel) -> TriggersModel {
    TriggersModel {
        global: m.global,
        slots: m.slots.map_values(|s: SlotModel| SlotModel { triggers: s.triggers, pending: false }),
    }
}

/// Whether unregistering trigger `tid` with id filter `cid` starts a
/// countdown.
pub open spec fn starts_countdown(
    m: TriggersModel,
    tid: Seq<char>,
    cid: Option<Seq<char>>,
    ttl_seconds: u64,
) -> bool {
    match cid {
        None => false,
        Some(c) => m.slots.dom().contains(c) && m.slots[c].triggers.remove(tid).dom().len() == 0
            && ttl_seconds > 0,
    }
}

impl ConfigurationTriggers {
    pub closed spec fn wf(&self) -> bool {
        &&& self.global.wf()
        &&& self.per_id.wf()
        &&& forall|k: Seq<char>| #[trigger]
            self.per_id.map().dom().contains(k) ==> self.per_id.map()[k].wf()
        &&& self.global.map().dom().finite()
        &&& forall|k: Seq<char>| #[trigger]
            self.per_id.map().dom().contains(k) ==> self.per_id.map()[k].triggers.map().dom().finite()
    }

    pub closed spec fn model(&self) -> TriggersModel {
        TriggersModel {
            global: self.global.map(),
            slots: self.per_id.map().map_values(|s: TriggerSlot| s.model()),
        }
    }

    pub fn new() -> (r: Self)
        ensures
            r.wf(),
            r.model().global == Map::<Seq<char>, ConfigurationTrigger>::empty(),
            r.model().slots == Map::<Seq<char>, SlotModel>::empty(),
    {
        let r = ConfigurationTriggers { global: KeyedList::new(), per_id: KeyedList::new() };
        assert(r.model().slots =~= Map::<Seq<char>, SlotModel>::empty());
        r
    }

    /// Register a trigger; returns whether a pending countdown for its id
    /// was cancelled (its task is then to be aborted).
    pub fn register(&mut self, t: ConfigurationTrigger) -> (aborted: bool)
        requires
            old(self).wf(),
        ensures
            final(self).wf(),
            final(self).model() == after_register(old(self).model(), t),
            aborted == match t.config.configuration_id {
                None => false,
                Some(c) => pending(old(self).model(), c@),
            },
    {
        let ghost m0 = self.model();
        match &t.config.configuration_id {
            None => {
                let tid = t.trigger.id.clone();
                self.global.insert(tid, t);
                proof {
                    lemma_keyed_finite(&self.global);
                    assert(self.model().slots =~= m0.slots);
                }
                false
            },
            Some(cid) => {
                let cid = cid.clone();
                let tid = t.trigger.id.clone();
                let existing = self.per_id.remove(cid.as_str());
                let mut slot = match existing {
                    Some(s) => s,
                    None => TriggerSlot { triggers: KeyedList::new(), expiry_pending: false },
                };
                let aborted = slot.expiry_pending;
                slot.expiry_pending = false;
                slot.triggers.insert(tid, t);
                proof {
                    lemma_keyed_finite(&slot.triggers);
                }
                let ghost new_slot = slot.model();
                self.per_id.insert(cid, slot);
                proof {
                    assert(new_slot.triggers == slot_triggers(m0, cid@).insert(t.trigger.id@, t));
                    assert(self.model().slots =~= after_register(m0, t).slots);
                }
                aborted
            },
        }
    }

    /// Unregister a trigger; returns whether a TTL countdown must start for
    /// its id (any earlier countdown task there is then to be replaced).
    pub fn unregister(&mut self, trigger_id: &str, configuration_id: Option<&str>, ttl_seconds: u64) -> (schedule: bool)
        requires
            old(self).wf(),
        ensures
            final(self).wf(),
            final(self).model() == after_unregister(
                old(self).model(),
                trigger_id@,
                match configuration_id {
                    Some(c) => Some(c@),
                    None => None,
                },
                ttl_seconds,
            ),
            schedule == starts_countdown(
                old(self).model(),
                trigger_id@,
                match configuration_id {
                    Some(c) => Some(c@),
                    None => None,
                },
                ttl_seconds,
            ),
    {
        let ghost m0 = self.model();
        match configuration_id {
            None => {
                self.global.remove(trigger_id);
                proof {
                    lemma_keyed_finite(&self.global);
                    assert(self.model().slots =~= m0.slots);
                }
                false
            },
            Some(cid) => {
                match self.per_id.remove(cid) {
                    None => {
                        proof {
                            assert(self.per_id.map() =~= old(self).per_id.map());
                            assert(self.model().slots =~= m0.slots);
                        }
                        false
                    },
                    Some(mut slot) => {
                        slot.triggers.remove(trigger_id);
                        proof {
                            lemma_keyed_finite(&slot.triggers);
                        }
                        let now_empty = slot.triggers.len() == 0;
                        let schedule = now_empty && ttl_seconds > 0;
                        if schedule {
                            slot.expiry_pending = true;
                        }
                        let key = String::from_str(cid);
                        self.per_id.insert(key, slot);
                        proof {
                            assert(self.model().slots =~= after_unregister(
                                m0,
                                trigger_id@,
                                Some(cid@),
                                ttl_seconds,
                            ).slots);
                        }
                        schedule
                    },
                }
            },
        }
    }

    /// The triggers to evaluate for an event on `id`: every global trigger
    /// and every trigger of `id`'s slot.
    pub fn matching(&self, id: &str) -> (r: Vec<&ConfigurationTrigger>)
        requires
            self.wf(),
        ensures
            r@.len() == self.model().global.dom().len() + slot_triggers(self.model(), id@).dom().len(),
            forall|i: int| 0 <= i < r@.len() ==> in_bucket(self.model(), id@, *#[trigger] r@[i]),
            forall|k: Seq<char>|
                #[trigger] self.model().global.dom().contains(k) ==> listed(r@, self.model().global[k]),
            forall|k: Seq<char>|
                #[trigger] slot_triggers(self.model(), id@).dom().contains(k) ==> listed(
                    r@,
                    slot_triggers(self.model(), id@)[k],
                ),
    {
        let mut r: Vec<&ConfigurationTrigger> = Vec::new();
        let globals = self.global.values();
        proof {
            self.global.lemma_keys();
        }
        let mut i: usize = 0;
        while i < globals.len()
            invariant
                i <= globals@.len(),
                globals@.len() == self.global.key_seq().len(),
                forall|j: int| 0 <= j < globals@.len() ==> *globals@[j] == self.global.map()[#[trigger] self.global.key_seq()[j]],
                forall|j: int| 0 <= j < self.global.key_seq().len() ==> self.global.map().dom().contains(#[trigger] self.global.key_seq()[j]),
                r@.len() == i,
                forall|j: int| 0 <= j < i ==> #[trigger] r@[j] == globals@[j],
            decreases globals.len() - i,
        {
            r.push(globals[i]);
            i += 1;
        }
        let ghost n = r@.len();
        match self.per_id.get(id) {
            Some(slot) => {
                let locals = slot.triggers.values();
                proof {
                    slot.triggers.lemma_keys();
                }
                let mut k: usize = 0;
                while k < locals.len()
                    invariant
                        k <= locals@.len(),
                        locals@.len() == slot.triggers.key_seq().len(),
                        forall|j: int| 0 <= j < locals@.len() ==> *locals@[j] == slot.triggers.map()[#[trigger] slot.triggers.key_seq()[j]],
                        r@.len() == n + k,
                        forall|j: int| 0 <= j < n ==> #[trigger] r@[j] == globals@[j],
                        forall|j: int| 0 <= j < k ==> #[trigger] r@[n + j] == locals@[j],
                    decreases locals.len() - k,
                {
                    r.push(locals[k]);
                    k += 1;
                }
                proof {
                    assert(slot_triggers(self.model(), id@) == slot.triggers.map());
                    assert forall|j: int| 0 <= j < r@.len() implies in_bucket(self.model(), id@, *#[trigger] r@[j]) by {
                        if j < n {
                            let q = self.global.key_seq()[j];
                            assert(self.model().global.dom().contains(q));
                            assert(in_global(self.model(), *r@[j]));
                        } else {
                            let q = slot.triggers.key_seq()[j - n];
                            let jj = j - n;
                            assert(r@[n + jj] == locals@[jj]);
                            assert(r@[j] == locals@[jj]);
                            assert(slot_triggers(self.model(), id@).dom().contains(q));
                            assert(in_slot(self.model(), id@, *r@[j]));
                        }
                    }
                    assert forall|q: Seq<char>| #[trigger] self.model().global.dom().contains(q) implies listed(r@, self.model().global[q]) by {
                        let j = choose|j: int| 0 <= j < self.global.key_seq().len() && self.global.key_seq()[j] == q;
                        assert(self.global.key_seq().to_set().contains(q));
                        assert(r@[j] == globals@[j]);
                    }
                    assert forall|q: Seq<char>| #[trigger] slot_triggers(self.model(), id@).dom().contains(q) implies listed(r@, slot_triggers(self.model(), id@)[q]) by {
                        assert(slot.triggers.key_seq().to_set().contains(q));
                        let j = choose|j: int| 0 <= j < slot.triggers.key_seq().len() && slot.triggers.key_seq()[j] == q;
                        assert(r@[n + j] == locals@[j]);
                    }
                }
            },
            None => {
                proof {
                    assert(slot_triggers(self.model(), id@) =~= Map::empty());
                    assert forall|j: int| 0 <= j < r@.len() implies in_bucket(self.model(), id@, *#[trigger] r@[j]) by {
                        let q = self.global.key_seq()[j];
                        assert(self.model().global.dom().contains(q));
                        assert(in_global(self.model(), *r@[j]));
                    }
                    assert forall|q: Seq<char>| #[trigger] self.model().global.dom().contains(q) implies listed(r@, self.model().global[q]) by {
                        assert(self.global.key_seq().to_set().contains(q));
                        let j = choose|j: int| 0 <= j < self.global.key_seq().len() && self.global.key_seq()[j] == q;
                        assert(r@[j] == globals@[j]);
                    }
                }
            },
        }
        r
    }

    /// Cancel every pending countdown; returns the ids that had one (their
    /// tasks are then to be aborted).
    pub fn abort_all_expiries(&mut self) -> (r: Vec<String>)
        requires
            old(self).wf(),
        ensures
            final(self).wf(),
            final(self).model() == all_cancelled(old(self).model()),
            forall|i: int| 0 <= i < r@.len() ==> pending(old(self).model(), (#[trigger] r@[i])@),
            forall|k: Seq<char>| #[trigger] pending(old(self).model(), k) ==> exists|i: int|
                0 <= i < r@.len() && r@[i]@ == k,
    {
        let ghost m0 = self.model();
        let keys = self.per_id.keys();
        proof {
            self.per_id.lemma_keys();
        }
        let mut aborted: Vec<String> = Vec::new();
        let mut i: usize = 0;
        while i < keys.len()
            invariant
                self.wf(),
                i <= keys@.len(),
                keys@.len() == old(self).per_id.key_seq().len(),
                forall|j: int| 0 <= j < keys@.len() ==> (#[trigger] keys@[j])@ == old(self).per_id.key_seq()[j],
                old(self).per_id.key_seq().no_duplicates(),
                old(self).per_id.key_seq().to_set() == m0.slots.dom(),
                self.model().global == m0.global,
                self.model().slots.dom() == m0.slots.dom(),
                forall|k: Seq<char>| #[trigger] self.model().slots.dom().contains(k) ==> self.model().slots[k].triggers
                    == m0.slots[k].triggers,
                forall|j: int| 0 <= j < i ==> !(#[trigger] self.model().slots[keys@[j]@]).pending,
                forall|j: int| i <= j < keys@.len() ==> (#[trigger] self.model().slots[keys@[j]@]).pending
                    == m0.slots[keys@[j]@].pending,
                forall|j: int| 0 <= j < aborted@.len() ==> pending(m0, (#[trigger] aborted@[j])@),
                forall|j: int| 0 <= j < i && #[trigger] pending(m0, keys@[j]@) ==> exists|q: int|
                    0 <= q < aborted@.len() && aborted@[q]@ == keys@[j]@,
            decreases keys.len() - i,
        {
            let ghost before = self.model();
            let ghost k = keys@[i as int]@;
            assert(old(self).per_id.key_seq().to_set().contains(keys@[i as int]@));
            assert(before.slots.dom().contains(k));
            let ghost was_pending = before.slots[k].pending;
            let ghost ab0 = aborted@;
            let key = keys[i].clone();
            let slot_opt = self.per_id.remove(key.as_str());
            match slot_opt {
                Some(mut slot) => {
                    if slot.expiry_pending {
                        aborted.push(key.clone());
                    }
                    slot.expiry_pending = false;
                    self.per_id.insert(key, slot);
                },
                None => {},
            }
            proof {
                let after = self.model();
                assert(after.slots.dom() =~= before.slots.dom());
                assert forall|q: Seq<char>| #[trigger] before.slots.dom().contains(q) && q != k implies after.slots[q]
                    == before.slots[q] by {}
                assert(!after.slots[k].pending);
                assert(after.slots[k].triggers == before.slots[k].triggers);
                assert forall|j: int| 0 <= j < keys@.len() && j != i implies keys@[j]@ != k by {
                    assert(old(self).per_id.key_seq()[j] != old(self).per_id.key_seq()[i as int]);
                }
                assert forall|j: int| 0 <= j < i + 1 implies !(#[trigger] after.slots[keys@[j]@]).pending by {
                    if j < i {
                        assert(keys@[j]@ != k);
                        assert(old(self).per_id.key_seq().to_set().contains(keys@[j]@));
                    }
                }
                assert forall|j: int| i + 1 <= j < keys@.len() implies (#[trigger] after.slots[keys@[j]@]).pending
                    == m0.slots[keys@[j]@].pending by {
                    assert(keys@[j]@ != k);
                    assert(old(self).per_id.key_seq().to_set().contains(keys@[j]@));
                }
                assert(was_pending == m0.slots[k].pending);
                assert forall|j: int| 0 <= j < i + 1 && #[trigger] pending(m0, keys@[j]@) implies exists|q: int|
                    0 <= q < aborted@.len() && aborted@[q]@ == keys@[j]@ by {
                    if j == i {
                        assert(aborted@[aborted@.len() - 1]@ == k);
                    } else {
                        assert(pending(m0, keys@[j]@));
                        let q = choose|q: int| 0 <= q < ab0.len() && ab0[q]@ == keys@[j]@;
                        assert(aborted@[q] == ab0[q]);
                        assert(aborted@[q]@ == keys@[j]@);
                    }
                }
            }
            i += 1;
        }
        proof {
            let m1 = self.model();
            assert forall|k: Seq<char>| #[trigger] m1.slots.dom().contains(k) implies m1.slots[k]
                == all_cancelled(m0).slots[k] by {
                assert(old(self).per_id.key_seq().to_set().contains(k));
                let j = choose|j: int| 0 <= j < keys@.len() && old(self).per_id.key_seq()[j] == k;
                assert(keys@[j]@ == k);
            }
            assert(m1.slots =~= all_cancelled(m0).slots);
            assert forall|k: Seq<char>| #[trigger] pending(m0, k) implies exists|q: int|
                0 <= q < aborted@.len() && aborted@[q]@ == k by {
                assert(old(self).per_id.key_seq().to_set().contains(k));
                let j = choose|j: int| 0 <= j < keys@.len() && old(self).per_id.key_seq()[j] == k;
                assert(keys@[j]@ == k);
                assert(pending(m0, keys@[j]@));
            }
        }
        aborted
    }

    /// Whether a TTL countdown is pending for `id`.
    pub fn has_pending_expiry(&self, id: &str) -> (r: bool)
        requires
            self.wf(),
        ensures
            r == pending(self.model(), id@),
    {
        match self.per_id.get(id) {
            Some(slot) => slot.expiry_pending,
            None => false,
        }
    }

    /// How many triggers are bound to `id` (global ones not counted).
    pub fn id_trigger_count(&self, id: &str) -> (r: usize)
        requires
            self.wf(),
        ensures
            r == slot_triggers(self.model(), id@).dom().len(),
    {
        match self.per_id.get(id) {
            Some(slot) => slot.triggers.len(),
            None => 0,
        }
    }
}

proof fn lemma_keyed_finite<V>(l: &KeyedList<V>)
    requires
        l.wf(),
    ensures
        l.map().dom().finite(),
{
    l.lemma_keys();
}

/// The id filter of a configuration trigger, as a model value.
pub open spec fn filter_id(t: ConfigurationTrigger) -> Option<Seq<char>> {
    match t.config.configuration_id {
        Some(c) => Some(c@),
        None => None,
    }
}

/// A new registration for an id cancels the countdown pending for it.
pub proof fn registration_cancels_countdown(m: TriggersModel, t: ConfigurationTrigger)
    requires
        t.config.configuration_id is Some,
    ensures
        !pending(after_register(m, t), filter_id(t)->0),
{
}

/// Registering a trigger that was not registered and unregistering it
/// again leaves every trigger set as it was. For a trigger bound to an id,
/// a countdown is then pending for that id exactly when the id had no
/// other trigger and the TTL is not zero, and the unregistration is what
/// starts it.
pub proof fn register_then_unregister(m: TriggersModel, t: ConfigurationTrigger, ttl_seconds: u64)
    requires
        filter_id(t) is None ==> !m.global.dom().contains(t.trigger.id@),
        filter_id(t) matches Some(c) ==> !slot_triggers(m, c).dom().contains(t.trigger.id@),
    ensures
        ({
            let m1 = after_register(m, t);
            let m2 = after_unregister(m1, t.trigger.id@, filter_id(t), ttl_seconds);
            &&& m2.global == m.global
            &&& forall|c: Seq<char>| #[trigger] slot_triggers(m2, c) == slot_triggers(m, c)
            &&& filter_id(t) matches Some(c) ==> pending(m2, c) == (slot_triggers(m, c).dom().len()
                == 0 && ttl_seconds > 0)
            &&& starts_countdown(m1, t.trigger.id@, filter_id(t), ttl_seconds) == (filter_id(t) is Some
                && slot_triggers(m, filter_id(t)->0).dom().len() == 0 && ttl_seconds > 0)
        }),
{
    let m1 = after_register(m, t);
    let m2 = after_unregister(m1, t.trigger.id@, filter_id(t), ttl_seconds);
    let tid = t.trigger.id@;
    match filter_id(t) {
        None => {
            assert(m2.global =~= m.global);
            assert(m2.slots == m.slots);
        },
        Some(c) => {
            assert(m1.slots.dom().contains(c));
            assert(m1.slots[c].triggers.remove(tid) =~= slot_triggers(m, c));
            assert forall|q: Seq<char>| #[trigger] slot_triggers(m2, q) == slot_triggers(m, q) by {
                if q == c {
                    assert(m2.slots[c].triggers == slot_triggers(m, c));
                } else {
                    assert(m2.slots.dom().contains(q) == m.slots.dom().contains(q));
                }
            }
        },
    }
}

/// What fan-out does with one matching trigger for an event.
#[derive(Debug, Clone)]
pub enum HandlerStep {
    /// The trigger's event filter excludes the event.
    Skip,
    /// Evaluate this condition function first; invoke the handler only if
    /// it answers `true`.
    CheckCondition(String),
    /// Invoke the handler.
    Invoke,
}

/// Whether a trigger's event filter lets an event of wire type `wire`
/// through: no filter, or one naming it.
pub open spec fn filter_admits(t: ConfigurationTrigger, wire: Seq<char>) -> bool {
    match t.config.event_types {
        None => true,
        Some(types) => exists|i: int| 0 <= i < types@.len() && (#[trigger] types@[i])@ == wire,
    }
}

/// The step fan-out takes for trigger `t` and an event of wire type `wire`.
pub fn handler_step(t: &ConfigurationTrigger, wire: &str) -> (r: HandlerStep)
    ensures
        !filter_admits(*t, wire@) ==> r is Skip,
        t.config.event_types is None ==> !(r is Skip),
        t.config.event_types matches Some(types) ==> forall|i: int|
            0 <= i < types@.len() && (#[trigger] types@[i])@ == wire@ ==> !(r is Skip),
        t.config.event_types matches Some(types) ==> ((forall|i: int|
            0 <= i < types@.len() ==> (#[trigger] types@[i])@ != wire@) ==> r is Skip),
        filter_admits(*t, wire@) ==> match t.config.condition_function_id {
            Some(c) => r matches HandlerStep::CheckCondition(x) && x@ == c@,
            None => r is Invoke,
        },
{
    match &t.config.event_types {
        Some(types) => {
            let mut i: usize = 0;
            let mut found = false;
            while i < types.len()
                invariant
                    i <= types@.len(),
                    found == exists|j: int| 0 <= j < i && (#[trigger] types@[j])@ == wire@,
                decreases types.len() - i,
            {
                if crate::text::str_eq(types[i].as_str(), wire) {
                    found = true;
                }
                i += 1;
            }
            if !found {
                return HandlerStep::Skip;
            }
        },
        None => {},
    }
    match &t.config.condition_function_id {
        Some(c) => HandlerStep::CheckCondition(c.clone()),
        None => HandlerStep::Invoke,
    }
}

/// An event filter admits an event exactly when it is absent or lists the
/// event's wire type, at any position.
pub proof fn event_filter_admits_listed_types(t: ConfigurationTrigger, wire: Seq<char>)
    ensures
        t.config.event_types is None ==> filter_admits(t, wire),
        t.config.event_types matches Some(types) ==> forall|i: int|
            0 <= i < types@.len() && (#[trigger] types@[i])@ == wire ==> filter_admits(t, wire),
        t.config.event_types matches Some(types) ==> ((forall|i: int|
            0 <= i < types@.len() ==> (#[trigger] types@[i])@ != wire) ==> !filter_admits(t, wire)),
{
}

/// Whether the handler runs after its condition function answered: only
/// on `true`; `false` and errors skip it.
pub fn condition_allows(outcome: &Result<bool, String>) -> (r: bool)
    ensures
        r == (*outcome == Ok::<bool, String>(true)),
{
    match outcome {
        Ok(b) => *b,
        Err(_) => false,
    }
}

/// The event a registration reports: `registered` for a new entry,
/// `updated` for a replaced one.
pub fn register_event_type(kind: RegisterKind) -> (r: ConfigurationEventType)
    ensures
        kind == RegisterKind::Created ==> r == ConfigurationEventType::Registered,
        kind == RegisterKind::Replaced ==> r == ConfigurationEventType::Updated,
{
    match kind {
        RegisterKind::Created => ConfigurationEventType::Registered,
        RegisterKind::Replaced => ConfigurationEventType::Updated,
    }
}

/// Whether an optional value's strings all resolve.
pub open spec fn opt_resolvable(v: Option<JsonValue>, env: EnvVars) -> bool {
    match v {
        Some(j) => strings_resolvable(j.model(), env),
        None => true,
    }
}

/// The model of an optional value with its placeholders expanded.
pub open spec fn opt_expanded(v: Option<JsonValue>, env: EnvVars, version: Seq<char>) -> Option<Json> {
    match v {
        Some(j) => Some(expanded(j.model(), env, version)),
        None => None,
    }
}

/// The model of an optional value.
pub open spec fn opt_model(v: Option<JsonValue>) -> Option<Json> {
    match v {
        Some(j) => Some(j.model()),
        None => None,
    }
}

fn expand_opt(v: &Option<JsonValue>, env: &EnvVars, version: &str) -> (r: Option<JsonValue>)
    requires
        opt_resolvable(*v, *env),
    ensures
        opt_model(r) == opt_expanded(*v, *env, version@),
{
    match v {
        Some(j) => Some(expand_value(j, env, version)),
        None => None,
    }
}

/// The event delivered for `entry`: its id, name, description, schema and
/// metadata, with the old and new values expanded for the wire.
pub fn entry_to_event(
    entry: &ConfigurationEntry,
    event_type: ConfigurationEventType,
    old_value: &Option<JsonValue>,
    new_value_raw: &Option<JsonValue>,
    env: &EnvVars,
    version: &str,
) -> (r: ConfigurationCallRequest)
    requires
        opt_resolvable(*old_value, *env),
        opt_resolvable(*new_value_raw, *env),
    ensures
        r.message_type@ == "configuration"@,
        r.event_type == event_type,
        r.id@ == entry.id@,
        r.name@ == entry.name@,
        r.description@ == entry.description@,
        r.schema.model() == entry.schema.model(),
        opt_model(r.old_value) == opt_expanded(*old_value, *env, version@),
        opt_model(r.new_value) == opt_expanded(*new_value_raw, *env, version@),
        opt_model(r.metadata) == opt_model(entry.metadata),
{
    let metadata = match &entry.metadata {
        Some(m) => Some(m.duplicate()),
        None => None,
    };
    ConfigurationCallRequest {
        message_type: String::from_str("configuration"),
        event_type,
        id: entry.id.clone(),
        name: entry.name.clone(),
        description: entry.description.clone(),
        schema: entry.schema.duplicate(),
        old_value: expand_opt(old_value, env, version),
        new_value: expand_opt(new_value_raw, env, version),
        metadata,
    }
}

/// A change the adapter observed on its own (a file edit, a remote event).
#[derive(Debug, Clone)]
pub enum ExternalChange {
    Registered(ConfigurationEntry),
    Updated { entry: ConfigurationEntry, old_value: Option<JsonValue> },
    Deleted { entry: ConfigurationEntry },
}

/// The entry an external change is about.
pub open spec fn change_entry(c: ExternalChange) -> ConfigurationEntry {
    match c {
        ExternalChange::Registered(e) => e,
        ExternalChange::Updated { entry, .. } => entry,
        ExternalChange::Deleted { entry } => entry,
    }
}

/// Whether the values an external change reports all resolve.
pub open spec fn change_resolvable(c: ExternalChange, env: EnvVars) -> bool {
    match c {
        ExternalChange::Registered(e) => strings_resolvable(e.value.model(), env),
        ExternalChange::Updated { entry, old_value } => strings_resolvable(entry.value.model(), env)
            && opt_resolvable(old_value, env),
        ExternalChange::Deleted { entry } => strings_resolvable(entry.value.model(), env),
    }
}

/// The event an external change is broadcast as: `registered` with the
/// entry's value as the new value; `updated` with the reported old value
/// and the entry's value; `deleted` with the entry's value as the old value
/// and no new value.
pub fn external_change_event(change: &ExternalChange, env: &EnvVars, version: &str) -> (r: ConfigurationCallRequest)
    requires
        change_resolvable(*change, *env),
    ensures
        r.id@ == change_entry(*change).id@,
        match *change {
            ExternalChange::Registered(e) => r.event_type == ConfigurationEventType::Registered
                && r.old_value is None && opt_model(r.new_value) == Some(
                expanded(e.value.model(), *env, version@),
            ),
            ExternalChange::Updated { entry, old_value } => r.event_type
                == ConfigurationEventType::Updated && opt_model(r.old_value) == opt_expanded(
                old_value,
                *env,
                version@,
            ) && opt_model(r.new_value) == Some(expanded(entry.value.model(), *env, version@)),
            ExternalChange::Deleted { entry } => r.event_type == ConfigurationEventType::Deleted
                && opt_model(r.old_value) == Some(expanded(entry.value.model(), *env, version@))
                && r.new_value is None,
        },
{
    match change {
        ExternalChange::Registered(entry) => {
            let v = Some(entry.value.duplicate());
            entry_to_event(entry, ConfigurationEventType::Registered, &None, &v, env, version)
        },
        ExternalChange::Updated { entry, old_value } => {
            let v = Some(entry.value.duplicate());
            entry_to_event(entry, ConfigurationEventType::Updated, old_value, &v, env, version)
        },
        ExternalChange::Deleted { entry } => {
            let v = Some(entry.value.duplicate());
            entry_to_event(entry, ConfigurationEventType::Deleted, &v, &None, env, version)
        },
    }
}

/// The value a registration installs: the supplied initial value, else the
/// value already stored, else `null`; and whether it is to be checked
/// against the schema (always, except for the `null` placeholder of a new
/// entry).
pub fn register_value(initial_value: Option<JsonValue>, prior: Option<&ConfigurationEntry>) -> (r: (JsonValue, bool))
    ensures
        initial_value matches Some(v) ==> r.0.model() == v.model(),
        initial_value is None ==> (prior matches Some(p) ==> r.0.model() == p.value.model()),
        initial_value is None ==> (prior is None ==> r.0.model() == Json::Null),
        r.1 == !(prior is None && r.0.model() == Json::Null),
{
    let value = match initial_value {
        Some(v) => v,
        None => match prior {
            Some(p) => p.value.duplicate(),
            None => JsonValue::Null,
        },
    };
    let is_null = match &value {
        JsonValue::Null => true,
        _ => false,
    };
    let validate = !(prior.is_none() && is_null);
    (value, validate)
}

/// The error a failed schema check is reported as: the checker's messages
/// joined by `; `.
pub open spec fn joined(errors: Seq<String>) -> Seq<char>
    decreases errors.len(),
{
    if errors.len() == 0 {
        Seq::empty()
    } else if errors.len() == 1 {
        errors[0]@
    } else {
        joined(errors.drop_last()) + "; "@ + errors.last()@
    }
}

/// Whether `m` is what a failed schema check with outcome `validity`
/// reports: when the schema does not compile, the line starting
/// `invalid JSON Schema: `; when the value fails it, the checker's
/// messages (at least one) joined by `; `.
pub open spec fn schema_message(m: Seq<char>, validity: Option<bool>) -> bool {
    match validity {
        None => m.len() >= 21 && m.subrange(0, 21) == "invalid JSON Schema: "@,
        Some(false) => exists|errs: Seq<String>| errs.len() > 0 && #[trigger] joined(errs) == m,
        Some(true) => false,
    }
}

pub fn schema_failure(errors: &Vec<String>) -> (r: StoreError)
    ensures
        r matches StoreError::SchemaInvalid(m) && m@ == joined(errors@),
{
    let mut out = String::new();
    let mut i: usize = 0;
    while i < errors.len()
        invariant
            i <= errors@.len(),
            out@ == joined(errors@.take(i as int)),
        decreases errors.len() - i,
    {
        assert(errors@.take(i as int + 1).drop_last() == errors@.take(i as int));
        if i == 0 {
            out = errors[0].clone();
        } else {
            out = out.concat("; ");
            out = out.concat(errors[i].as_str());
        }
        i += 1;
    }
    assert(errors@.take(errors@.len() as int) == errors@);
    StoreError::SchemaInvalid(out)
}

/// The answer of `configuration::get` for `id`: the entry's value, expanded
/// unless `raw`; `NOT_FOUND` when there is no such entry.
pub fn get_result(entry: Option<&ConfigurationEntry>, id: &str, raw: bool, env: &EnvVars, version: &str) -> (r: Result<(String, JsonValue), ErrorBody>)
    requires
        entry matches Some(e) ==> (!raw ==> strings_resolvable(e.value.model(), *env)),
    ensures
        entry is None ==> (r matches Err(e) && e.code@ == "NOT_FOUND"@ && e.message@
            == "configuration '"@ + id@ + "' not found"@ && e.stacktrace is None),
        entry matches Some(e) ==> (r matches Ok(p) && p.0@ == e.id@ && p.1.model() == (if raw {
            e.value.model()
        } else {
            expanded(e.value.model(), *env, version@)
        })),
{
    match entry {
        Some(e) => {
            let value = if raw {
                e.value.duplicate()
            } else {
                expand_value(&e.value, env, version)
            };
            Ok((e.id.clone(), value))
        },
        None => {
            let m = join2("configuration '", id);
            Err(
                ErrorBody {
                    message: m.concat("' not found"),
                    code: String::from_str("NOT_FOUND"),
                    stacktrace: None,
                },
            )
        },
    }
}

/// What `configuration::list` and `configuration::schema` show of an
/// entry: everything but its value.
#[derive(Debug, Clone)]
pub struct ConfigurationSchemaView {
    pub id: String,
    pub name: String,
    pub description: String,
    pub schema: JsonValue,
}

/// Whether `v` shows entry `e`.
pub open spec fn shows(v: ConfigurationSchemaView, e: ConfigurationEntry) -> bool {
    &&& v.id@ == e.id@
    &&& v.name@ == e.name@
    &&& v.description@ == e.description@
    &&& v.schema.model() == e.schema.model()
}

fn schema_view_of(e: &ConfigurationEntry) -> (r: ConfigurationSchemaView)
    ensures
        shows(r, *e),
{
    ConfigurationSchemaView {
        id: e.id.clone(),
        name: e.name.clone(),
        description: e.description.clone(),
        schema: e.schema.duplicate(),
    }
}

/// The entries after an observed change: a registered or updated entry is
/// filed under its id, a deleted one dropped.
pub open spec fn apply_change(m: Map<Seq<char>, ConfigurationEntry>, c: ExternalChange) -> Map<Seq<char>, ConfigurationEntry> {
    match c {
        ExternalChange::Registered(e) => m.insert(e.id@, e),
        ExternalChange::Updated { entry, .. } => m.insert(entry.id@, entry),
        ExternalChange::Deleted { entry } => m.remove(entry.id@),
    }
}

/// The entries after a sequence of changes, applied in order.
pub open spec fn apply_changes(m: Map<Seq<char>, ConfigurationEntry>, cs: Seq<ExternalChange>) -> Map<Seq<char>, ConfigurationEntry>
    decreases cs.len(),
{
    if cs.len() == 0 {
        m
    } else {
        apply_change(apply_changes(m, cs.drop_last()), cs.last())
    }
}

/// The entry filed under `id`, if any.
pub open spec fn filed(m: Map<Seq<char>, ConfigurationEntry>, id: Seq<char>) -> Option<ConfigurationEntry> {
    if m.dom().contains(id) {
        Some(m[id])
    } else {
        None
    }
}

/// A filed entry reads back: after filing `e`, its id reads `e`; filing
/// under one id or dropping it leaves what every other id reads as it was;
/// after dropping an id, nothing is filed under it.
pub proof fn stored_entry_reads_back(m: Map<Seq<char>, ConfigurationEntry>, e: ConfigurationEntry, other: Seq<char>)
    ensures
        filed(m.insert(e.id@, e), e.id@) == Some(e),
        other != e.id@ ==> filed(m.insert(e.id@, e), other) == filed(m, other),
        other != e.id@ ==> filed(m.remove(e.id@), other) == filed(m, other),
        filed(m.remove(other), other) is None,
{
}

/// The store's cache of registered entries, by id.
pub struct ConfigurationCache {
    entries: KeyedList<ConfigurationEntry>,
}

impl ConfigurationCache {
    /// The entries by id.
    pub closed spec fn model(&self) -> Map<Seq<char>, ConfigurationEntry> {
        self.entries.map()
    }

    /// Each entry is filed under its own id.
    pub closed spec fn wf(&self) -> bool {
        &&& self.entries.wf()
        &&& forall|k: Seq<char>| #[trigger] self.entries.map().dom().contains(k) ==> self.entries.map()[k].id@ == k
    }

    pub fn new() -> (r: Self)
        ensures
            r.wf(),
            r.model() == Map::<Seq<char>, ConfigurationEntry>::empty(),
    {
        ConfigurationCache { entries: KeyedList::new() }
    }

    pub fn get(&self, id: &str) -> (r: Option<&ConfigurationEntry>)
        requires
            self.wf(),
        ensures
            r is None <==> !self.model().dom().contains(id@),
            r matches Some(e) ==> *e == self.model()[id@],
    {
        self.entries.get(id)
    }

    /// Where a read of `id` is answered from: the cache when it holds the
    /// entry, otherwise the adapter.
    pub fn read_source(&self, id: &str) -> (r: ReadSource)
        requires
            self.wf(),
        ensures
            r == ReadSource::Cache <==> self.model().dom().contains(id@),
            r == ReadSource::Adapter <==> !self.model().dom().contains(id@),
    {
        match self.get(id) {
            Some(_) => ReadSource::Cache,
            None => ReadSource::Adapter,
        }
    }

    /// The answer of a read of `id`: the cached entry when there is one;
    /// otherwise what the adapter gave for it (`from_adapter`, asked only
    /// on a miss).
    pub fn read_answer(&self, id: &str, from_adapter: Option<ConfigurationEntry>) -> (r: Option<
        ConfigurationEntry,
    >)
        requires
            self.wf(),
        ensures
            self.model().dom().contains(id@) ==> (r matches Some(e) && same_entry(e, self.model()[id@])),
            !self.model().dom().contains(id@) ==> r == from_adapter,
    {
        match self.get(id) {
            Some(e) => Some(e.duplicate()),
            None => from_adapter,
        }
    }

    /// File `entry` under its id, replacing what was there.
    pub fn record(&mut self, entry: ConfigurationEntry)
        requires
            old(self).wf(),
        ensures
            final(self).wf(),
            final(self).model() == old(self).model().insert(entry.id@, entry),
    {
        let id = entry.id.clone();
        self.entries.insert(id, entry);
    }

    /// Drop the entry of `id`, returning it if there was one.
    pub fn forget(&mut self, id: &str) -> (r: Option<ConfigurationEntry>)
        requires
            old(self).wf(),
        ensures
            final(self).wf(),
            final(self).model() == old(self).model().remove(id@),
            r is None <==> !old(self).model().dom().contains(id@),
            r matches Some(e) ==> e == old(self).model()[id@],
    {
        self.entries.remove(id)
    }

    /// Replace the whole cache by `entries` (a later entry of an id wins).
    pub fn prime(&mut self, entries: Vec<ConfigurationEntry>)
        ensures
            final(self).wf(),
            final(self).model() == primed(Map::empty(), entries@),
    {
        let mut fresh: KeyedList<ConfigurationEntry> = KeyedList::new();
        let mut src = entries;
        let ghost orig = src@;
        let total = src.len();
        assert(orig.len() == total);
        let mut taken: usize = 0;
        assert(orig.skip(0) == orig);
        while src.len() > 0
            invariant
                orig.len() == total,
                taken <= total,
                src@ == orig.skip(taken as int),
                fresh.wf(),
                forall|k: Seq<char>| #[trigger] fresh.map().dom().contains(k) ==> fresh.map()[k].id@ == k,
                fresh.map() == primed(Map::empty(), orig.take(taken as int)),
            decreases src.len(),
        {
            let e = src.remove(0);
            proof {
                assert(orig.take(taken as int + 1) == orig.take(taken as int).push(e));
                assert(orig.take(taken as int + 1).drop_last() == orig.take(taken as int));
                assert(orig.take(taken as int + 1).last() == e);
                assert(src@ == orig.skip(taken as int + 1));
            }
            let id = e.id.clone();
            let ghost pre = fresh.map();
            fresh.insert(id, e);
            assert(fresh.map() == pre.insert(e.id@, e));
            taken += 1;
        }
        assert(orig.take(taken as int) == orig);
        self.entries = fresh;
    }

    /// Apply a change the adapter observed: a registered or updated entry
    /// is filed, a deleted one dropped.
    pub fn apply_external(&mut self, change: ExternalChange)
        requires
            old(self).wf(),
        ensures
            final(self).wf(),
            final(self).model() == apply_change(old(self).model(), change),
    {
        match change {
            ExternalChange::Registered(e) => {
                self.record(e);
            },
            ExternalChange::Updated { entry, .. } => {
                self.record(entry);
            },
            ExternalChange::Deleted { entry } => {
                self.forget(entry.id.as_str());
            },
        }
    }
}

impl ConfigurationCache {
    /// Every entry's schema view, sorted by id.
    pub fn list(&self) -> (r: Vec<ConfigurationSchemaView>)
        requires
            self.wf(),
        ensures
            r@.len() == self.model().dom().len(),
            forall|i: int, j: int| 0 <= i < j < r@.len() ==> text_le(#[trigger] r@[i].id@, #[trigger] r@[j].id@),
            forall|i: int| 0 <= i < r@.len() ==> self.model().dom().contains((#[trigger] r@[i]).id@) && shows(
                r@[i],
                self.model()[r@[i].id@],
            ),
            forall|k: Seq<char>| #[trigger] self.model().dom().contains(k) ==> exists|i: int|
                0 <= i < r@.len() && r@[i].id@ == k,
    {
        broadcast use vstd::seq_lib::group_to_multiset_ensures;

        let values = self.entries.values();
        proof {
            self.entries.lemma_keys();
        }
        let mut keyed: Vec<(String, ConfigurationSchemaView)> = Vec::new();
        let mut i: usize = 0;
        while i < values.len()
            invariant
                self.wf(),
                i <= values@.len(),
                values@.len() == self.entries.key_seq().len(),
                forall|j: int| 0 <= j < values@.len() ==> *values@[j] == self.entries.map()[#[trigger] self.entries.key_seq()[j]],
                forall|j: int| 0 <= j < self.entries.key_seq().len() ==> self.entries.map().dom().contains(#[trigger] self.entries.key_seq()[j]),
                keyed@.len() == i,
                forall|j: int| 0 <= j < i ==> (#[trigger] keyed@[j]).0@ == keyed@[j].1.id@ && shows(
                    keyed@[j].1,
                    self.entries.map()[self.entries.key_seq()[j]],
                ),
            decreases values.len() - i,
        {
            let e = values[i];
            let v = schema_view_of(e);
            keyed.push((e.id.clone(), v));
            i += 1;
        }
        let ghost input = keyed@;
        let sorted = sort_by_key(keyed);
        let mut r: Vec<ConfigurationSchemaView> = Vec::new();
        let mut sorted = sorted;
        let ghost sorted_seq = sorted@;
        let total = sorted.len();
        let mut k: usize = 0;
        assert(sorted_seq.skip(0) == sorted_seq);
        while sorted.len() > 0
            invariant
                sorted_seq.len() == total,
                sorted@ == sorted_seq.skip(k as int),
                k <= sorted_seq.len(),
                r@.len() == k,
                forall|j: int| 0 <= j < k ==> #[trigger] r@[j] == sorted_seq[j].1,
            decreases sorted.len(),
        {
            let (_, v) = sorted.remove(0);
            assert(sorted_seq.skip(k as int)[0] == sorted_seq[k as int]);
            assert(sorted@ == sorted_seq.skip(k as int + 1));
            r.push(v);
            k += 1;
        }
        proof {
            assert(sorted_seq.skip(k as int).len() == 0);
            let ks = self.entries.key_seq();
            assert forall|j: int| 0 <= j < sorted_seq.len() implies #[trigger] sorted_seq[j].0@ == sorted_seq[j].1.id@
                && self.model().dom().contains(sorted_seq[j].1.id@) && shows(sorted_seq[j].1, self.model()[sorted_seq[j].1.id@]) by {
                assert(sorted_seq.to_multiset().contains(sorted_seq[j]));
                assert(input.contains(sorted_seq[j]));
                let q = choose|q: int| 0 <= q < input.len() && input[q] == sorted_seq[j];
                assert(input[q].0@ == input[q].1.id@);
                assert(self.entries.map().dom().contains(ks[q]));
                assert(self.entries.map()[ks[q]].id@ == ks[q]);
            }
            assert forall|i: int| 0 <= i < r@.len() implies self.model().dom().contains((#[trigger] r@[i]).id@) && shows(
                r@[i],
                self.model()[r@[i].id@],
            ) by {
                assert(r@[i] == sorted_seq[i].1);
                assert(sorted_seq[i].0@ == sorted_seq[i].1.id@);
            }
            assert forall|a: int, b: int| 0 <= a < b < r@.len() implies text_le(#[trigger] r@[a].id@, #[trigger] r@[b].id@) by {
                assert(text_le(sorted_seq[a].0@, sorted_seq[b].0@));
            }
            assert forall|key: Seq<char>| #[trigger] self.model().dom().contains(key) implies exists|j: int|
                0 <= j < r@.len() && r@[j].id@ == key by {
                assert(ks.to_set().contains(key));
                let q = choose|q: int| 0 <= q < ks.len() && ks[q] == key;
                assert(input.contains(input[q]));
                assert(sorted_seq.to_multiset().contains(input[q]));
                assert(sorted_seq.contains(input[q]));
                let j = choose|j: int| 0 <= j < sorted_seq.len() && sorted_seq[j] == input[q];
                assert(self.entries.map()[ks[q]].id@ == ks[q]);
                assert(r@[j] == sorted_seq[j].1);
            }
        }
        r
    }

    /// The schema view of `id`'s entry, if registered.
    pub fn schema_view(&self, id: &str) -> (r: Option<ConfigurationSchemaView>)
        requires
            self.wf(),
        ensures
            r is None <==> !self.model().dom().contains(id@),
            r matches Some(v) ==> shows(v, self.model()[id@]),
    {
        match self.entries.get(id) {
            Some(e) => Some(schema_view_of(e)),
            None => None,
        }
    }

    /// The entry a registration installs, before the schema check and the
    /// adapter: the id must be valid; the value is chosen by
    /// [`register_value`] from `initial_value` and the entry already cached;
    /// the flag says whether the value is to be checked against `schema`.
    pub fn prepare_register(
        &self,
        id: String,
        name: String,
        description: String,
        schema: JsonValue,
        initial_value: Option<JsonValue>,
        metadata: Option<JsonValue>,
    ) -> (r: Result<(ConfigurationEntry, bool), StoreError>)
        requires
            self.wf(),
        ensures
            !valid_id(id@) ==> (r matches Err(StoreError::InvalidId(s)) && s@ == id@),
            valid_id(id@) ==> (r matches Ok(p) && {
                let prior = if self.model().dom().contains(id@) {
                    Some(self.model()[id@].value.model())
                } else {
                    None::<Json>
                };
                let value = match initial_value {
                    Some(v) => v.model(),
                    None => match prior {
                        Some(pv) => pv,
                        None => Json::Null,
                    },
                };
                &&& p.0.id@ == id@
                &&& p.0.name@ == name@
                &&& p.0.description@ == description@
                &&& p.0.schema.model() == schema.model()
                &&& p.0.value.model() == value
                &&& opt_model(p.0.metadata) == opt_model(metadata)
                &&& p.1 == !(prior is None && value == Json::Null)
            }),
    {
        match validate_id(id.as_str()) {
            Err(e) => {
                return Err(e);
            },
            Ok(()) => {},
        }
        let prior = self.entries.get(id.as_str());
        let (value, validate) = register_value(initial_value, prior);
        Ok((ConfigurationEntry { id, name, description, schema, value, metadata }, validate))
    }

    /// The entry whose value `configuration::set` replaces (its schema is
    /// what the new value is checked against): the id must be valid and
    /// registered.
    pub fn prepare_set(&self, id: &str) -> (r: Result<&ConfigurationEntry, StoreError>)
        requires
            self.wf(),
        ensures
            !valid_id(id@) ==> (r matches Err(StoreError::InvalidId(s)) && s@ == id@),
            valid_id(id@) && !self.model().dom().contains(id@) ==> (r matches Err(
                StoreError::NotRegistered(s),
            ) && s@ == id@),
            valid_id(id@) && self.model().dom().contains(id@) ==> (r matches Ok(e) && *e
                == self.model()[id@]),
    {
        match validate_id(id) {
            Err(e) => {
                return Err(e);
            },
            Ok(()) => {},
        }
        match self.entries.get(id) {
            Some(e) => Ok(e),
            None => Err(StoreError::NotRegistered(String::from_str(id))),
        }
    }
}

/// The joined messages of a failed check are what `schema_message` asks.
proof fn lemma_failure_message(errors: Seq<String>, validity: Option<bool>)
    requires
        validity != Some(true),
        validity is None ==> errors.len() == 1 && errors[0]@.len() >= 21 && errors[0]@.subrange(0, 21)
            == "invalid JSON Schema: "@,
        validity == Some(false) ==> errors.len() > 0,
    ensures
        schema_message(joined(errors), validity),
{
    match validity {
        None => {
            assert(joined(errors) == errors[0]@);
        },
        Some(b) => {
            assert(!b);
            assert(errors.len() > 0 && joined(errors) == joined(errors));
        },
    }
}

proof fn lemma_validity_cases(value: Json, schema: Json)
    ensures
        schema_validity(value, schema) != Some(true) ==> (schema_validity(value, schema) is None || schema_validity(
            value,
            schema,
        ) == Some(false)),
{
    match schema_validity(value, schema) {
        Some(b) => {
            if !b {
                assert(schema_validity(value, schema) == Some(false));
            }
        },
        None => {},
    }
}

impl ConfigurationCache {
    /// The value a registration of `id` installs: `initial_value` when
    /// given, else the value already filed, else `null`.
    pub open spec fn installed_value(self, id: Seq<char>, initial_value: Option<Json>) -> Json {
        match initial_value {
            Some(v) => v,
            None => if self.model().dom().contains(id) {
                self.model()[id].value.model()
            } else {
                Json::Null
            },
        }
    }

    /// Whether a registration's value is checked against its schema: all
    /// but the `null` placeholder of a new entry are.
    pub open spec fn value_checked(self, id: Seq<char>, initial_value: Option<Json>) -> bool {
        !(!self.model().dom().contains(id) && self.installed_value(id, initial_value) == Json::Null)
    }

    /// The entry `configuration::register` hands to the adapter: the id must
    /// be valid; the installed value must satisfy the schema unless it is
    /// the placeholder of a new entry (`SchemaInvalid` with the validation
    /// errors joined by `; ` otherwise).
    pub fn checked_register(
        &self,
        id: String,
        name: String,
        description: String,
        schema: JsonValue,
        initial_value: Option<JsonValue>,
        metadata: Option<JsonValue>,
    ) -> (r: Result<ConfigurationEntry, StoreError>)
        requires
            self.wf(),
        ensures
            !valid_id(id@) ==> (r matches Err(StoreError::InvalidId(s)) && s@ == id@),
            valid_id(id@) ==> ({
                let value = self.installed_value(id@, opt_model(initial_value));
                let refused = self.value_checked(id@, opt_model(initial_value)) && schema_validity(
                    value,
                    schema.model(),
                ) != Some(true);
                &&& refused ==> (r matches Err(StoreError::SchemaInvalid(m)) && schema_message(
                    m@,
                    schema_validity(value, schema.model()),
                ))
                &&& !refused ==> (r matches Ok(e) && {
                    &&& e.id@ == id@
                    &&& e.name@ == name@
                    &&& e.description@ == description@
                    &&& e.schema.model() == schema.model()
                    &&& e.value.model() == value
                    &&& opt_model(e.metadata) == opt_model(metadata)
                })
            }),
    {
        let ghost value = self.installed_value(id@, opt_model(initial_value));
        let ghost checked = self.value_checked(id@, opt_model(initial_value));
        let ghost sm = schema.model();
        let (entry, check) = match self.prepare_register(id, name, description, schema, initial_value, metadata) {
            Ok(p) => p,
            Err(e) => {
                return Err(e);
            },
        };
        assert(entry.value.model() == value);
        assert(entry.schema.model() == sm);
        assert(check == checked);
        if check {
            proof {
                lemma_validity_cases(value, sm);
            }
            match validate_against_schema(&entry.value, &entry.schema) {
                Ok(()) => {},
                Err(errors) => {
                    let failure = schema_failure(&errors);
                    proof {
                        lemma_failure_message(errors@, schema_validity(value, sm));
                    }
                    return Err(failure);
                },
            }
        }
        Ok(entry)
    }

    /// The entry `configuration::set` hands to the adapter: the id must be
    /// valid and registered, and `value` must satisfy the entry's schema
    /// (`SchemaInvalid` with the validation errors joined by `; `
    /// otherwise). The entry keeps everything but its value.
    pub fn checked_set(&self, id: &str, value: JsonValue) -> (r: Result<ConfigurationEntry, StoreError>)
        requires
            self.wf(),
        ensures
            !valid_id(id@) ==> (r matches Err(StoreError::InvalidId(s)) && s@ == id@),
            valid_id(id@) && !self.model().dom().contains(id@) ==> (r matches Err(StoreError::NotRegistered(s))
                && s@ == id@),
            valid_id(id@) && self.model().dom().contains(id@) ==> ({
                let e = self.model()[id@];
                &&& schema_validity(value.model(), e.schema.model()) != Some(true) ==> (r matches Err(
                    StoreError::SchemaInvalid(m),
                ) && schema_message(m@, schema_validity(value.model(), e.schema.model())))
                &&& schema_validity(value.model(), e.schema.model()) == Some(true) ==> (r matches Ok(n) && {
                    &&& n.id@ == e.id@
                    &&& n.name@ == e.name@
                    &&& n.description@ == e.description@
                    &&& n.schema.model() == e.schema.model()
                    &&& opt_model(n.metadata) == opt_model(e.metadata)
                    &&& n.value.model() == value.model()
                })
            }),
    {
        let current = match self.prepare_set(id) {
            Ok(e) => e,
            Err(e) => {
                return Err(e);
            },
        };
        proof {
            lemma_validity_cases(value.model(), current.schema.model());
        }
        match validate_against_schema(&value, &current.schema) {
            Ok(()) => {},
            Err(errors) => {
                let failure = schema_failure(&errors);
                proof {
                    lemma_failure_message(errors@, schema_validity(value.model(), current.schema.model()));
                }
                return Err(failure);
            },
        }
        let mut entry = current.duplicate();
        entry.value = value;
        Ok(entry)
    }
}

/// Where a configuration read is answered from.
#[derive(Debug, Clone, Copy, PartialEq, Eq, Structural)]
pub enum ReadSource {
    /// The in-memory cache holds the entry.
    Cache,
    /// The cache misses: the adapter is asked.
    Adapter,
}

/// The cache after filing `entries` one by one into `m`.
pub open spec fn primed(m: Map<Seq<char>, ConfigurationEntry>, entries: Seq<ConfigurationEntry>) -> Map<Seq<char>, ConfigurationEntry>
    decreases entries.len(),
{
    if entries.len() == 0 {
        m
    } else {
        primed(m, entries.drop_last()).insert(entries.last().id@, entries.last())
    }
}

/// Whether `a` carries the same fields as `b`.
pub open spec fn same_entry(a: ConfigurationEntry, b: ConfigurationEntry) -> bool {
    &&& a.id@ == b.id@
    &&& a.name@ == b.name@
    &&& a.description@ == b.description@
    &&& a.schema.model() == b.schema.model()
    &&& a.value.model() == b.value.model()
    &&& opt_model(a.metadata) == opt_model(b.metadata)
}

impl ConfigurationEntry {
    /// A copy of the entry, field for field.
    pub fn duplicate(&self) -> (r: ConfigurationEntry)
        ensures
            same_entry(r, *self),
    {
        ConfigurationEntry {
            id: self.id.clone(),
            name: self.name.clone(),
            description: self.description.clone(),
            schema: self.schema.duplicate(),
            value: self.value.duplicate(),
            metadata: match &self.metadata {
                Some(m) => Some(m.duplicate()),
                None => None,
            },
        }
    }
}

/// Whether an edit on disk changed an entry: its value, schema, name or
/// description differ (metadata alone does not count).
pub open spec fn entry_changed(existing: ConfigurationEntry, fresh: ConfigurationEntry) -> bool {
    ||| existing.value.model() != fresh.value.model()
    ||| existing.schema.model() != fresh.schema.model()
    ||| existing.name@ != fresh.name@
    ||| existing.description@ != fresh.description@
}

fn entry_changed_exec(existing: &ConfigurationEntry, fresh: &ConfigurationEntry) -> (r: bool)
    ensures
        r == entry_changed(*existing, *fresh),
{
    !crate::json::json_eq(&existing.value, &fresh.value) || !crate::json::json_eq(
        &existing.schema,
        &fresh.schema,
    ) || existing.name != fresh.name || existing.description != fresh.description
}

/// Whether `c` is a correct report of the difference between `cache` and
/// `snapshot` for its id.
pub open spec fn change_fits(
    c: ExternalChange,
    cache: Map<Seq<char>, ConfigurationEntry>,
    snapshot: Map<Seq<char>, ConfigurationEntry>,
) -> bool {
    match c {
        ExternalChange::Registered(e) => snapshot.dom().contains(e.id@) && !cache.dom().contains(e.id@)
            && same_entry(e, snapshot[e.id@]),
        ExternalChange::Updated { entry, old_value } => snapshot.dom().contains(entry.id@)
            && cache.dom().contains(entry.id@) && entry_changed(cache[entry.id@], snapshot[entry.id@])
            && same_entry(entry, snapshot[entry.id@]) && opt_model(old_value) == Some(
            cache[entry.id@].value.model(),
        ),
        ExternalChange::Deleted { entry } => cache.dom().contains(entry.id@) && !snapshot.dom().contains(
            entry.id@,
        ) && same_entry(entry, cache[entry.id@]),
    }
}

/// Whether an id's difference between `cache` and `snapshot` must be
/// reported: it appeared, it changed, or it disappeared.
pub open spec fn must_report(
    id: Seq<char>,
    cache: Map<Seq<char>, ConfigurationEntry>,
    snapshot: Map<Seq<char>, ConfigurationEntry>,
) -> bool {
    ||| (snapshot.dom().contains(id) && !cache.dom().contains(id))
    ||| (snapshot.dom().contains(id) && cache.dom().contains(id) && entry_changed(cache[id], snapshot[id]))
    ||| (cache.dom().contains(id) && !snapshot.dom().contains(id))
}

/// The changes between the adapter's cache and a fresh read of the
/// directory: one per id that appeared, changed or disappeared, and none
/// for any other id.
pub fn watch_diff(cache: &ConfigurationCache, snapshot: &ConfigurationCache) -> (r: Vec<ExternalChange>)
    requires
        cache.wf(),
        snapshot.wf(),
    ensures
        forall|i: int| 0 <= i < r@.len() ==> change_fits(#[trigger] r@[i], cache.model(), snapshot.model()),
        forall|i: int, j: int| 0 <= i < j < r@.len() ==> change_entry(#[trigger] r@[i]).id@ != change_entry(#[trigger] r@[j]).id@,
        forall|id: Seq<char>| #[trigger] must_report(id, cache.model(), snapshot.model()) ==> exists|i: int|
            0 <= i < r@.len() && change_entry(r@[i]).id@ == id,
{
    let ghost cm = cache.model();
    let ghost sm = snapshot.model();
    let fresh_all = snapshot.entries.values();
    let old_all = cache.entries.values();
    proof {
        snapshot.entries.lemma_keys();
        cache.entries.lemma_keys();
    }
    let ghost sks = snapshot.entries.key_seq();
    let ghost cks = cache.entries.key_seq();
    let mut r: Vec<ExternalChange> = Vec::new();
    let mut i: usize = 0;
    while i < fresh_all.len()
        invariant
            cache.wf(),
            snapshot.wf(),
            cm == cache.model(),
            sm == snapshot.model(),
            sks == snapshot.entries.key_seq(),
            sks.no_duplicates(),
            sks.to_set() == sm.dom(),
            i <= fresh_all@.len() == sks.len(),
            forall|j: int| 0 <= j < fresh_all@.len() ==> *fresh_all@[j] == sm[#[trigger] sks[j]],
            forall|j: int| 0 <= j < sks.len() ==> sm.dom().contains(#[trigger] sks[j]),
            forall|q: int| 0 <= q < r@.len() ==> change_fits(#[trigger] r@[q], cm, sm),
            forall|q: int| #![trigger r@[q]] 0 <= q < r@.len() ==> exists|j: int| 0 <= j < i && #[trigger] sks[j] == change_entry(r@[q]).id@,
            forall|q: int, w: int| 0 <= q < w < r@.len() ==> change_entry(#[trigger] r@[q]).id@ != change_entry(#[trigger] r@[w]).id@,
            forall|j: int| 0 <= j < i && #[trigger] must_report(sks[j], cm, sm) ==> exists|q: int|
                0 <= q < r@.len() && change_entry(r@[q]).id@ == sks[j],
        decreases fresh_all.len() - i,
    {
        let fresh = fresh_all[i];
        let ghost k = sks[i as int];
        proof {
            assert(sm[k].id@ == k);
        }
        let ghost before = r@;
        match cache.get(fresh.id.as_str()) {
            None => {
                r.push(ExternalChange::Registered(fresh.duplicate()));
            },
            Some(existing) => {
                if entry_changed_exec(existing, fresh) {
                    let old_value = Some(existing.value.duplicate());
                    r.push(ExternalChange::Updated { entry: fresh.duplicate(), old_value });
                }
            },
        }
        proof {
            assert forall|q: int| 0 <= q < before.len() implies r@[q] == before[q] by {}
            assert forall|q: int| 0 <= q < before.len() implies change_entry(before[q]).id@ != k by {
                let j = choose|j: int| 0 <= j < i && #[trigger] sks[j] == change_entry(before[q]).id@;
                assert(sks[j] != sks[i as int]);
            }
            assert forall|q: int| #![trigger r@[q]] 0 <= q < r@.len() implies exists|j: int| 0 <= j < i + 1 && #[trigger] sks[j] == change_entry(r@[q]).id@ by {
                if q < before.len() {
                    let j = choose|j: int| 0 <= j < i && #[trigger] sks[j] == change_entry(before[q]).id@;
                    assert(sks[j] == change_entry(r@[q]).id@);
                } else {
                    assert(sks[i as int] == change_entry(r@[q]).id@);
                }
            }
            assert forall|j: int| 0 <= j < i + 1 && #[trigger] must_report(sks[j], cm, sm) implies exists|q: int|
                0 <= q < r@.len() && change_entry(r@[q]).id@ == sks[j] by {
                if j < i {
                    let q = choose|q: int| 0 <= q < before.len() && change_entry(before[q]).id@ == sks[j];
                    assert(r@[q] == before[q]);
                } else {
                    assert(change_entry(r@[r@.len() - 1]).id@ == k);
                }
            }
        }
        i += 1;
    }
    let ghost n = r@.len();
    let mut c: usize = 0;
    while c < old_all.len()
        invariant
            cache.wf(),
            snapshot.wf(),
            cm == cache.model(),
            sm == snapshot.model(),
            cks == cache.entries.key_seq(),
            cks.no_duplicates(),
            cks.to_set() == cm.dom(),
            sks.to_set() == sm.dom(),
            c <= old_all@.len() == cks.len(),
            n <= r@.len(),
            forall|j: int| 0 <= j < old_all@.len() ==> *old_all@[j] == cm[#[trigger] cks[j]],
            forall|j: int| 0 <= j < cks.len() ==> cm.dom().contains(#[trigger] cks[j]),
            forall|q: int| 0 <= q < r@.len() ==> change_fits(#[trigger] r@[q], cm, sm),
            forall|q: int| 0 <= q < n ==> sm.dom().contains(change_entry(#[trigger] r@[q]).id@),
            forall|q: int| n <= q < r@.len() ==> !sm.dom().contains(change_entry(#[trigger] r@[q]).id@),
            forall|q: int| #![trigger r@[q]] n <= q < r@.len() ==> exists|j: int| 0 <= j < c && #[trigger] cks[j] == change_entry(r@[q]).id@,
            forall|q: int, w: int| 0 <= q < w < r@.len() ==> change_entry(#[trigger] r@[q]).id@ != change_entry(#[trigger] r@[w]).id@,
            forall|id: Seq<char>| #[trigger] must_report(id, cm, sm) && sm.dom().contains(id) ==> exists|q: int|
                0 <= q < r@.len() && change_entry(r@[q]).id@ == id,
            forall|j: int| 0 <= j < c && #[trigger] must_report(cks[j], cm, sm) ==> exists|q: int|
                0 <= q < r@.len() && change_entry(r@[q]).id@ == cks[j],
        decreases old_all.len() - c,
    {
        let existing = old_all[c];
        let ghost k = cks[c as int];
        proof {
            assert(cm[k].id@ == k);
        }
        let ghost before = r@;
        if !snapshot.entries.contains_key(existing.id.as_str()) {
            r.push(ExternalChange::Deleted { entry: existing.duplicate() });
        }
        proof {
            assert forall|q: int| 0 <= q < before.len() implies r@[q] == before[q] by {}
            assert forall|q: int| n <= q < before.len() implies change_entry(before[q]).id@ != k by {
                let j = choose|j: int| 0 <= j < c && #[trigger] cks[j] == change_entry(before[q]).id@;
                assert(cks[j] != cks[c as int]);
            }
            assert forall|q: int| #![trigger r@[q]] n <= q < r@.len() implies exists|j: int| 0 <= j < c + 1 && #[trigger] cks[j] == change_entry(r@[q]).id@ by {
                if q < before.len() {
                    let j = choose|j: int| 0 <= j < c && #[trigger] cks[j] == change_entry(before[q]).id@;
                    assert(cks[j] == change_entry(r@[q]).id@);
                } else {
                    assert(cks[c as int] == change_entry(r@[q]).id@);
                }
            }
            assert forall|id: Seq<char>| #[trigger] must_report(id, cm, sm) && sm.dom().contains(id) implies exists|q: int|
                0 <= q < r@.len() && change_entry(r@[q]).id@ == id by {
                let q = choose|q: int| 0 <= q < before.len() && change_entry(before[q]).id@ == id;
                assert(r@[q] == before[q]);
            }
            assert forall|j: int| 0 <= j < c + 1 && #[trigger] must_report(cks[j], cm, sm) implies exists|q: int|
                0 <= q < r@.len() && change_entry(r@[q]).id@ == cks[j] by {
                if j < c {
                    let q = choose|q: int| 0 <= q < before.len() && change_entry(before[q]).id@ == cks[j];
                    assert(r@[q] == before[q]);
                } else if !sm.dom().contains(k) {
                    assert(change_entry(r@[r@.len() - 1]).id@ == k);
                } else {
                    let q = choose|q: int| 0 <= q < before.len() && change_entry(before[q]).id@ == k;
                    assert(r@[q] == before[q]);
                }
            }
        }
        c += 1;
    }
    proof {
        assert forall|id: Seq<char>| #[trigger] must_report(id, cm, sm) implies exists|i: int|
            0 <= i < r@.len() && change_entry(r@[i]).id@ == id by {
            if sm.dom().contains(id) {
            } else {
                assert(cm.dom().contains(id));
                assert(cks.to_set().contains(id));
                let j = choose|j: int| 0 <= j < cks.len() && cks[j] == id;
                assert(must_report(cks[j], cm, sm));
            }
        }
    }
    r
}

/// Directory of the file-system adapter when its configuration names none.
pub const DEFAULT_DIRECTORY: &'static str = "./data/configuration";

/// Extension of the file that holds each entry.
pub const FILE_EXTENSION: &'static str = "yaml";

/// The directory of the file-system adapter: the `directory` string of its
/// configuration, else [`DEFAULT_DIRECTORY`].
pub fn adapter_directory(config: &Option<JsonValue>) -> (r: String)
    ensures
        r@ == match config {
            Some(c) => match text_of(member(c.model(), "directory"@)) {
                Some(d) => d,
                None => DEFAULT_DIRECTORY@,
            },
            None => DEFAULT_DIRECTORY@,
        },
{
    match config {
        Some(c) => match c.get("directory") {
            Some(v) => match v.as_str() {
                Some(d) => String::from_str(d),
                None => String::from_str(DEFAULT_DIRECTORY),
            },
            None => String::from_str(DEFAULT_DIRECTORY),
        },
        None => String::from_str(DEFAULT_DIRECTORY),
    }
}

/// The file name of `id`'s entry: `<id>.yaml`.
pub fn entry_file_name(id: &str) -> (r: String)
    ensures
        r@ == id@ + ".yaml"@,
{
    join2(id, ".yaml")
}

/// The id a file name holds, if it is `<id>.yaml` with a non-empty id.
pub fn id_from_file_name(file: &str) -> (r: Option<String>)
    ensures
        r matches Some(id) ==> id@.len() > 0 && file@ == id@ + ".yaml"@,
        r is None ==> !(file@.len() > 5 && file@.subrange(file@.len() - 5, file@.len() as int)
            == ".yaml"@),
{
    let cs = chars_of(file);
    let suffix = chars_of(".yaml");
    proof {
        reveal_strlit(".yaml");
    }
    if cs.len() <= 5 {
        return None;
    }
    let n = cs.len();
    let start = n - 5;
    let mut k: usize = 0;
    while k < 5
        invariant
            cs@.len() == n,
            k <= 5,
            cs@ == file@,
            suffix@ == ".yaml"@,
            suffix@.len() == 5,
            cs@.len() > 5,
            start == cs@.len() - 5,
            forall|m: int| 0 <= m < k ==> cs@[start + m] == suffix@[m],
        decreases 5 - k,
    {
        if cs[start + k] != suffix[k] {
            assert(file@.subrange(file@.len() - 5, file@.len() as int)[k as int] != ".yaml"@[k as int]);
            return None;
        }
        k += 1;
    }
    let mut id: Vec<char> = Vec::new();
    let mut i: usize = 0;
    while i < start
        invariant
            i <= start,
            start == cs@.len() - 5,
            id@ == cs@.take(i as int),
        decreases start - i,
    {
        id.push(cs[i]);
        assert(cs@.take(i as int + 1) == cs@.take(i as int).push(cs@[i as int]));
        i += 1;
    }
    assert(cs@ == cs@.take(start as int) + cs@.subrange(start as int, cs@.len() as int));
    assert(cs@.subrange(start as int, cs@.len() as int) == suffix@);
    Some(crate::text::string_from_chars(&id))
}

/// How the adapter reports a registration of `entry`: `Replaced` with the
/// old value when its id was filed, else `Created`.
pub fn registration_outcome(cache: &ConfigurationCache, entry: &ConfigurationEntry) -> (r: (RegisterKind, Option<JsonValue>))
    requires
        cache.wf(),
    ensures
        cache.model().dom().contains(entry.id@) ==> r.0 == RegisterKind::Replaced && opt_model(r.1)
            == Some(cache.model()[entry.id@].value.model()),
        !cache.model().dom().contains(entry.id@) ==> r.0 == RegisterKind::Created && r.1 is None,
{
    match cache.get(entry.id.as_str()) {
        Some(prior) => (RegisterKind::Replaced, Some(prior.value.duplicate())),
        None => (RegisterKind::Created, None),
    }
}

/// The entry the adapter files for `configuration::set`: the filed entry
/// with `value`, and the value it had; an error when `id` is not filed.
pub fn set_outcome(cache: &ConfigurationCache, id: &str, value: JsonValue) -> (r: Result<(ConfigurationEntry, Option<JsonValue>), String>)
    requires
        cache.wf(),
    ensures
        !cache.model().dom().contains(id@) ==> (r matches Err(m) && m@ == "configuration '"@ + id@
            + "' not registered"@),
        cache.model().dom().contains(id@) ==> (r matches Ok(p) && {
            let e = cache.model()[id@];
            &&& p.0.id@ == e.id@
            &&& p.0.name@ == e.name@
            &&& p.0.description@ == e.description@
            &&& p.0.schema.model() == e.schema.model()
            &&& opt_model(p.0.metadata) == opt_model(e.metadata)
            &&& p.0.value.model() == value.model()
            &&& opt_model(p.1) == Some(e.value.model())
        }),
{
    match cache.get(id) {
        Some(prior) => {
            let old_value = Some(prior.value.duplicate());
            let mut entry = prior.duplicate();
            entry.value = value;
            Ok((entry, old_value))
        },
        None => {
            let m = join2("configuration '", id);
            Err(m.concat("' not registered"))
        },
    }
}

/// The function the configuration bridge registers to receive the remote
/// engine's configuration events.
pub const RELAY_FUNCTION_ID: &'static str = "configuration::__bridge_relay";

/// Timeout of every call the configuration bridge makes (ms).
pub const BRIDGE_CALL_TIMEOUT_MS: u64 = 30000;

/// The change a relayed remote event stands for: the entry it describes
/// (its value the event's new value, `null` when none) registered,
/// updated (with the event's old value) or deleted.
pub fn relay_change(event: ConfigurationCallRequest) -> (r: ExternalChange)
    ensures
        ({
            let e = change_entry(r);
            &&& e.id@ == event.id@
            &&& e.name@ == event.name@
            &&& e.description@ == event.description@
            &&& e.schema.model() == event.schema.model()
            &&& e.value.model() == match event.new_value {
                Some(v) => v.model(),
                None => Json::Null,
            }
            &&& opt_model(e.metadata) == opt_model(event.metadata)
        }),
        event.event_type == ConfigurationEventType::Registered ==> r is Registered,
        event.event_type == ConfigurationEventType::Updated ==> (r matches ExternalChange::Updated { old_value, .. } && opt_model(old_value) == opt_model(event.old_value)),
        event.event_type == ConfigurationEventType::Deleted ==> r is Deleted,
{
    let entry = ConfigurationEntry {
        id: event.id,
        name: event.name,
        description: event.description,
        schema: event.schema,
        value: match event.new_value {
            Some(v) => v,
            None => JsonValue::Null,
        },
        metadata: event.metadata,
    };
    match event.event_type {
        ConfigurationEventType::Registered => ExternalChange::Registered(entry),
        ConfigurationEventType::Updated => ExternalChange::Updated { entry, old_value: event.old_value },
        ConfigurationEventType::Deleted => ExternalChange::Deleted { entry },
    }
}

/// The entry the configuration bridge reads for `id` from the remote
/// engine's `configuration::get` (raw) and `configuration::schema` answers:
/// missing texts read as empty, a missing schema or value as `null`.
pub fn remote_entry(id: &str, value_resp: &JsonValue, schema_resp: &JsonValue) -> (r: ConfigurationEntry)
    ensures
        r.id@ == id@,
        r.name@ == match text_of(member(schema_resp.model(), "name"@)) {
            Some(t) => t,
            None => Seq::empty(),
        },
        r.description@ == match text_of(member(schema_resp.model(), "description"@)) {
            Some(t) => t,
            None => Seq::empty(),
        },
        r.schema.model() == match member(schema_resp.model(), "schema"@) {
            Some(v) => v,
            None => Json::Null,
        },
        r.value.model() == match member(value_resp.model(), "value"@) {
            Some(v) => v,
            None => Json::Null,
        },
        opt_model(r.metadata) == member(schema_resp.model(), "metadata"@),
{
    let text = |key: &str| -> (t: String)
        ensures
            t@ == match text_of(member(schema_resp.model(), key@)) {
                Some(x) => x,
                None => Seq::empty(),
            },
        {
            match schema_resp.get(key) {
                Some(v) => match v.as_str() {
                    Some(x) => String::from_str(x),
                    None => String::new(),
                },
                None => String::new(),
            }
        };
    let name = text("name");
    let description = text("description");
    let schema = match schema_resp.get("schema") {
        Some(v) => v.duplicate(),
        None => JsonValue::Null,
    };
    let value = match value_resp.get("value") {
        Some(v) => v.duplicate(),
        None => JsonValue::Null,
    };
    let metadata = match schema_resp.get("metadata") {
        Some(v) => Some(v.duplicate()),
        None => None,
    };
    ConfigurationEntry { id: String::from_str(id), name, description, schema, value, metadata }
}

/// The old and new values a remote `configuration::set` answered; an error
/// when the answer has no `new_value`.
pub fn remote_set_values(raw: &JsonValue) -> (r: Result<(Option<JsonValue>, JsonValue), String>)
    ensures
        member(raw.model(), "new_value"@) is None ==> (r matches Err(m) && m@
            == "remote set response missing 'new_value'"@),
        member(raw.model(), "new_value"@) matches Some(nv) ==> (r matches Ok(p) && p.1.model() == nv
            && opt_model(p.0) == member(raw.model(), "old_value"@)),
{
    let old_value = match raw.get("old_value") {
        Some(v) => Some(v.duplicate()),
        None => None,
    };
    match raw.get("new_value") {
        Some(v) => Ok((old_value, v.duplicate())),
        None => Err(String::from_str("remote set response missing 'new_value'")),
    }
}

/// Why the configuration bridge cannot delete.
pub fn remote_delete_error() -> (r: String)
    ensures
        r@ == "bridge adapter cannot delete configurations on the remote engine; rely on TTL or operate on the remote engine directly"@,
{
    String::from_str(
        "bridge adapter cannot delete configurations on the remote engine; rely on TTL or operate on the remote engine directly",
    )
}

proof fn lemma_untouched(m: Map<Seq<char>, ConfigurationEntry>, cs: Seq<ExternalChange>, id: Seq<char>)
    requires
        forall|i: int| 0 <= i < cs.len() ==> change_entry(#[trigger] cs[i]).id@ != id,
    ensures
        filed(apply_changes(m, cs), id) == filed(m, id),
    decreases cs.len(),
{
    if cs.len() > 0 {
        assert forall|i: int| 0 <= i < cs.drop_last().len() implies change_entry(#[trigger] cs.drop_last()[i]).id@ != id by {
            assert(cs.drop_last()[i] == cs[i]);
        }
        lemma_untouched(m, cs.drop_last(), id);
        assert(change_entry(cs[cs.len() - 1]).id@ != id);
    }
}

proof fn lemma_touched(m: Map<Seq<char>, ConfigurationEntry>, cs: Seq<ExternalChange>, k: int)
    requires
        0 <= k < cs.len(),
        forall|i: int, j: int| 0 <= i < j < cs.len() ==> change_entry(#[trigger] cs[i]).id@ != change_entry(#[trigger] cs[j]).id@,
    ensures
        filed(apply_changes(m, cs), change_entry(cs[k]).id@) == filed(apply_change(m, cs[k]), change_entry(cs[k]).id@),
    decreases cs.len(),
{
    let id = change_entry(cs[k]).id@;
    let init = cs.drop_last();
    if k == cs.len() - 1 {
        assert forall|i: int| 0 <= i < init.len() implies change_entry(#[trigger] init[i]).id@ != id by {
            assert(init[i] == cs[i]);
        }
        lemma_untouched(m, init, id);
    } else {
        assert forall|i: int, j: int| 0 <= i < j < init.len() implies change_entry(#[trigger] init[i]).id@ != change_entry(
            #[trigger] init[j],
        ).id@ by {
            assert(init[i] == cs[i] && init[j] == cs[j]);
        }
        assert(init[k] == cs[k]);
        lemma_touched(m, init, k);
        assert(change_entry(cs[cs.len() - 1]).id@ != id);
    }
}

/// The watcher keeps the store in line with the directory: applying, in
/// order, changes such as [`watch_diff`] reports for a cache and a fresh
/// read leaves an entry under exactly the ids the fresh read has, each
/// agreeing with the fresh read in name, description, schema and value.
pub proof fn watched_changes_sync_cache(
    cache: Map<Seq<char>, ConfigurationEntry>,
    snapshot: Map<Seq<char>, ConfigurationEntry>,
    changes: Seq<ExternalChange>,
)
    requires
        forall|i: int| 0 <= i < changes.len() ==> change_fits(#[trigger] changes[i], cache, snapshot),
        forall|i: int, j: int|
            0 <= i < j < changes.len() ==> change_entry(#[trigger] changes[i]).id@ != change_entry(#[trigger] changes[j]).id@,
        forall|id: Seq<char>| #[trigger] must_report(id, cache, snapshot) ==> exists|i: int|
            0 <= i < changes.len() && change_entry(changes[i]).id@ == id,
    ensures
        forall|id: Seq<char>| #[trigger] apply_changes(cache, changes).dom().contains(id) <==> snapshot.dom().contains(id),
        forall|id: Seq<char>| #[trigger] snapshot.dom().contains(id) ==> !entry_changed(apply_changes(cache, changes)[id], snapshot[id]),
        forall|id: Seq<char>| #[trigger] snapshot.dom().contains(id) ==> ({
            let e = apply_changes(cache, changes)[id];
            &&& e.value.model() == snapshot[id].value.model()
            &&& e.schema.model() == snapshot[id].schema.model()
            &&& e.name@ == snapshot[id].name@
            &&& e.description@ == snapshot[id].description@
        }),
{
    let result = apply_changes(cache, changes);
    assert forall|id: Seq<char>| #[trigger] result.dom().contains(id) <==> snapshot.dom().contains(id) by {
        lemma_sync_at(cache, snapshot, changes, id);
    }
    assert forall|id: Seq<char>| #[trigger] snapshot.dom().contains(id) implies !entry_changed(result[id], snapshot[id]) by {
        lemma_sync_at(cache, snapshot, changes, id);
    }
}

proof fn lemma_sync_at(
    cache: Map<Seq<char>, ConfigurationEntry>,
    snapshot: Map<Seq<char>, ConfigurationEntry>,
    changes: Seq<ExternalChange>,
    id: Seq<char>,
)
    requires
        forall|i: int| 0 <= i < changes.len() ==> change_fits(#[trigger] changes[i], cache, snapshot),
        forall|i: int, j: int|
            0 <= i < j < changes.len() ==> change_entry(#[trigger] changes[i]).id@ != change_entry(#[trigger] changes[j]).id@,
        forall|id: Seq<char>| #[trigger] must_report(id, cache, snapshot) ==> exists|i: int|
            0 <= i < changes.len() && change_entry(changes[i]).id@ == id,
    ensures
        apply_changes(cache, changes).dom().contains(id) <==> snapshot.dom().contains(id),
        snapshot.dom().contains(id) ==> !entry_changed(apply_changes(cache, changes)[id], snapshot[id]),
{
    if must_report(id, cache, snapshot) {
        let k = choose|i: int| 0 <= i < changes.len() && change_entry(changes[i]).id@ == id;
        lemma_touched(cache, changes, k);
        assert(change_fits(changes[k], cache, snapshot));
    } else {
        if exists|i: int| 0 <= i < changes.len() && change_entry(#[trigger] changes[i]).id@ == id {
            let k = choose|i: int| 0 <= i < changes.len() && change_entry(#[trigger] changes[i]).id@ == id;
            assert(change_fits(changes[k], cache, snapshot));
            assert(false);
        }
        lemma_untouched(cache, changes, id);
    }
}

} // verus!
