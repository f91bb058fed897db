//! The bridge queue adapter: queue messages enqueued and subscribed across
//! engines over a bridge connection. Here are the payloads it sends, the
//! bookkeeping of its subscriptions and how a delivered message is handled.

use vstd::prelude::*;
use vstd::string::StringExecFns;

use crate::json::{member, text_of, Json, JsonValue};
use crate::keyed::KeyedList;
use crate::protocol::{ErrorBody, TriggerAction, TriggerRequest};
use crate::sandbox_fs::{hyphenated, nibble};
use crate::text::join2;

verus! {

/// The function a bridged enqueue calls on the remote engine.
pub const ENQUEUE_FUNCTION_ID: &'static str = "iii::durable::publish";

/// The trigger type a bridged subscription registers.
pub const SUBSCRIBER_TRIGGER_TYPE: &'static str = "durable:subscriber";

/// The remote address when the adapter's configuration names none.
pub const DEFAULT_BRIDGE_URL: &'static str = "ws://localhost:49134";

/// The payload of a bridged enqueue: `topic` and `data`, plus the trace
/// context headers, when there are any, under `__traceparent` and
/// `__baggage`.
pub open spec fn enqueue_payload_model(topic: Seq<char>, data: Json, traceparent: Option<Seq<char>>, baggage: Option<Seq<char>>) -> Json {
    let base = seq![("topic"@, Json::Str(topic)), ("data"@, data)];
    let with_tp = match traceparent {
        Some(t) => base.push(("__traceparent"@, Json::Str(t))),
        None => base,
    };
    Json::Object(
        match baggage {
            Some(b) => with_tp.push(("__baggage"@, Json::Str(b))),
            None => with_tp,
        },
    )
}

pub open spec fn opt_view(s: Option<&str>) -> Option<Seq<char>> {
    match s {
        Some(t) => Some(t@),
        None => None,
    }
}

/// Build the payload of a bridged enqueue.
pub fn build_enqueue_payload(topic: &str, data: JsonValue, traceparent: Option<&str>, baggage: Option<&str>) -> (r: JsonValue)
    ensures
        r.model() == enqueue_payload_model(topic@, data.model(), opt_view(traceparent), opt_view(baggage)),
{
    let ghost dm = data.model();
    let mut m: Vec<(String, JsonValue)> = Vec::new();
    m.push((String::from_str("topic"), JsonValue::Str(String::from_str(topic))));
    m.push((String::from_str("data"), data));
    match traceparent {
        Some(t) => m.push((String::from_str("__traceparent"), JsonValue::Str(String::from_str(t)))),
        None => {},
    }
    match baggage {
        Some(b) => m.push((String::from_str("__baggage"), JsonValue::Str(String::from_str(b)))),
        None => {},
    }
    let r = JsonValue::Object(m);
    proof {
        let expected = enqueue_payload_model(topic@, dm, opt_view(traceparent), opt_view(baggage))->Object_0;
        assert(r.model()->Object_0.len() == expected.len());
        assert forall|k: int| 0 <= k < expected.len() implies #[trigger] r.model()->Object_0[k] == expected[k] by {
            assert(r.model()->Object_0[k] == (m@[k].0@, m@[k].1.model()));
        }
        assert(r.model()->Object_0 =~= expected);
    }
    r
}

/// The request a bridged enqueue sends: fire and forget.
pub fn enqueue_request(topic: &str, data: JsonValue, traceparent: Option<&str>, baggage: Option<&str>) -> (r: TriggerRequest)
    ensures
        r.function_id@ == ENQUEUE_FUNCTION_ID@,
        r.payload.model() == enqueue_payload_model(topic@, data.model(), opt_view(traceparent), opt_view(baggage)),
        r.action matches Some(TriggerAction::Void),
        r.timeout_ms is None,
{
    TriggerRequest {
        function_id: String::from_str(ENQUEUE_FUNCTION_ID),
        payload: build_enqueue_payload(topic, data, traceparent, baggage),
        action: Some(TriggerAction::Void),
        timeout_ms: None,
    }
}

/// The request that puts a function call on a named queue of the remote
/// engine.
pub fn function_queue_request(queue_name: &str, function_id: &str, data: JsonValue) -> (r: TriggerRequest)
    ensures
        r.function_id@ == function_id@,
        r.payload.model() == data.model(),
        r.action matches Some(TriggerAction::Enqueue { queue }) && queue@ == queue_name@,
        r.timeout_ms is None,
{
    TriggerRequest {
        function_id: String::from_str(function_id),
        payload: data,
        action: Some(TriggerAction::Enqueue { queue: String::from_str(queue_name) }),
        timeout_ms: None,
    }
}

/// The error every dead-letter operation of the bridge adapter reports.
pub fn dlq_unsupported() -> (r: String)
    ensures
        r@ == "Bridge queue adapter does not support DLQ operations"@,
{
    String::from_str("Bridge queue adapter does not support DLQ operations")
}

/// The key of a subscription: `topic:id`.
pub open spec fn subscription_key(topic: Seq<char>, id: Seq<char>) -> Seq<char> {
    topic + ":"@ + id
}

fn key_of(topic: &str, id: &str) -> (r: String)
    ensures
        r@ == subscription_key(topic@, id@),
{
    join2(topic, ":").concat(id)
}

/// The name under which the handler of a subscription is registered:
/// `queue::bridge::on_message::` and a fresh UUID.
pub fn handler_path(uuid_text: &str) -> (r: String)
    ensures
        r@ == "queue::bridge::on_message::"@ + uuid_text@,
{
    join2("queue::bridge::on_message::", uuid_text)
}

/// The trigger a subscription registers remotely: a durable subscriber
/// on `topic`, calling the handler.
pub fn subscriber_trigger(topic: &str, handler: &str) -> (r: (String, String, JsonValue))
    ensures
        r.0@ == SUBSCRIBER_TRIGGER_TYPE@,
        r.1@ == handler@,
        r.2.model() == Json::Object(seq![("topic"@, Json::Str(topic@))]),
{
    let mut m: Vec<(String, JsonValue)> = Vec::new();
    m.push((String::from_str("topic"), JsonValue::Str(String::from_str(topic))));
    assert(m@[0].0@ == "topic"@ && m@[0].1.model() == Json::Str(topic@));
    let config = JsonValue::Object(m);
    proof {
        assert(config.model()->Object_0[0] == ("topic"@, Json::Str(topic@)));
        assert(config.model()->Object_0 =~= seq![("topic"@, Json::Str(topic@))]);
    }
    (String::from_str(SUBSCRIBER_TRIGGER_TYPE), String::from_str(handler), config)
}

/// The adapter's subscriptions: for each `topic:id`, the handler that
/// serves it.
pub struct QueueSubscriptions {
    subs: KeyedList<String>,
}

impl QueueSubscriptions {
    pub closed spec fn model(&self) -> Map<Seq<char>, Seq<char>> {
        self.subs.map().map_values(|h: String| h@)
    }

    pub closed spec fn wf(&self) -> bool {
        self.subs.wf()
    }

    pub fn new() -> (r: Self)
        ensures
            r.wf(),
            r.model() == Map::<Seq<char>, Seq<char>>::empty(),
    {
        let r = QueueSubscriptions { subs: KeyedList::new() };
        assert(r.model() =~= Map::<Seq<char>, Seq<char>>::empty());
        r
    }

    /// Whether `topic`/`id` is already subscribed (a second subscription
    /// for it is skipped).
    pub fn is_subscribed(&self, topic: &str, id: &str) -> (r: bool)
        requires
            self.wf(),
        ensures
            r == self.model().dom().contains(subscription_key(topic@, id@)),
    {
        let key = key_of(topic, id);
        self.subs.contains_key(key.as_str())
    }

    /// Record a subscription whose trigger was registered.
    pub fn record(&mut self, topic: &str, id: &str, handler: String)
        requires
            old(self).wf(),
        ensures
            final(self).wf(),
            final(self).model() == old(self).model().insert(subscription_key(topic@, id@), handler@),
    {
        let key = key_of(topic, id);
        let ghost h = handler@;
        self.subs.insert(key, handler);
        assert(self.model() =~= old(self).model().insert(subscription_key(topic@, id@), h));
    }

    /// Drop the subscription of `topic`/`id`, returning its handler (whose
    /// trigger is then to be unregistered).
    pub fn remove(&mut self, topic: &str, id: &str) -> (r: Option<String>)
        requires
            old(self).wf(),
        ensures
            final(self).wf(),
            final(self).model() == old(self).model().remove(subscription_key(topic@, id@)),
            r is None <==> !old(self).model().dom().contains(subscription_key(topic@, id@)),
            r matches Some(h) ==> h@ == old(self).model()[subscription_key(topic@, id@)],
    {
        let key = key_of(topic, id);
        let r = self.subs.remove(key.as_str());
        assert(self.model() =~= old(self).model().remove(subscription_key(topic@, id@)));
        r
    }
}

/// Whether `t` is the hyphenated lower-case text of a version-4 UUID: its
/// version digit is `4` and its variant digit is one of `8`, `9`, `a`, `b`.
pub open spec fn is_v4_uuid_text(t: Seq<char>) -> bool {
    exists|v: u128|
        #[trigger] hyphenated(v) == t && nibble(v, 12) == 4 && 8 <= nibble(v, 16) <= 11
}

/// A fresh random UUID in its hyphenated text form (`Uuid::new_v4`, which
/// masks random bits to version 4 and the RFC 4122 variant, then
/// `to_string`). Which UUID comes back is random; that it is such a text
/// holds of every outcome.
#[verifier::external_body]
fn fresh_uuid_text() -> (r: String)
    ensures
        is_v4_uuid_text(r@),
{
    uuid::Uuid::new_v4().to_string()
}

/// What a subscription request leads to.
pub enum SubscribePlan {
    /// The topic and id are already subscribed: no remote call is made and
    /// nothing is recorded.
    Duplicate,
    /// Register `handler` remotely as the function that serves the
    /// subscription, then the trigger `(trigger type, function id, config)`.
    Register { handler: String, trigger: (String, String, JsonValue) },
}

/// The handler name a subscription registers for the UUID text `uuid`.
pub open spec fn planned_handler(uuid: Seq<char>) -> Seq<char> {
    "queue::bridge::on_message::"@ + uuid
}

/// Whether `plan` is the plan for subscribing `topic`/`id` over the
/// subscriptions `subs`, with handler UUID text `uuid`.
pub open spec fn plan_fits(
    plan: SubscribePlan,
    subs: Map<Seq<char>, Seq<char>>,
    topic: Seq<char>,
    id: Seq<char>,
    uuid: Seq<char>,
) -> bool {
    if subs.dom().contains(subscription_key(topic, id)) {
        plan is Duplicate
    } else {
        plan matches SubscribePlan::Register { handler, trigger } && handler@ == planned_handler(uuid)
            && trigger.0@ == SUBSCRIBER_TRIGGER_TYPE@ && trigger.1@ == handler@ && trigger.2.model()
            == Json::Object(seq![("topic"@, Json::Str(topic))])
    }
}

/// The subscriptions after a subscription request for `key` whose remote
/// trigger registration (made only when `key` was not yet subscribed)
/// succeeded or not: the handler is recorded only on success.
pub open spec fn after_subscription(
    subs: Map<Seq<char>, Seq<char>>,
    key: Seq<char>,
    handler: Seq<char>,
    registered: bool,
) -> Map<Seq<char>, Seq<char>> {
    if !subs.dom().contains(key) && registered {
        subs.insert(key, handler)
    } else {
        subs
    }
}

impl QueueSubscriptions {
    /// The plan for subscribing `topic`/`id` with the handler UUID text
    /// `uuid_text`.
    pub fn plan_subscription(&self, topic: &str, id: &str, uuid_text: &str) -> (r: SubscribePlan)
        requires
            self.wf(),
        ensures
            plan_fits(r, self.model(), topic@, id@, uuid_text@),
    {
        if self.is_subscribed(topic, id) {
            return SubscribePlan::Duplicate;
        }
        let handler = handler_path(uuid_text);
        let trigger = subscriber_trigger(topic, handler.as_str());
        SubscribePlan::Register { handler, trigger }
    }

    /// The plan for subscribing `topic`/`id`, with a fresh version-4 UUID
    /// for the handler's name.
    pub fn begin_subscription(&self, topic: &str, id: &str) -> (r: SubscribePlan)
        requires
            self.wf(),
        ensures
            exists|uuid: Seq<char>| is_v4_uuid_text(uuid) && #[trigger] plan_fits(r, self.model(), topic@, id@, uuid),
    {
        let uuid = fresh_uuid_text();
        let r = self.plan_subscription(topic, id, uuid.as_str());
        assert(is_v4_uuid_text(uuid@) && plan_fits(r, self.model(), topic@, id@, uuid@));
        r
    }

    /// Close a subscription request for `topic`/`id` whose plan named
    /// `handler`: the subscription is recorded when the remote trigger
    /// registration succeeded (`registered`), and nothing changes otherwise
    /// or when it was already subscribed.
    pub fn finish_subscription(&mut self, topic: &str, id: &str, handler: String, registered: bool)
        requires
            old(self).wf(),
        ensures
            final(self).wf(),
            final(self).model() == after_subscription(
                old(self).model(),
                subscription_key(topic@, id@),
                handler@,
                registered,
            ),
    {
        if registered && !self.is_subscribed(topic, id) {
            self.record(topic, id, handler);
        }
    }
}

/// Subscribing: a request for a topic and id already subscribed makes no
/// remote call and changes nothing; otherwise it registers the handler
/// `queue::bridge::on_message::<uuid>` and a durable subscriber trigger on
/// the topic calling it, and the subscription is recorded, with that
/// handler, exactly when the trigger registration succeeded. Every other
/// subscription is left as it was.
pub proof fn subscription_recorded_only_when_registered(
    subs: Map<Seq<char>, Seq<char>>,
    topic: Seq<char>,
    id: Seq<char>,
    uuid: Seq<char>,
    plan: SubscribePlan,
    registered: bool,
    other: Seq<char>,
)
    requires
        plan_fits(plan, subs, topic, id, uuid),
    ensures
        subs.dom().contains(subscription_key(topic, id)) ==> plan is Duplicate && after_subscription(
            subs,
            subscription_key(topic, id),
            planned_handler(uuid),
            registered,
        ) == subs,
        !subs.dom().contains(subscription_key(topic, id)) ==> ({
            let after = after_subscription(subs, subscription_key(topic, id), planned_handler(uuid), registered);
            &&& plan matches SubscribePlan::Register { handler, trigger } && handler@ == planned_handler(uuid)
                && trigger.1@ == planned_handler(uuid)
            &&& after.dom().contains(subscription_key(topic, id)) == registered
            &&& registered ==> after[subscription_key(topic, id)] == planned_handler(uuid)
        }),
        other != subscription_key(topic, id) ==> ({
            let after = after_subscription(subs, subscription_key(topic, id), planned_handler(uuid), registered);
            &&& after.dom().contains(other) == subs.dom().contains(other)
            &&& subs.dom().contains(other) ==> after[other] == subs[other]
        }),
{
}

/// Subscription bookkeeping: once a subscription is recorded, a second
/// one for the same topic and id is seen as a duplicate (and skipped) until
/// it is removed; recording or removing one subscription leaves every
/// other as it was.
pub proof fn subscriptions_skip_duplicates(
    subs: Map<Seq<char>, Seq<char>>,
    topic: Seq<char>,
    id: Seq<char>,
    handler: Seq<char>,
    other: Seq<char>,
)
    ensures
        subs.insert(subscription_key(topic, id), handler).dom().contains(subscription_key(topic, id)),
        !subs.insert(subscription_key(topic, id), handler).remove(subscription_key(topic, id)).dom().contains(
            subscription_key(topic, id),
        ),
        other != subscription_key(topic, id) ==> (subs.insert(subscription_key(topic, id), handler).dom().contains(
            other,
        ) == subs.dom().contains(other) && subs.remove(subscription_key(topic, id)).dom().contains(other)
            == subs.dom().contains(other)),
{
}

/// The trace context a delivered message carries: its `__traceparent` and
/// `__baggage` strings.
pub fn trace_headers(data: &JsonValue) -> (r: (Option<String>, Option<String>))
    ensures
        match r.0 {
            Some(t) => text_of(member(data.model(), "__traceparent"@)) == Some(t@),
            None => text_of(member(data.model(), "__traceparent"@)) is None,
        },
        match r.1 {
            Some(t) => text_of(member(data.model(), "__baggage"@)) == Some(t@),
            None => text_of(member(data.model(), "__baggage"@)) is None,
        },
{
    let tp = match data.get("__traceparent") {
        Some(v) => match v.as_str() {
            Some(t) => Some(String::from_str(t)),
            None => None,
        },
        None => None,
    };
    let bg = match data.get("__baggage") {
        Some(v) => match v.as_str() {
            Some(t) => Some(String::from_str(t)),
            None => None,
        },
        None => None,
    };
    (tp, bg)
}

/// What a delivered message's condition answer means: go on to the
/// handler (`None`), or stop with this result (`null` when the condition
/// said no, the condition's error when it failed).
pub fn after_condition(outcome: Result<bool, ErrorBody>) -> (r: Option<Result<JsonValue, ErrorBody>>)
    ensures
        outcome == Ok::<bool, ErrorBody>(true) ==> r is None,
        outcome == Ok::<bool, ErrorBody>(false) ==> (r matches Some(Ok(v)) && v.model() == Json::Null),
        outcome matches Err(e) ==> r == Some(Err::<JsonValue, ErrorBody>(e)),
{
    match outcome {
        Ok(true) => None,
        Ok(false) => Some(Ok(JsonValue::Null)),
        Err(e) => Some(Err(e)),
    }
}

/// The bridge address of an adapter: its configuration's `bridge_url`
/// string, else [`DEFAULT_BRIDGE_URL`].
pub fn adapter_bridge_url(config: &Option<JsonValue>) -> (r: String)
    ensures
        r@ == match config {
            Some(c) => match text_of(member(c.model(), "bridge_url"@)) {
                Some(u) => u,
                None => DEFAULT_BRIDGE_URL@,
            },
            None => DEFAULT_BRIDGE_URL@,
        },
{
    match config {
        Some(c) => match c.get("bridge_url") {
            Some(v) => match v.as_str() {
                Some(u) => String::from_str(u),
                None => String::from_str(DEFAULT_BRIDGE_URL),
            },
            None => String::from_str(DEFAULT_BRIDGE_URL),
        },
        None => String::from_str(DEFAULT_BRIDGE_URL),
    }
}

} // verus!
