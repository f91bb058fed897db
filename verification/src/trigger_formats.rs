//! Configuration and call-request formats of the built-in trigger types,
//! with the wire names of their enumerations.
//!
//! Each trigger type has a configuration format (what a trigger declares at
//! registration) and a call-request format (what the function receives
//! when the trigger fires). Free-form payloads are held as [`JsonValue`];
//! string maps are held as key/value pairs in order.

use vstd::prelude::*;

use crate::json::JsonValue;
use crate::text::str_eq;

verus! {

// ── HTTP ────────────────────────────────────────────────────────────────
/// Configuration of an HTTP trigger.
#[derive(Debug, Clone)]
pub struct HttpTriggerConfig {
    /// HTTP endpoint path (e.g. `/users/:id`).
    pub api_path: String,
    /// HTTP method; [`default_http_method`] when the field is absent.
    pub http_method: Option<HttpMethod>,
    /// Optional function id evaluated before the handler is invoked.
    pub condition_function_id: Option<String>,
}

/// The HTTP methods a trigger can listen on.
#[derive(Debug, Clone, Copy, PartialEq, Eq, Structural)]
pub enum HttpMethod {
    GET,
    POST,
    PUT,
    DELETE,
    PATCH,
    HEAD,
    OPTIONS,
}

/// The method of an HTTP trigger whose configuration names none: `GET`.
pub fn default_http_method() -> (r: Option<HttpMethod>)
    ensures
        r == Some(HttpMethod::GET),
{
    Some(HttpMethod::GET)
}

impl HttpMethod {
    /// The wire name of the method (the variant's own name).
    pub open spec fn wire(self) -> Seq<char> {
        match self {
            HttpMethod::GET => "GET"@,
            HttpMethod::POST => "POST"@,
            HttpMethod::PUT => "PUT"@,
            HttpMethod::DELETE => "DELETE"@,
            HttpMethod::PATCH => "PATCH"@,
            HttpMethod::HEAD => "HEAD"@,
            HttpMethod::OPTIONS => "OPTIONS"@,
        }
    }

    pub fn as_str(&self) -> (r: &'static str)
        ensures
            r@ == self.wire(),
    {
        match self {
            HttpMethod::GET => "GET",
            HttpMethod::POST => "POST",
            HttpMethod::PUT => "PUT",
            HttpMethod::DELETE => "DELETE",
            HttpMethod::PATCH => "PATCH",
            HttpMethod::HEAD => "HEAD",
            HttpMethod::OPTIONS => "OPTIONS",
        }
    }

    /// The method whose wire name is `s`, if any.
    pub fn from_wire(s: &str) -> (r: Option<HttpMethod>)
        ensures
            r matches Some(m) ==> m.wire() == s@,
            r is None ==> forall|m: HttpMethod| #[trigger] m.wire() != s@,
    {
        let all = [
            HttpMethod::GET,
            HttpMethod::POST,
            HttpMethod::PUT,
            HttpMethod::DELETE,
            HttpMethod::PATCH,
            HttpMethod::HEAD,
            HttpMethod::OPTIONS,
        ];
        let mut i: usize = 0;
        while i < 7
            invariant
                i <= 7,
                all@ == seq![
                    HttpMethod::GET,
                    HttpMethod::POST,
                    HttpMethod::PUT,
                    HttpMethod::DELETE,
                    HttpMethod::PATCH,
                    HttpMethod::HEAD,
                    HttpMethod::OPTIONS,
                ],
                forall|k: int| 0 <= k < i ==> all@[k].wire() != s@,
            decreases 7 - i,
        {
            let m = all[i];
            if str_eq(m.as_str(), s) {
                return Some(m);
            }
            i += 1;
        }
        proof {
            assert forall|m: HttpMethod| #[trigger] m.wire() != s@ by {
                match m {
                    HttpMethod::GET => assert(all@[0] == m),
                    HttpMethod::POST => assert(all@[1] == m),
                    HttpMethod::PUT => assert(all@[2] == m),
                    HttpMethod::DELETE => assert(all@[3] == m),
                    HttpMethod::PATCH => assert(all@[4] == m),
                    HttpMethod::HEAD => assert(all@[5] == m),
                    HttpMethod::OPTIONS => assert(all@[6] == m),
                }
            }
        }
        None
    }
}

/// The payload an HTTP-triggered function receives.
#[derive(Debug, Clone)]
pub struct HttpCallRequest {
    /// URL query parameters.
    pub query_params: Vec<(String, String)>,
    /// URL path parameters.
    pub path_params: Vec<(String, String)>,
    /// HTTP request headers.
    pub headers: Vec<(String, String)>,
    /// Request path.
    pub path: String,
    /// HTTP method.
    pub method: String,
    /// Request body.
    pub body: JsonValue,
}

// ── Cron ────────────────────────────────────────────────────────────────
/// Configuration of a cron trigger.
#[derive(Debug, Clone)]
pub struct CronTriggerConfig {
    /// Cron expression (six fields: sec min hour day month weekday).
    pub expression: String,
    /// Optional function id evaluated before the handler is invoked.
    pub condition_function_id: Option<String>,
}

/// The payload a cron-triggered function receives.
#[derive(Debug, Clone)]
pub struct CronCallRequest {
    /// Always `cron`.
    pub trigger: String,
    /// Unique job identifier.
    pub job_id: String,
    /// Scheduled execution time (RFC 3339).
    pub scheduled_time: String,
    /// Actual execution time (RFC 3339).
    pub actual_time: String,
}

// ── Queue ───────────────────────────────────────────────────────────────
/// Configuration of a queue trigger.
#[derive(Debug, Clone)]
pub struct QueueTriggerConfig {
    /// Queue topic to subscribe to.
    pub topic: String,
    /// Optional function id evaluated before the handler is invoked.
    pub condition_function_id: Option<String>,
    /// Queue-specific subscriber configuration.
    pub queue_config: Option<JsonValue>,
}

// ── PubSub (subscribe) ─────────────────────────────────────────────────
/// Configuration of a subscribe trigger.
#[derive(Debug, Clone)]
pub struct SubscribeTriggerConfig {
    /// Topic to subscribe to.
    pub topic: String,
    /// Optional function id evaluated before the handler is invoked.
    pub condition_function_id: Option<String>,
}

// ── State ───────────────────────────────────────────────────────────────
/// Configuration of a state trigger.
#[derive(Debug, Clone)]
pub struct StateTriggerConfig {
    /// State scope to watch (exact match filter).
    pub scope: Option<String>,
    /// State key to watch (exact match filter).
    pub key: Option<String>,
    /// Optional function id evaluated before the handler is invoked.
    pub condition_function_id: Option<String>,
}

/// The kinds of state change.
#[derive(Debug, Clone, Copy, PartialEq, Eq, Structural)]
pub enum StateEventType {
    Created,
    Updated,
    Deleted,
}

impl StateEventType {
    /// The wire name of the event type.
    pub open spec fn wire(self) -> Seq<char> {
        match self {
            StateEventType::Created => "state:created"@,
            StateEventType::Updated => "state:updated"@,
            StateEventType::Deleted => "state:deleted"@,
        }
    }

    pub fn as_str(&self) -> (r: &'static str)
        ensures
            r@ == self.wire(),
    {
        match self {
            StateEventType::Created => "state:created",
            StateEventType::Updated => "state:updated",
            StateEventType::Deleted => "state:deleted",
        }
    }

    /// The event type whose wire name is `s`, if any.
    pub fn from_wire(s: &str) -> (r: Option<StateEventType>)
        ensures
            r matches Some(e) ==> e.wire() == s@,
            r is None ==> forall|e: StateEventType| #[trigger] e.wire() != s@,
    {
        if str_eq("state:created", s) {
            Some(StateEventType::Created)
        } else if str_eq("state:updated", s) {
            Some(StateEventType::Updated)
        } else if str_eq("state:deleted", s) {
            Some(StateEventType::Deleted)
        } else {
            proof {
                assert forall|e: StateEventType| #[trigger] e.wire() != s@ by {
                    match e {
                        StateEventType::Created => {},
                        StateEventType::Updated => {},
                        StateEventType::Deleted => {},
                    }
                }
            }
            None
        }
    }
}

/// The payload a state-triggered function receives.
#[derive(Debug, Clone)]
pub struct StateCallRequest {
    /// Always `state` (the `type` field on the wire).
    pub message_type: String,
    /// Type of state change.
    pub event_type: StateEventType,
    /// State scope.
    pub scope: String,
    /// State key.
    pub key: String,
    /// Previous value (none for created events).
    pub old_value: Option<JsonValue>,
    /// New value.
    pub new_value: JsonValue,
}

// ── Stream ──────────────────────────────────────────────────────────────
/// Configuration of a stream join/leave trigger.
#[derive(Debug, Clone)]
pub struct StreamJoinLeaveTriggerConfig {
    /// Stream name to watch.
    pub stream_name: Option<String>,
    /// Optional function id evaluated before the handler is invoked.
    pub condition_function_id: Option<String>,
}

/// Configuration of a stream trigger.
#[derive(Debug, Clone)]
pub struct StreamTriggerConfig {
    /// Stream name to watch.
    pub stream_name: Option<String>,
    /// Group id filter.
    pub group_id: Option<String>,
    /// Item id filter.
    pub item_id: Option<String>,
    /// Optional function id evaluated before the handler is invoked.
    pub condition_function_id: Option<String>,
}

/// The payload a stream join/leave trigger delivers.
#[derive(Debug, Clone)]
pub struct StreamJoinLeaveCallRequest {
    /// Event type (`stream:join` or `stream:leave`).
    pub event_type: String,
    /// Event timestamp (ms).
    pub timestamp: i64,
    /// Stream name.
    pub stream_name: String,
    /// Group id.
    pub group_id: String,
    /// Peer id.
    pub id: Option<String>,
}

/// The payload a stream trigger delivers.
#[derive(Debug, Clone)]
pub struct StreamCallRequest {
    /// Stream event type (create, update, delete, sync).
    pub event_type: String,
    /// Event timestamp (ms).
    pub timestamp: i64,
    /// Stream name.
    pub stream_name: String,
    /// Group id.
    pub group_id: String,
    /// Item id.
    pub id: Option<String>,
    /// Event-specific data.
    pub event: JsonValue,
}

// ── Configuration ───────────────────────────────────────────────────────
/// Configuration of a configuration-change trigger.
#[derive(Debug, Clone)]
pub struct ConfigurationTriggerConfig {
    /// Configuration id to watch (exact match); every id when omitted.
    pub configuration_id: Option<String>,
    /// Event types to filter on; every event when omitted.
    pub event_types: Option<Vec<ConfigurationEventType>>,
    /// Optional function id evaluated before the handler is invoked.
    pub condition_function_id: Option<String>,
}

/// The kinds of configuration change.
#[derive(Debug, Clone, Copy, PartialEq, Eq, Structural)]
pub enum ConfigurationEventType {
    Registered,
    Updated,
    Deleted,
}

impl ConfigurationEventType {
    /// The wire name of the event type.
    pub open spec fn wire(self) -> Seq<char> {
        match self {
            ConfigurationEventType::Registered => "configuration:registered"@,
            ConfigurationEventType::Updated => "configuration:updated"@,
            ConfigurationEventType::Deleted => "configuration:deleted"@,
        }
    }

    pub fn as_str(&self) -> (r: &'static str)
        ensures
            r@ == self.wire(),
    {
        match self {
            ConfigurationEventType::Registered => "configuration:registered",
            ConfigurationEventType::Updated => "configuration:updated",
            ConfigurationEventType::Deleted => "configuration:deleted",
        }
    }

    /// The event type whose wire name is `s`, if any.
    pub fn from_wire(s: &str) -> (r: Option<ConfigurationEventType>)
        ensures
            r matches Some(e) ==> e.wire() == s@,
            r is None ==> forall|e: ConfigurationEventType| #[trigger] e.wire() != s@,
    {
        if str_eq("configuration:registered", s) {
            Some(ConfigurationEventType::Registered)
        } else if str_eq("configuration:updated", s) {
            Some(ConfigurationEventType::Updated)
        } else if str_eq("configuration:deleted", s) {
            Some(ConfigurationEventType::Deleted)
        } else {
            proof {
                assert forall|e: ConfigurationEventType| #[trigger] e.wire() != s@ by {
                    match e {
                        ConfigurationEventType::Registered => {},
                        ConfigurationEventType::Updated => {},
                        ConfigurationEventType::Deleted => {},
                    }
                }
            }
            None
        }
    }
}

/// The payload a configuration-change trigger delivers.
#[derive(Debug, Clone)]
pub struct ConfigurationCallRequest {
    /// Always `configuration` (the `type` field on the wire).
    pub message_type: String,
    /// Type of configuration change.
    pub event_type: ConfigurationEventType,
    /// Configuration id (e.g. `iii-stream`).
    pub id: String,
    /// Human-readable name.
    pub name: String,
    /// Description.
    pub description: String,
    /// JSON Schema describing the value shape.
    pub schema: JsonValue,
    /// Previous value.
    pub old_value: Option<JsonValue>,
    /// New value with placeholders expanded; none on deletion.
    pub new_value: Option<JsonValue>,
    /// Caller-supplied metadata stored alongside the entry.
    pub metadata: Option<JsonValue>,
}

// ── Log (observability) ─────────────────────────────────────────────────
/// Configuration of a log trigger.
#[derive(Debug, Clone)]
pub struct LogTriggerConfig {
    /// Minimum log level to trigger on; [`default_log_level`] when absent.
    pub level: Option<LogLevel>,
}

/// Log levels a log trigger can filter on.
#[derive(Debug, Clone, Copy, PartialEq, Eq, Structural)]
pub enum LogLevel {
    All,
    Debug,
    Info,
    Warn,
    Error,
}

/// The level of a log trigger whose configuration names none: `all`.
pub fn default_log_level() -> (r: Option<LogLevel>)
    ensures
        r == Some(LogLevel::All),
{
    Some(LogLevel::All)
}

impl LogLevel {
    /// The wire name of the level.
    pub open spec fn wire(self) -> Seq<char> {
        match self {
            LogLevel::All => "all"@,
            LogLevel::Debug => "debug"@,
            LogLevel::Info => "info"@,
            LogLevel::Warn => "warn"@,
            LogLevel::Error => "error"@,
        }
    }

    pub fn as_str(&self) -> (r: &'static str)
        ensures
            r@ == self.wire(),
    {
        match self {
            LogLevel::All => "all",
            LogLevel::Debug => "debug",
            LogLevel::Info => "info",
            LogLevel::Warn => "warn",
            LogLevel::Error => "error",
        }
    }

    /// The level whose wire name is `s`, if any.
    pub fn from_wire(s: &str) -> (r: Option<LogLevel>)
        ensures
            r matches Some(l) ==> l.wire() == s@,
            r is None ==> forall|l: LogLevel| #[trigger] l.wire() != s@,
    {
        if str_eq("all", s) {
            Some(LogLevel::All)
        } else if str_eq("debug", s) {
            Some(LogLevel::Debug)
        } else if str_eq("info", s) {
            Some(LogLevel::Info)
        } else if str_eq("warn", s) {
            Some(LogLevel::Warn)
        } else if str_eq("error", s) {
            Some(LogLevel::Error)
        } else {
            proof {
                assert forall|l: LogLevel| #[trigger] l.wire() != s@ by {
                    match l {
                        LogLevel::All => {},
                        LogLevel::Debug => {},
                        LogLevel::Info => {},
                        LogLevel::Warn => {},
                        LogLevel::Error => {},
                    }
                }
            }
            None
        }
    }
}

/// The payload a log trigger delivers.
#[derive(Debug, Clone)]
pub struct LogCallRequest {
    /// Log timestamp in nanoseconds.
    pub timestamp_unix_nano: u64,
    /// Observed timestamp in nanoseconds.
    pub observed_timestamp_unix_nano: u64,
    /// Severity number (OpenTelemetry).
    pub severity_number: u32,
    /// Severity text (e.g. INFO, ERROR).
    pub severity_text: String,
    /// Log message body.
    pub body: String,
    /// Log attributes.
    pub attributes: JsonValue,
    /// Trace id.
    pub trace_id: String,
    /// Span id.
    pub span_id: String,
    /// OpenTelemetry resource.
    pub resource: JsonValue,
    /// Service name.
    pub service_name: String,
    /// Instrumentation scope name.
    pub instrumentation_scope_name: String,
    /// Instrumentation scope version.
    pub instrumentation_scope_version: String,
}

/// Every wire name reads back as the value it was written from, and no two
/// values share a wire name.
pub proof fn wire_names_round_trip()
    ensures
        forall|a: HttpMethod, b: HttpMethod| #[trigger] a.wire() == #[trigger] b.wire() ==> a == b,
        forall|a: StateEventType, b: StateEventType| #[trigger] a.wire() == #[trigger] b.wire() ==> a
            == b,
        forall|a: ConfigurationEventType, b: ConfigurationEventType| #[trigger] a.wire()
            == #[trigger] b.wire() ==> a == b,
        forall|a: LogLevel, b: LogLevel| #[trigger] a.wire() == #[trigger] b.wire() ==> a == b,
{
    assert forall|a: HttpMethod, b: HttpMethod| #[trigger] a.wire() == #[trigger] b.wire() implies a
        == b by {
        if a != b {
            assert(a.wire().len() != b.wire().len() || exists|k: int|
                0 <= k < a.wire().len() && a.wire()[k] != b.wire()[k]) by {
                reveal_strlit("GET");
                reveal_strlit("POST");
                reveal_strlit("PUT");
                reveal_strlit("DELETE");
                reveal_strlit("PATCH");
                reveal_strlit("HEAD");
                reveal_strlit("OPTIONS");
                match a {
                    HttpMethod::PUT => {
                        if b == HttpMethod::GET {
                            assert(a.wire()[0] != b.wire()[0]);
                        }
                    },
                    HttpMethod::GET => {
                        if b == HttpMethod::PUT {
                            assert(a.wire()[0] != b.wire()[0]);
                        }
                    },
                    HttpMethod::POST => {
                        if b == HttpMethod::HEAD {
                            assert(a.wire()[0] != b.wire()[0]);
                        }
                    },
                    HttpMethod::HEAD => {
                        if b == HttpMethod::POST {
                            assert(a.wire()[0] != b.wire()[0]);
                        }
                    },
                    _ => {},
                }
            }
        }
    }
    assert forall|a: StateEventType, b: StateEventType| #[trigger] a.wire() == #[trigger] b.wire() implies a
        == b by {
        reveal_strlit("state:created");
        reveal_strlit("state:updated");
        reveal_strlit("state:deleted");
        if a != b {
            assert(a.wire()[6] != b.wire()[6]);
        }
    }
    assert forall|a: ConfigurationEventType, b: ConfigurationEventType| #[trigger] a.wire()
        == #[trigger] b.wire() implies a == b by {
        reveal_strlit("configuration:registered");
        reveal_strlit("configuration:updated");
        reveal_strlit("configuration:deleted");
        if a != b {
            assert(a.wire()[14] != b.wire()[14]);
        }
    }
    assert forall|a: LogLevel, b: LogLevel| #[trigger] a.wire() == #[trigger] b.wire() implies a == b by {
        reveal_strlit("all");
        reveal_strlit("debug");
        reveal_strlit("info");
        reveal_strlit("warn");
        reveal_strlit("error");
        if a != b {
            assert(a.wire()[0] != b.wire()[0]);
        }
    }
}

/// The wire names of the trigger enums: HTTP methods by their own upper-case
/// names, state events as `state:created`/`state:updated`/`state:deleted`,
/// configuration events as `configuration:registered`/`configuration:updated`/
/// `configuration:deleted`, and log levels in lower case.
pub proof fn wire_names_follow_the_protocol(
    m: HttpMethod,
    s: StateEventType,
    c: ConfigurationEventType,
    l: LogLevel,
)
    ensures
        m == HttpMethod::GET ==> m.wire() == "GET"@,
        m == HttpMethod::POST ==> m.wire() == "POST"@,
        m == HttpMethod::PUT ==> m.wire() == "PUT"@,
        m == HttpMethod::DELETE ==> m.wire() == "DELETE"@,
        m == HttpMethod::PATCH ==> m.wire() == "PATCH"@,
        m == HttpMethod::HEAD ==> m.wire() == "HEAD"@,
        m == HttpMethod::OPTIONS ==> m.wire() == "OPTIONS"@,
        s == StateEventType::Created ==> s.wire() == "state:created"@,
        s == StateEventType::Updated ==> s.wire() == "state:updated"@,
        s == StateEventType::Deleted ==> s.wire() == "state:deleted"@,
        c == ConfigurationEventType::Registered ==> c.wire() == "configuration:registered"@,
        c == ConfigurationEventType::Updated ==> c.wire() == "configuration:updated"@,
        c == ConfigurationEventType::Deleted ==> c.wire() == "configuration:deleted"@,
        l == LogLevel::All ==> l.wire() == "all"@,
        l == LogLevel::Debug ==> l.wire() == "debug"@,
        l == LogLevel::Info ==> l.wire() == "info"@,
        l == LogLevel::Warn ==> l.wire() == "warn"@,
        l == LogLevel::Error ==> l.wire() == "error"@,
{
}

} // verus!

