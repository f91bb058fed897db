//! Formats of the custom trigger types that the example worker registers.

use vstd::prelude::*;
use vstd::string::StringExecFns;

use crate::console::text_member;
use crate::decimal::decimal;
use crate::json::{member, number_from_u64, object, text_of, Json, JsonValue};
use crate::text::{join2, str_eq, string_from_chars};

verus! {

/// Configuration of the one-time or daily `schedule` trigger.
#[derive(Debug, Clone)]
pub struct ScheduleTriggerConfig {
    /// ISO 8601 date and time at which to fire (e.g. `2099-01-01T10:00:00Z`).
    pub at: String,
    /// Optional timezone (UTC when absent).
    pub timezone: Option<String>,
    /// Whether to repeat at the same time daily.
    pub repeat_daily: Option<bool>,
}

/// The payload a `schedule` trigger delivers.
#[derive(Debug, Clone)]
pub struct ScheduleCallRequest {
    /// The scheduled date and time that fired.
    pub scheduled_at: String,
    /// Actual firing time.
    pub fired_at: String,
    /// How many times this schedule has fired.
    pub fire_count: u64,
}

/// Configuration of the `file-watch` trigger.
#[derive(Debug, Clone)]
pub struct FileWatchConfig {
    /// Glob pattern to watch (e.g. `/data/*.csv`).
    pub pattern: String,
    /// The events to watch for.
    pub events: Vec<FileEvent>,
}

/// File-system events a `file-watch` trigger can watch for.
#[derive(Debug, Clone, Copy, PartialEq, Eq, Structural)]
pub enum FileEvent {
    Created,
    Modified,
    Deleted,
}

impl FileEvent {
    /// The wire name of the event.
    pub open spec fn wire(self) -> Seq<char> {
        match self {
            FileEvent::Created => "created"@,
            FileEvent::Modified => "modified"@,
            FileEvent::Deleted => "deleted"@,
        }
    }

    pub fn as_str(&self) -> (r: &'static str)
        ensures
            r@ == self.wire(),
    {
        match self {
            FileEvent::Created => "created",
            FileEvent::Modified => "modified",
            FileEvent::Deleted => "deleted",
        }
    }

    /// The event whose wire name is `s`, if any.
    pub fn from_wire(s: &str) -> (r: Option<FileEvent>)
        ensures
            r matches Some(e) ==> e.wire() == s@,
            r is None ==> forall|e: FileEvent| #[trigger] e.wire() != s@,
    {
        if str_eq("created", s) {
            Some(FileEvent::Created)
        } else if str_eq("modified", s) {
            Some(FileEvent::Modified)
        } else if str_eq("deleted", s) {
            Some(FileEvent::Deleted)
        } else {
            proof {
                assert forall|e: FileEvent| #[trigger] e.wire() != s@ by {
                    match e {
                        FileEvent::Created => {},
                        FileEvent::Modified => {},
                        FileEvent::Deleted => {},
                    }
                }
            }
            None
        }
    }
}

/// The payload a `file-watch` trigger delivers.
#[derive(Debug, Clone)]
pub struct FileWatchCallRequest {
    pub event: String,
    pub path: String,
    pub size_bytes: Option<u64>,
}

/// Configuration of the `webhook` trigger type.
#[derive(Debug, Clone)]
pub struct WebhookTriggerConfig {
    /// URL to listen on for incoming webhooks.
    pub url: String,
    /// Optional secret for HMAC signature verification.
    pub secret: Option<String>,
    /// HTTP methods to accept (POST when absent).
    pub methods: Option<Vec<String>>,
}

/// The payload a `webhook` trigger delivers.
#[derive(Debug, Clone)]
pub struct WebhookCallRequest {
    /// HTTP method of the incoming webhook.
    pub method: String,
    /// Request headers, as key/value pairs.
    pub headers: Vec<(String, String)>,
    /// Request body.
    pub body: JsonValue,
    /// Whether the HMAC signature was verified.
    pub signature_verified: bool,
}

fn text_value(t: &str) -> (r: JsonValue)
    ensures
        r.model() == Json::Str(t@),
{
    JsonValue::Str(String::from_str(t))
}

/// The input of the example `echo` function.
#[derive(Debug, Clone)]
pub struct EchoInput {
    pub message: String,
    pub repeat: u32,
    pub uppercase: bool,
    pub prefix: String,
}

/// `s` written `n` times in a row.
pub open spec fn repeated(s: Seq<char>, n: nat) -> Seq<char>
    decreases n,
{
    if n == 0 {
        seq![]
    } else {
        repeated(s, (n - 1) as nat) + s
    }
}

/// What `str::to_uppercase` answers for a text.
pub uninterp spec fn unicode_uppercase(s: Seq<char>) -> Seq<char>;

/// The ASCII upper case of a character (others are kept).
pub open spec fn ascii_upper(c: char) -> char {
    if 'a' <= c <= 'z' {
        ((c as u32) - 32) as char
    } else {
        c
    }
}

/// `str::to_uppercase`: the text in upper case by Unicode's rules. On ASCII
/// text that is each letter in upper case; beyond ASCII the Unicode tables
/// decide (a character may become several), which is not restated here.
#[verifier::external_body]
fn uppercase(s: &str) -> (r: String)
    ensures
        r@ == unicode_uppercase(s@),
        (forall|i: int| 0 <= i < s@.len() ==> (#[trigger] s@[i] as u32) < 128) ==> r@ == s@.map_values(
            |c: char| ascii_upper(c),
        ),
{
    s.to_uppercase()
}

fn repeat_text(s: &str, n: u32) -> (r: String)
    ensures
        r@ == repeated(s@, n as nat),
{
    let mut r = String::new();
    let mut i: u32 = 0;
    while i < n
        invariant
            i <= n,
            r@ == repeated(s@, i as nat),
        decreases n - i,
    {
        r = r.concat(s);
        i += 1;
    }
    r
}

/// The text the example `echo` function answers: the prefix, then the
/// message repeated, upper-cased when asked.
pub open spec fn echo_text(input: EchoInput) -> Seq<char> {
    let body = repeated(input.message@, input.repeat as nat);
    input.prefix@ + if input.uppercase {
        unicode_uppercase(body)
    } else {
        body
    }
}

/// The example `echo` function: `{"echo": ...}`.
pub fn echo_message(input: EchoInput) -> (r: JsonValue)
    ensures
        r.model() == Json::Object(seq![("echo"@, Json::Str(echo_text(input)))]),
{
    let mut body = repeat_text(input.message.as_str(), input.repeat);
    if input.uppercase {
        body = uppercase(body.as_str());
    }
    let text = join2(input.prefix.as_str(), body.as_str());
    let mut m: Vec<(String, JsonValue)> = Vec::new();
    m.push((String::from_str("echo"), JsonValue::Str(text)));
    let r = object(m);
    assert(r.model()->Object_0 =~= seq![("echo"@, Json::Str(echo_text(input)))]);
    r
}

/// The input of the example `delay_echo` function.
#[derive(Debug, Clone)]
pub struct DelayEchoInput {
    pub message: String,
    pub delay_ms: u64,
    pub suffix: String,
}

/// What the example `delay_echo` function answers once its delay is over:
/// the message with its suffix, and the delay.
pub fn delay_echo_reply(input: &DelayEchoInput) -> (r: JsonValue)
    ensures
        r.model() == Json::Object(
            seq![
                ("echo"@, Json::Str(input.message@ + input.suffix@)),
                ("delayed_ms"@, Json::Number(decimal(input.delay_ms as nat))),
            ],
        ),
{
    let mut m: Vec<(String, JsonValue)> = Vec::new();
    m.push((String::from_str("echo"), JsonValue::Str(join2(input.message.as_str(), input.suffix.as_str()))));
    m.push((String::from_str("delayed_ms"), number_from_u64(input.delay_ms)));
    let r = object(m);
    assert(r.model()->Object_0 =~= seq![
        ("echo"@, Json::Str(input.message@ + input.suffix@)),
        ("delayed_ms"@, Json::Number(decimal(input.delay_ms as nat))),
    ]);
    r
}

/// The example webhook handler: it reports the request processed, with
/// its method and body.
pub fn handle_webhook(input: WebhookCallRequest) -> (r: JsonValue)
    ensures
        r.model() == Json::Object(
            seq![
                ("processed"@, Json::Bool(true)),
                ("method"@, Json::Str(input.method@)),
                ("body"@, input.body.model()),
            ],
        ),
{
    let ghost bm = input.body.model();
    let ghost mm = input.method@;
    let mut m: Vec<(String, JsonValue)> = Vec::new();
    m.push((String::from_str("processed"), JsonValue::Bool(true)));
    m.push((String::from_str("method"), JsonValue::Str(input.method)));
    m.push((String::from_str("body"), input.body));
    let r = object(m);
    assert(r.model()->Object_0 =~= seq![
        ("processed"@, Json::Bool(true)),
        ("method"@, Json::Str(mm)),
        ("body"@, bm),
    ]);
    r
}

/// A row of the engine's trigger type list.
#[derive(Debug, Clone)]
pub struct TriggerTypeRow {
    pub id: String,
    pub worker_name: String,
    pub description: String,
}

/// The row a list item describes, when it has the three texts.
pub open spec fn row_of(j: Json) -> Option<(Seq<char>, Seq<char>, Seq<char>)> {
    match (text_of(member(j, "id"@)), text_of(member(j, "worker_name"@)), text_of(member(j, "description"@))) {
        (Some(i), Some(w), Some(d)) => Some((i, w, d)),
        _ => None,
    }
}

/// The rows of the items, when every item is a row.
pub open spec fn rows_of(items: Seq<Json>) -> Option<Seq<(Seq<char>, Seq<char>, Seq<char>)>>
    decreases items.len(),
{
    if items.len() == 0 {
        Some(seq![])
    } else {
        match (rows_of(items.drop_last()), row_of(items.last())) {
            (Some(rs), Some(r)) => Some(rs.push(r)),
            _ => None,
        }
    }
}

/// The trigger types a catalog reply lists: the rows of its `triggers`
/// array, or none at all when that is missing or any item is not a row.
pub open spec fn catalog_rows(reply: Json) -> Seq<(Seq<char>, Seq<char>, Seq<char>)> {
    match member(reply, "triggers"@) {
        Some(Json::Array(items)) => match rows_of(items) {
            Some(rs) => rs,
            None => seq![],
        },
        _ => seq![],
    }
}

pub open spec fn row_view(r: TriggerTypeRow) -> (Seq<char>, Seq<char>, Seq<char>) {
    (r.id@, r.worker_name@, r.description@)
}

/// Read the trigger type rows of a catalog reply.
pub fn trigger_type_rows(reply: &JsonValue) -> (r: Vec<TriggerTypeRow>)
    ensures
        r@.map_values(|x: TriggerTypeRow| row_view(x)) == catalog_rows(reply.model()),
{
    let ghost mut listed: Seq<Json> = seq![];
    let items = match reply.get("triggers") {
        Some(v) => match v.as_array() {
            Some(items) => {
                assert(items@.map_values(|x: JsonValue| x.model()) =~= v.model()->Array_0);
                proof {
                    listed = v.model()->Array_0;
                }
                items
            },
            None => {
                let e: Vec<TriggerTypeRow> = Vec::new();
                assert(e@.map_values(|x: TriggerTypeRow| row_view(x)) =~= catalog_rows(reply.model()));
                return e;
            },
        },
        None => {
            let e: Vec<TriggerTypeRow> = Vec::new();
            assert(e@.map_values(|x: TriggerTypeRow| row_view(x)) =~= catalog_rows(reply.model()));
            return e;
        },
    };
    let ghost ms = items@.map_values(|x: JsonValue| x.model());
    assert(member(reply.model(), "triggers"@) == Some(Json::Array(ms)));
    let mut rows: Vec<TriggerTypeRow> = Vec::new();
    let mut i: usize = 0;
    while i < items.len()
        invariant
            i <= items@.len(),
            ms == items@.map_values(|x: JsonValue| x.model()),
            member(reply.model(), "triggers"@) == Some(Json::Array(ms)),
            rows@.len() == i,
            rows_of(ms.subrange(0, i as int)) == Some(rows@.map_values(|x: TriggerTypeRow| row_view(x))),
        decreases items.len() - i,
    {
        assert(ms.subrange(0, i as int + 1).drop_last() =~= ms.subrange(0, i as int));
        assert(ms.subrange(0, i as int + 1).last() == items@[i as int].model());
        let id = text_member(&items[i], "id");
        let worker = text_member(&items[i], "worker_name");
        let desc = text_member(&items[i], "description");
        match (id, worker, desc) {
            (Some(a), Some(b), Some(c)) => {
                let ghost before = rows@;
                rows.push(TriggerTypeRow { id: a, worker_name: b, description: c });
                assert(rows@.map_values(|x: TriggerTypeRow| row_view(x)) =~= before.map_values(
                    |x: TriggerTypeRow| row_view(x),
                ).push(row_view(rows@[i as int])));
            },
            _ => {
                let mut k: usize = i + 1;
                while k < items.len()
                    invariant
                        i < k <= items@.len(),
                        ms == items@.map_values(|x: JsonValue| x.model()),
                        member(reply.model(), "triggers"@) == Some(Json::Array(ms)),
                        rows_of(ms.subrange(0, k as int)) is None,
                    decreases items.len() - k,
                {
                    assert(ms.subrange(0, k as int + 1).drop_last() =~= ms.subrange(0, k as int));
                    k += 1;
                }
                assert(ms.subrange(0, items@.len() as int) =~= ms);
                let e: Vec<TriggerTypeRow> = Vec::new();
                assert(e@.map_values(|x: TriggerTypeRow| row_view(x)) =~= catalog_rows(reply.model()));
                return e;
            },
        }
        i += 1;
    }
    assert(ms.subrange(0, items@.len() as int) =~= ms);
    rows
}

/// The catalog line of one trigger type: `  [id] (worker) description`.
pub open spec fn catalog_line(r: (Seq<char>, Seq<char>, Seq<char>)) -> Seq<char> {
    "  ["@ + r.0 + "] ("@ + r.1 + ") "@ + r.2
}

/// The catalog's text, line by line: a count, then one line per type.
pub fn catalog_lines(rows: &Vec<TriggerTypeRow>) -> (r: Vec<String>)
    ensures
        r@.len() == rows@.len() + 1,
        r@[0]@ == "Found "@ + decimal(rows@.len() as nat) + " trigger types:\n"@,
        forall|k: int| 0 <= k < rows@.len() ==> (#[trigger] r@[k + 1])@ == catalog_line(row_view(rows@[k])),
{
    let count = string_from_chars(&crate::decimal::decimal_chars(rows.len() as u64));
    let mut lines: Vec<String> = Vec::new();
    lines.push(join2("Found ", count.as_str()).concat(" trigger types:\n"));
    let mut i: usize = 0;
    while i < rows.len()
        invariant
            i <= rows@.len(),
            lines@.len() == i + 1,
            lines@[0]@ == "Found "@ + decimal(rows@.len() as nat) + " trigger types:\n"@,
            forall|k: int| 0 <= k < i ==> (#[trigger] lines@[k + 1])@ == catalog_line(row_view(rows@[k])),
        decreases rows.len() - i,
    {
        let row = &rows[i];
        let line = join2("  [", row.id.as_str()).concat("] (").concat(row.worker_name.as_str()).concat(") ").concat(
            row.description.as_str(),
        );
        lines.push(line);
        i += 1;
    }
    lines
}

} // verus!
