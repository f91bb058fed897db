//! The sandbox daemon's file-system triggers (`mkdir`, `chmod`, `read`):
//! their requests and responses, the checks made before a sandbox is
//! touched, and how the supervisor's replies become responses or errors.

use vstd::arithmetic::power2::pow2;
use vstd::prelude::*;
use vstd::string::StringExecFns;

use std::collections::HashMap;

use crate::decimal::{decimal, decimal_chars};
use crate::json::{Json, JsonValue};
use crate::text::string_from_chars;
use crate::sandbox_errors::SandboxError;
use crate::text::join2;

verus! {

/// What `uuid::Uuid::parse_str` gives for a text, as the UUID's 128-bit
/// value (`None` when the text is not a UUID).
pub uninterp spec fn uuid_parse(s: Seq<char>) -> Option<u128>;

/// The `i`-th hexadecimal digit of `v`, counted from the most significant.
pub open spec fn nibble(v: u128, i: int) -> int {
    (v as int / pow2((4 * (31 - i)) as nat) as int) % 16
}

pub open spec fn lower_hex_digit(n: int) -> char {
    if n < 10 {
        (('0' as int) + n) as char
    } else {
        (('a' as int) + n - 10) as char
    }
}

/// The hyphenated lower-case form of a UUID: its 32 hexadecimal digits,
/// most significant first, in groups of 8-4-4-4-12.
pub open spec fn hyphenated(v: u128) -> Seq<char> {
    Seq::new(
        36,
        |i: int|
            if i == 8 || i == 13 || i == 18 || i == 23 {
                '-'
            } else {
                let d = if i < 8 {
                    i
                } else if i < 13 {
                    i - 1
                } else if i < 18 {
                    i - 2
                } else if i < 23 {
                    i - 3
                } else {
                    i - 4
                };
                lower_hex_digit(nibble(v, d))
            },
    )
}

/// `uuid::Uuid::parse_str`, giving the UUID's value. The parser accepts
/// only ASCII texts of 32 (simple), 36 (hyphenated), 38 (braced) or 45
/// (`urn:uuid:`) bytes; which of those it accepts digit by digit is not
/// restated here.
#[verifier::external_body]
fn parse_uuid(s: &str) -> (r: Option<u128>)
    ensures
        r == uuid_parse(s@),
        r is Some ==> (s@.len() == 32 || s@.len() == 36 || s@.len() == 38 || s@.len() == 45),
{
    match uuid::Uuid::parse_str(s) {
        Ok(u) => Some(u.as_u128()),
        Err(_) => None,
    }
}

/// `uuid::Uuid::from_u128(v).to_string()`: the hyphenated lower-case form,
/// which the parser reads back as the same value.
#[verifier::external_body]
fn uuid_text(v: u128) -> (r: String)
    ensures
        r@ == hyphenated(v),
        uuid_parse(r@) == Some(v),
{
    uuid::Uuid::from_u128(v).to_string()
}

/// The sandbox a request names, as a UUID value; `S001` when it is not a
/// UUID.
pub fn parse_sandbox_id(sandbox_id: &str) -> (r: Result<u128, SandboxError>)
    ensures
        uuid_parse(sandbox_id@) matches Some(v) ==> r == Ok::<u128, SandboxError>(v),
        uuid_parse(sandbox_id@) is None ==> (r matches Err(SandboxError::InvalidRequest(m)) && m@
            == "sandbox_id is not a valid UUID: "@ + sandbox_id@),
{
    match parse_uuid(sandbox_id) {
        Some(v) => Ok(v),
        None => Err(
            SandboxError::InvalidRequest(join2("sandbox_id is not a valid UUID: ", sandbox_id)),
        ),
    }
}

/// A sandbox that has been stopped takes no more file operations (`S004`,
/// naming it in hyphenated form).
pub fn check_not_stopped(id: u128, stopped: bool) -> (r: Result<(), SandboxError>)
    ensures
        !stopped ==> r is Ok,
        stopped ==> (r matches Err(SandboxError::AlreadyStopped(m)) && m@ == hyphenated(id)),
{
    if stopped {
        Err(SandboxError::AlreadyStopped(uuid_text(id)))
    } else {
        Ok(())
    }
}

/// The sandboxes the daemon knows of, by UUID value, each with whether it
/// has been stopped.
pub struct SandboxRegistry {
    sandboxes: HashMap<u128, bool>,
}

impl SandboxRegistry {
    /// Each known sandbox and whether it has been stopped.
    pub closed spec fn model(&self) -> Map<u128, bool> {
        self.sandboxes@
    }

    /// A registry that knows no sandbox.
    pub fn new() -> (r: Self)
        ensures
            r.model() == Map::<u128, bool>::empty(),
    {
        SandboxRegistry { sandboxes: HashMap::new() }
    }

    /// Record sandbox `id`, stopped or not (replacing what was known of it).
    pub fn insert(&mut self, id: u128, stopped: bool)
        ensures
            final(self).model() == old(self).model().insert(id, stopped),
    {
        broadcast use vstd::std_specs::hash::group_hash_axioms;

        self.sandboxes.insert(id, stopped);
    }

    /// Whether sandbox `id` has been stopped; `S002` (naming it in
    /// hyphenated form) when the daemon does not know it.
    pub fn stopped(&self, id: u128) -> (r: Result<bool, SandboxError>)
        ensures
            self.model().dom().contains(id) ==> r == Ok::<bool, SandboxError>(self.model()[id]),
            !self.model().dom().contains(id) ==> (r matches Err(SandboxError::NotFound(m)) && m@ == hyphenated(
                id,
            )),
    {
        broadcast use vstd::std_specs::hash::group_hash_axioms;

        match self.sandboxes.get(&id) {
            Some(s) => Ok(*s),
            None => Err(SandboxError::NotFound(uuid_text(id))),
        }
    }

    /// The checks a file-system trigger makes before it touches a sandbox:
    /// the id must be a UUID (`S001`), of a sandbox the daemon knows
    /// (`S002`), which has not been stopped (`S004`). Gives the UUID value.
    pub fn guard(&self, sandbox_id: &str) -> (r: Result<u128, SandboxError>)
        ensures
            uuid_parse(sandbox_id@) is None ==> (r matches Err(SandboxError::InvalidRequest(m)) && m@
                == "sandbox_id is not a valid UUID: "@ + sandbox_id@),
            uuid_parse(sandbox_id@) matches Some(v) ==> ({
                &&& !self.model().dom().contains(v) ==> (r matches Err(SandboxError::NotFound(m)) && m@
                    == hyphenated(v))
                &&& self.model().dom().contains(v) && self.model()[v] ==> (r matches Err(
                    SandboxError::AlreadyStopped(m),
                ) && m@ == hyphenated(v))
                &&& self.model().dom().contains(v) && !self.model()[v] ==> r == Ok::<u128, SandboxError>(v)
            }),
    {
        let id = parse_sandbox_id(sandbox_id)?;
        let stopped = self.stopped(id)?;
        check_not_stopped(id, stopped)?;
        Ok(id)
    }
}

/// Mode of a directory created without one: `0755`.
pub fn default_mode() -> (r: String)
    ensures
        r@ == "0755"@,
{
    String::from_str("0755")
}

/// Request of `sandbox::fs::mkdir`.
#[derive(Debug, Clone)]
pub struct MkdirRequest {
    pub sandbox_id: String,
    pub path: String,
    /// [`default_mode`] when absent.
    pub mode: String,
    /// `false` when absent.
    pub parents: bool,
}

/// Response of `sandbox::fs::mkdir`.
#[derive(Debug, Clone, Copy, PartialEq, Eq, Structural)]
pub struct MkdirResponse {
    pub created: bool,
}

/// Request of `sandbox::fs::chmod`.
#[derive(Debug, Clone)]
pub struct ChmodRequest {
    pub sandbox_id: String,
    pub path: String,
    pub mode: String,
    pub uid: Option<u32>,
    pub gid: Option<u32>,
    /// `false` when absent.
    pub recursive: bool,
}

/// Response of `sandbox::fs::chmod`.
#[derive(Debug, Clone, Copy, PartialEq, Eq, Structural)]
pub struct ChmodResponse {
    pub updated: u64,
}

/// Request of `sandbox::fs::read`.
#[derive(Debug, Clone)]
pub struct ReadRequest {
    pub sandbox_id: String,
    pub path: String,
}

/// The file-system operations sent to a sandbox's supervisor.
#[derive(Debug, Clone)]
pub enum FsOperation {
    Mkdir { path: String, mode: String, parents: bool },
    Chmod { path: String, mode: String, uid: Option<u32>, gid: Option<u32>, recursive: bool },
}

/// The supervisor's reply to an operation: the kinds the triggers expect,
/// or another one, given by its debug text.
#[derive(Debug, Clone)]
pub enum FsReply {
    Mkdir { created: bool },
    Chmod { updated: u64 },
    Other(String),
}

/// The operation a mkdir request sends.
pub fn mkdir_operation(req: MkdirRequest) -> (r: FsOperation)
    ensures
        r matches FsOperation::Mkdir { path, mode, parents } && path@ == req.path@ && mode@
            == req.mode@ && parents == req.parents,
{
    FsOperation::Mkdir { path: req.path, mode: req.mode, parents: req.parents }
}

/// The operation a chmod request sends.
pub fn chmod_operation(req: ChmodRequest) -> (r: FsOperation)
    ensures
        r matches FsOperation::Chmod { path, mode, uid, gid, recursive } && path@ == req.path@
            && mode@ == req.mode@ && uid == req.uid && gid == req.gid && recursive == req.recursive,
{
    FsOperation::Chmod {
        path: req.path,
        mode: req.mode,
        uid: req.uid,
        gid: req.gid,
        recursive: req.recursive,
    }
}

/// The text of a reply of the wrong kind: its debug form.
pub open spec fn reply_text(reply: FsReply) -> Seq<char> {
    match reply {
        FsReply::Mkdir { created } => if created {
            "Mkdir { created: true }"@
        } else {
            "Mkdir { created: false }"@
        },
        FsReply::Chmod { updated } => "Chmod { updated: "@ + decimal(updated as nat) + " }"@,
        FsReply::Other(t) => t@,
    }
}

fn reply_debug(reply: &FsReply) -> (r: String)
    ensures
        r@ == reply_text(*reply),
{
    match reply {
        FsReply::Mkdir { created } => if *created {
            String::from_str("Mkdir { created: true }")
        } else {
            String::from_str("Mkdir { created: false }")
        },
        FsReply::Chmod { updated } => {
            let digits = string_from_chars(&decimal_chars(*updated));
            join2("Chmod { updated: ", digits.as_str()).concat(" }")
        },
        FsReply::Other(t) => t.clone(),
    }
}

/// The mkdir response for a supervisor reply: a mkdir reply gives its
/// `created` flag; any other reply is an I/O error (`S216`).
pub fn mkdir_response(reply: FsReply) -> (r: Result<MkdirResponse, SandboxError>)
    ensures
        reply matches FsReply::Mkdir { created } ==> r == Ok::<MkdirResponse, SandboxError>(
            MkdirResponse { created },
        ),
        !(reply is Mkdir) ==> (r matches Err(SandboxError::FsIo(m)) && m@
            == "expected Mkdir result, got "@ + reply_text(reply)),
{
    match reply {
        FsReply::Mkdir { created } => Ok(MkdirResponse { created }),
        other => {
            let text = reply_debug(&other);
            Err(SandboxError::FsIo(join2("expected Mkdir result, got ", text.as_str())))
        },
    }
}

/// The chmod response for a supervisor reply: a chmod reply gives its
/// `updated` count; any other reply is an I/O error (`S216`).
pub fn chmod_response(reply: FsReply) -> (r: Result<ChmodResponse, SandboxError>)
    ensures
        reply matches FsReply::Chmod { updated } ==> r == Ok::<ChmodResponse, SandboxError>(
            ChmodResponse { updated },
        ),
        !(reply is Chmod) ==> (r matches Err(SandboxError::FsIo(m)) && m@
            == "expected Chmod result, got "@ + reply_text(reply)),
{
    match reply {
        FsReply::Chmod { updated } => Ok(ChmodResponse { updated }),
        other => {
            let text = reply_debug(&other);
            Err(SandboxError::FsIo(join2("expected Chmod result, got ", text.as_str())))
        },
    }
}

/// The error when no channel could be opened for a download.
pub fn channel_failure(reason: &str) -> (r: SandboxError)
    ensures
        r matches SandboxError::FsIo(m) && m@ == "create_channel: "@ + reason@,
{
    SandboxError::FsIo(join2("create_channel: ", reason))
}

/// Size of the buffer a download is pumped through: 64 KiB.
pub const PUMP_BUFFER_BYTES: usize = 65536;

/// Capacity asked for the download channel.
pub const CHANNEL_CAPACITY: usize = 64;

/// What one read of the file stream gave.
#[derive(Debug, Clone)]
pub enum ReadOutcome {
    /// End of file.
    Eof,
    /// This many bytes were read into the buffer.
    Bytes(usize),
    /// The read failed, with this message.
    Failed(String),
}

/// What the download pump does next.
#[derive(Debug, Clone)]
pub enum PumpAction {
    /// Close the channel and stop.
    Close,
    /// Write the first `n` bytes of the buffer to the channel.
    Write(usize),
    /// Send this JSON text on the channel, close it and stop.
    FailAndClose(JsonValue),
}

/// The message sent on the channel when the pump fails: `{"error": text}`.
pub open spec fn error_message(text: Seq<char>) -> Json {
    Json::Object(seq![("error"@, Json::Str(text))])
}

fn error_value(text: String) -> (r: JsonValue)
    ensures
        r.model() == error_message(text@),
{
    let ghost t = text@;
    let key = String::from_str("error");
    let mut members: Vec<(String, JsonValue)> = Vec::new();
    members.push((key, JsonValue::Str(text)));
    let r = JsonValue::Object(members);
    assert(members@[0].0@ == "error"@);
    assert(members@[0].1.model() == Json::Str(t));
    assert(r.model()->Object_0[0] == ("error"@, Json::Str(t)));
    assert(r.model()->Object_0 =~= seq![("error"@, Json::Str(t))]);
    r
}

/// The pump's step after a read: close at end of file (a read of no
/// bytes is one), write what was read, or report the read failure and
/// close.
pub fn pump_after_read(outcome: ReadOutcome) -> (r: PumpAction)
    ensures
        outcome is Eof ==> r is Close,
        outcome matches ReadOutcome::Bytes(n) ==> (if n == 0 {
            r is Close
        } else {
            r == PumpAction::Write(n)
        }),
        outcome matches ReadOutcome::Failed(e) ==> (r matches PumpAction::FailAndClose(m)
            && m.model() == error_message("read from supervisor failed: "@ + e@)),
{
    match outcome {
        ReadOutcome::Eof => PumpAction::Close,
        ReadOutcome::Bytes(0) => PumpAction::Close,
        ReadOutcome::Bytes(n) => PumpAction::Write(n),
        ReadOutcome::Failed(e) => PumpAction::FailAndClose(
            error_value(join2("read from supervisor failed: ", e.as_str())),
        ),
    }
}

/// The pump's step after a write: carry on reading, or report the write
/// failure and close.
pub fn pump_after_write(outcome: Result<(), String>) -> (r: Option<PumpAction>)
    ensures
        outcome is Ok ==> r is None,
        outcome matches Err(e) ==> (r matches Some(PumpAction::FailAndClose(m)) && m.model()
            == error_message("write to channel failed: "@ + e@)),
{
    match outcome {
        Ok(()) => None,
        Err(e) => Some(
            PumpAction::FailAndClose(error_value(join2("write to channel failed: ", e.as_str()))),
        ),
    }
}

} // verus!
