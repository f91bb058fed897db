//! S* family error codes for the sandbox subsystem.
//!
//! The wire payload mirrors the Stripe-style shape
//! `{ type, code, message, docs_url, retryable }`, as a JSON object and as
//! its JSON text.

use vstd::prelude::*;
use vstd::string::StringExecFns;

use crate::decimal::{decimal, decimal_chars};
use crate::json::{Json, JsonValue};
use crate::payload::{json_text, serialize};
use crate::text::push_char;

verus! {

/// Base of the per-code documentation links.
pub const DOCS_BASE: &'static str = "https://iii.dev/docs/errors/sandbox/";

#[derive(Debug, Clone, Copy, PartialEq, Eq, Structural)]
pub enum SandboxErrorCode {
    S001,
    S002,
    S003,
    S004,
    S100,
    S101,
    S102,
    S200,
    S210,
    S211,
    S212,
    S213,
    S214,
    S215,
    S216,
    S217,
    S218,
    S219,
    S300,
    S400,
}

impl SandboxErrorCode {
    /// The wire text of the code (`"S001"`, ...).
    pub open spec fn text(self) -> Seq<char> {
        match self {
            SandboxErrorCode::S001 => "S001"@,
            SandboxErrorCode::S002 => "S002"@,
            SandboxErrorCode::S003 => "S003"@,
            SandboxErrorCode::S004 => "S004"@,
            SandboxErrorCode::S100 => "S100"@,
            SandboxErrorCode::S101 => "S101"@,
            SandboxErrorCode::S102 => "S102"@,
            SandboxErrorCode::S200 => "S200"@,
            SandboxErrorCode::S210 => "S210"@,
            SandboxErrorCode::S211 => "S211"@,
            SandboxErrorCode::S212 => "S212"@,
            SandboxErrorCode::S213 => "S213"@,
            SandboxErrorCode::S214 => "S214"@,
            SandboxErrorCode::S215 => "S215"@,
            SandboxErrorCode::S216 => "S216"@,
            SandboxErrorCode::S217 => "S217"@,
            SandboxErrorCode::S218 => "S218"@,
            SandboxErrorCode::S219 => "S219"@,
            SandboxErrorCode::S300 => "S300"@,
            SandboxErrorCode::S400 => "S400"@,
        }
    }

    /// The error category a code belongs to.
    pub open spec fn type_text(self) -> Seq<char> {
        match self {
            SandboxErrorCode::S001 | SandboxErrorCode::S002 | SandboxErrorCode::S003
            | SandboxErrorCode::S004 => "validation"@,
            SandboxErrorCode::S100 | SandboxErrorCode::S400 => "config"@,
            SandboxErrorCode::S101 => "internal"@,
            SandboxErrorCode::S102 | SandboxErrorCode::S218 => "transient"@,
            SandboxErrorCode::S200 => "execution"@,
            SandboxErrorCode::S300 => "platform"@,
            _ => "filesystem"@,
        }
    }

    /// Whether a caller may retry the same request unchanged.
    pub open spec fn is_retryable(self) -> bool {
        self == SandboxErrorCode::S102 || self == SandboxErrorCode::S218
    }

    pub fn as_str(&self) -> (s: &'static str)
        ensures
            s@ == self.text(),
    {
        match self {
            SandboxErrorCode::S001 => "S001",
            SandboxErrorCode::S002 => "S002",
            SandboxErrorCode::S003 => "S003",
            SandboxErrorCode::S004 => "S004",
            SandboxErrorCode::S100 => "S100",
            SandboxErrorCode::S101 => "S101",
            SandboxErrorCode::S102 => "S102",
            SandboxErrorCode::S200 => "S200",
            SandboxErrorCode::S210 => "S210",
            SandboxErrorCode::S211 => "S211",
            SandboxErrorCode::S212 => "S212",
            SandboxErrorCode::S213 => "S213",
            SandboxErrorCode::S214 => "S214",
            SandboxErrorCode::S215 => "S215",
            SandboxErrorCode::S216 => "S216",
            SandboxErrorCode::S217 => "S217",
            SandboxErrorCode::S218 => "S218",
            SandboxErrorCode::S219 => "S219",
            SandboxErrorCode::S300 => "S300",
            SandboxErrorCode::S400 => "S400",
        }
    }

    pub fn error_type(&self) -> (s: &'static str)
        ensures
            s@ == self.type_text(),
    {
        match self {
            SandboxErrorCode::S001 | SandboxErrorCode::S002 | SandboxErrorCode::S003
            | SandboxErrorCode::S004 => "validation",
            SandboxErrorCode::S100 | SandboxErrorCode::S400 => "config",
            SandboxErrorCode::S101 => "internal",
            SandboxErrorCode::S102 | SandboxErrorCode::S218 => "transient",
            SandboxErrorCode::S200 => "execution",
            SandboxErrorCode::S210 | SandboxErrorCode::S211 | SandboxErrorCode::S212
            | SandboxErrorCode::S213 | SandboxErrorCode::S214 | SandboxErrorCode::S215
            | SandboxErrorCode::S216 | SandboxErrorCode::S217
            | SandboxErrorCode::S219 => "filesystem",
            SandboxErrorCode::S300 => "platform",
        }
    }

    pub fn retryable(&self) -> (r: bool)
        ensures
            r == self.is_retryable(),
    {
        match self {
            SandboxErrorCode::S102 | SandboxErrorCode::S218 => true,
            _ => false,
        }
    }
}

/// The kind of an I/O failure, as far as the S21x classification reads it.
#[derive(Debug, Clone, Copy, PartialEq, Eq, Structural)]
pub enum IoErrorKind {
    NotFound,
    AlreadyExists,
    PermissionDenied,
    Other,
}

/// An I/O failure: its kind and its display text.
#[derive(Debug, Clone)]
pub struct IoFailure {
    pub kind: IoErrorKind,
    pub message: String,
}

#[derive(Debug, Clone)]
pub enum SandboxError {
    InvalidRequest(String),
    NotFound(String),
    ConcurrentExec(String),
    AlreadyStopped(String),
    ImageNotInCatalog { image: String },
    RootfsMissing { image: String },
    AutoInstallFailed { image: String, reason: String },
    ExecTimedOut { timeout_ms: u64 },
    /// The VM itself failed to boot (or its shell socket became unreachable
    /// mid-session). Per-exec spawn failures on a healthy VM are not this.
    BootFailed(String),
    ResourceLimit(String),
    // The Fs* variants carry the supervisor's verbatim message; their text
    // is that message unchanged.
    FsInvalidRequest(String),
    FsNotFound { path: String },
    FsWrongType { path: String },
    FsAlreadyExists { path: String },
    FsNotEmpty { path: String },
    FsPermission(String),
    FsIo(String),
    FsRegex(String),
    FsChannelAborted(String),
    FsUnsupported,
}

/// The structured error body every SDK caller receives.
#[derive(Debug, Clone)]
pub struct SandboxErrorPayload {
    pub error_type: String,
    pub code: String,
    pub message: String,
    pub docs_url: String,
    pub retryable: bool,
}

/// Wrapper whose display form is the JSON of [`SandboxError::to_payload`].
#[derive(Debug, Clone)]
pub struct SandboxErrorWire(pub SandboxError);

impl SandboxError {
    /// The wire code of each variant.
    pub open spec fn code_of(self) -> SandboxErrorCode {
        match self {
            SandboxError::InvalidRequest(_) => SandboxErrorCode::S001,
            SandboxError::NotFound(_) => SandboxErrorCode::S002,
            SandboxError::ConcurrentExec(_) => SandboxErrorCode::S003,
            SandboxError::AlreadyStopped(_) => SandboxErrorCode::S004,
            SandboxError::ImageNotInCatalog { .. } => SandboxErrorCode::S100,
            SandboxError::RootfsMissing { .. } => SandboxErrorCode::S101,
            SandboxError::AutoInstallFailed { .. } => SandboxErrorCode::S102,
            SandboxError::ExecTimedOut { .. } => SandboxErrorCode::S200,
            SandboxError::FsInvalidRequest(_) => SandboxErrorCode::S210,
            SandboxError::FsNotFound { .. } => SandboxErrorCode::S211,
            SandboxError::FsWrongType { .. } => SandboxErrorCode::S212,
            SandboxError::FsAlreadyExists { .. } => SandboxErrorCode::S213,
            SandboxError::FsNotEmpty { .. } => SandboxErrorCode::S214,
            SandboxError::FsPermission(_) => SandboxErrorCode::S215,
            SandboxError::FsIo(_) => SandboxErrorCode::S216,
            SandboxError::FsRegex(_) => SandboxErrorCode::S217,
            SandboxError::FsChannelAborted(_) => SandboxErrorCode::S218,
            SandboxError::FsUnsupported => SandboxErrorCode::S219,
            SandboxError::BootFailed(_) => SandboxErrorCode::S300,
            SandboxError::ResourceLimit(_) => SandboxErrorCode::S400,
        }
    }

    /// The human-readable text of each variant.
    pub open spec fn message_text(self) -> Seq<char> {
        match self {
            SandboxError::InvalidRequest(s) => "invalid request: "@ + s@,
            SandboxError::NotFound(s) => "sandbox not found: "@ + s@,
            SandboxError::ConcurrentExec(s) => "concurrent exec on sandbox "@ + s@
                + "; await the previous exec before firing another"@,
            SandboxError::AlreadyStopped(s) => "sandbox already stopped: "@ + s@,
            SandboxError::ImageNotInCatalog { image } => "image '"@ + image@
                + "' not in catalog; valid presets are 'python' and 'node', or add a custom image via worker config (see S100 docs)"@,
            SandboxError::RootfsMissing { image } => "rootfs missing on disk for image '"@
                + image@ + "'. Run: iii worker add <image-ref> (see S101 docs)"@,
            SandboxError::AutoInstallFailed { image, reason } => "auto-install failed for image '"@
                + image@ + "': "@ + reason@,
            SandboxError::ExecTimedOut { timeout_ms } => "exec timed out after "@ + decimal(
                timeout_ms as nat,
            ) + " ms"@,
            SandboxError::BootFailed(s) => "VM boot failed: "@ + s@,
            SandboxError::ResourceLimit(s) => "resource limit exceeded: "@ + s@,
            SandboxError::FsInvalidRequest(s) => s@,
            SandboxError::FsNotFound { path } => path@,
            SandboxError::FsWrongType { path } => path@,
            SandboxError::FsAlreadyExists { path } => path@,
            SandboxError::FsNotEmpty { path } => path@,
            SandboxError::FsPermission(s) => s@,
            SandboxError::FsIo(s) => s@,
            SandboxError::FsRegex(s) => s@,
            SandboxError::FsChannelAborted(s) => s@,
            SandboxError::FsUnsupported =>
                "fs operation unsupported by this sandbox supervisor; upgrade iii-worker to enable fs::* triggers (see S219 docs)"@,
        }
    }

    // Code assignments are the wire ABI surfaced to SDK callers; changing any
    // arm silently changes the S-code every SDK user sees.
    pub fn code(&self) -> (c: SandboxErrorCode)
        ensures
            c == self.code_of(),
    {
        match self {
            SandboxError::InvalidRequest(_) => SandboxErrorCode::S001,
            SandboxError::NotFound(_) => SandboxErrorCode::S002,
            SandboxError::ConcurrentExec(_) => SandboxErrorCode::S003,
            SandboxError::AlreadyStopped(_) => SandboxErrorCode::S004,
            SandboxError::ImageNotInCatalog { .. } => SandboxErrorCode::S100,
            SandboxError::RootfsMissing { .. } => SandboxErrorCode::S101,
            SandboxError::AutoInstallFailed { .. } => SandboxErrorCode::S102,
            SandboxError::ExecTimedOut { .. } => SandboxErrorCode::S200,
            SandboxError::FsInvalidRequest(_) => SandboxErrorCode::S210,
            SandboxError::FsNotFound { .. } => SandboxErrorCode::S211,
            SandboxError::FsWrongType { .. } => SandboxErrorCode::S212,
            SandboxError::FsAlreadyExists { .. } => SandboxErrorCode::S213,
            SandboxError::FsNotEmpty { .. } => SandboxErrorCode::S214,
            SandboxError::FsPermission(_) => SandboxErrorCode::S215,
            SandboxError::FsIo(_) => SandboxErrorCode::S216,
            SandboxError::FsRegex(_) => SandboxErrorCode::S217,
            SandboxError::FsChannelAborted(_) => SandboxErrorCode::S218,
            SandboxError::FsUnsupported => SandboxErrorCode::S219,
            SandboxError::BootFailed(_) => SandboxErrorCode::S300,
            SandboxError::ResourceLimit(_) => SandboxErrorCode::S400,
        }
    }

    /// The error's display text.
    pub fn message(&self) -> (s: String)
        ensures
            s@ == self.message_text(),
    {
        match self {
            SandboxError::InvalidRequest(s) => String::from_str("invalid request: ").concat(
                s.as_str(),
            ),
            SandboxError::NotFound(s) => String::from_str("sandbox not found: ").concat(s.as_str()),
            SandboxError::ConcurrentExec(s) => String::from_str(
                "concurrent exec on sandbox ",
            ).concat(s.as_str()).concat("; await the previous exec before firing another"),
            SandboxError::AlreadyStopped(s) => String::from_str("sandbox already stopped: ").concat(
                s.as_str(),
            ),
            SandboxError::ImageNotInCatalog { image } => String::from_str("image '").concat(
                image.as_str(),
            ).concat(
                "' not in catalog; valid presets are 'python' and 'node', or add a custom image via worker config (see S100 docs)",
            ),
            SandboxError::RootfsMissing { image } => String::from_str(
                "rootfs missing on disk for image '",
            ).concat(image.as_str()).concat("'. Run: iii worker add <image-ref> (see S101 docs)"),
            SandboxError::AutoInstallFailed { image, reason } => String::from_str(
                "auto-install failed for image '",
            ).concat(image.as_str()).concat("': ").concat(reason.as_str()),
            SandboxError::ExecTimedOut { timeout_ms } => {
                let mut s = String::from_str("exec timed out after ");
                let digits = decimal_chars(*timeout_ms);
                let mut i: usize = 0;
                let ghost start = s@;
                while i < digits.len()
                    invariant
                        i <= digits.len(),
                        s@ == start + digits@.take(i as int),
                    decreases digits.len() - i,
                {
                    push_char(&mut s, digits[i]);
                    assert(digits@.take(i as int + 1) == digits@.take(i as int).push(digits@[i as int]));
                    i += 1;
                }
                assert(digits@.take(digits.len() as int) == digits@);
                s.concat(" ms")
            },
            SandboxError::BootFailed(s) => String::from_str("VM boot failed: ").concat(s.as_str()),
            SandboxError::ResourceLimit(s) => String::from_str("resource limit exceeded: ").concat(
                s.as_str(),
            ),
            SandboxError::FsInvalidRequest(s) => s.clone(),
            SandboxError::FsNotFound { path } => path.clone(),
            SandboxError::FsWrongType { path } => path.clone(),
            SandboxError::FsAlreadyExists { path } => path.clone(),
            SandboxError::FsNotEmpty { path } => path.clone(),
            SandboxError::FsPermission(s) => s.clone(),
            SandboxError::FsIo(s) => s.clone(),
            SandboxError::FsRegex(s) => s.clone(),
            SandboxError::FsChannelAborted(s) => s.clone(),
            SandboxError::FsUnsupported => String::from_str(
                "fs operation unsupported by this sandbox supervisor; upgrade iii-worker to enable fs::* triggers (see S219 docs)",
            ),
        }
    }

    /// The structured wire payload of this error.
    pub fn to_payload(&self) -> (p: SandboxErrorPayload)
        ensures
            p.error_type@ == self.code_of().type_text(),
            p.code@ == self.code_of().text(),
            p.message@ == self.message_text(),
            p.docs_url@ == DOCS_BASE@ + self.code_of().text(),
            p.retryable == self.code_of().is_retryable(),
    {
        let code = self.code();
        SandboxErrorPayload {
            error_type: String::from_str(code.error_type()),
            code: String::from_str(code.as_str()),
            message: self.message(),
            docs_url: String::from_str(DOCS_BASE).concat(code.as_str()),
            retryable: code.retryable(),
        }
    }

    pub fn image_not_in_catalog(image: &str) -> (e: SandboxError)
        ensures
            e matches SandboxError::ImageNotInCatalog { image: i } && i@ == image@,
    {
        SandboxError::ImageNotInCatalog { image: String::from_str(image) }
    }

    pub fn auto_install_failed(image: &str, reason: &str) -> (e: SandboxError)
        ensures
            e matches SandboxError::AutoInstallFailed { image: i, reason: r } && i@ == image@
                && r@ == reason@,
    {
        SandboxError::AutoInstallFailed {
            image: String::from_str(image),
            reason: String::from_str(reason),
        }
    }

    pub fn exec_timed_out(timeout_ms: u64) -> (e: SandboxError)
        ensures
            e == (SandboxError::ExecTimedOut { timeout_ms }),
    {
        SandboxError::ExecTimedOut { timeout_ms }
    }

    /// An `FsNotFound` error for `path`.
    pub fn fs_not_found(path: &str) -> (e: SandboxError)
        ensures
            e matches SandboxError::FsNotFound { path: p } && p@ == path@,
    {
        SandboxError::FsNotFound { path: String::from_str(path) }
    }

    /// An `FsWrongType` error for `path`.
    pub fn fs_wrong_type(path: &str) -> (e: SandboxError)
        ensures
            e matches SandboxError::FsWrongType { path: p } && p@ == path@,
    {
        SandboxError::FsWrongType { path: String::from_str(path) }
    }

    /// An `FsAlreadyExists` error for `path`.
    pub fn fs_already_exists(path: &str) -> (e: SandboxError)
        ensures
            e matches SandboxError::FsAlreadyExists { path: p } && p@ == path@,
    {
        SandboxError::FsAlreadyExists { path: String::from_str(path) }
    }

    /// An `FsNotEmpty` error for `path`.
    pub fn fs_not_empty(path: &str) -> (e: SandboxError)
        ensures
            e matches SandboxError::FsNotEmpty { path: p } && p@ == path@,
    {
        SandboxError::FsNotEmpty { path: String::from_str(path) }
    }

    /// Classify an I/O failure on `path` into the closest S21x variant, so
    /// the wire-level S-code is stable.
    pub fn from_io(path: &str, err: IoFailure) -> (e: SandboxError)
        ensures
            err.kind == IoErrorKind::NotFound ==> (e matches SandboxError::FsNotFound { path: p }
                && p@ == path@),
            err.kind == IoErrorKind::AlreadyExists ==> (
            e matches SandboxError::FsAlreadyExists { path: p } && p@ == path@),
            err.kind == IoErrorKind::PermissionDenied ==> (e matches SandboxError::FsPermission(m)
                && m@ == path@ + ": "@ + err.message@),
            err.kind == IoErrorKind::Other ==> (e matches SandboxError::FsIo(m) && m@ == path@
                + ": "@ + err.message@),
    {
        match err.kind {
            IoErrorKind::NotFound => Self::fs_not_found(path),
            IoErrorKind::AlreadyExists => Self::fs_already_exists(path),
            IoErrorKind::PermissionDenied => SandboxError::FsPermission(
                String::from_str(path).concat(": ").concat(err.message.as_str()),
            ),
            IoErrorKind::Other => SandboxError::FsIo(
                String::from_str(path).concat(": ").concat(err.message.as_str()),
            ),
        }
    }
}

impl From<SandboxError> for SandboxErrorWire {
    fn from(err: SandboxError) -> (w: SandboxErrorWire) {
        SandboxErrorWire(err)
    }
}

impl vstd::std_specs::convert::FromSpecImpl<SandboxError> for SandboxErrorWire {
    open spec fn obeys_from_spec() -> bool {
        true
    }

    open spec fn from_spec(v: SandboxError) -> SandboxErrorWire {
        SandboxErrorWire(v)
    }
}

impl SandboxErrorWire {
    /// The payload whose JSON is this wrapper's display form.
    pub fn payload(&self) -> (p: SandboxErrorPayload)
        ensures
            p.code@ == self.0.code_of().text(),
            p.error_type@ == self.0.code_of().type_text(),
            p.message@ == self.0.message_text(),
            p.docs_url@ == DOCS_BASE@ + self.0.code_of().text(),
            p.retryable == self.0.code_of().is_retryable(),
    {
        self.0.to_payload()
    }
}

/// The JSON object of a payload's fields: `type`, `code`, `message`,
/// `docs_url` and `retryable`, in that order.
pub open spec fn payload_object(
    error_type: Seq<char>,
    code: Seq<char>,
    message: Seq<char>,
    docs_url: Seq<char>,
    retryable: bool,
) -> Json {
    Json::Object(
        seq![
            ("type"@, Json::Str(error_type)),
            ("code"@, Json::Str(code)),
            ("message"@, Json::Str(message)),
            ("docs_url"@, Json::Str(docs_url)),
            ("retryable"@, Json::Bool(retryable)),
        ],
    )
}

/// The JSON body callers receive for a sandbox error.
pub open spec fn error_body(e: SandboxError) -> Json {
    payload_object(
        e.code_of().type_text(),
        e.code_of().text(),
        e.message_text(),
        DOCS_BASE@ + e.code_of().text(),
        e.code_of().is_retryable(),
    )
}

impl SandboxErrorPayload {
    /// The payload as a JSON object.
    pub fn to_json(&self) -> (r: JsonValue)
        ensures
            r.model() == payload_object(
                self.error_type@,
                self.code@,
                self.message@,
                self.docs_url@,
                self.retryable,
            ),
    {
        let mut m: Vec<(String, JsonValue)> = Vec::new();
        m.push((String::from_str("type"), JsonValue::Str(self.error_type.clone())));
        m.push((String::from_str("code"), JsonValue::Str(self.code.clone())));
        m.push((String::from_str("message"), JsonValue::Str(self.message.clone())));
        m.push((String::from_str("docs_url"), JsonValue::Str(self.docs_url.clone())));
        m.push((String::from_str("retryable"), JsonValue::Bool(self.retryable)));
        assert(m@[0].0@ == "type"@ && m@[0].1.model() == Json::Str(self.error_type@));
        assert(m@[1].0@ == "code"@ && m@[1].1.model() == Json::Str(self.code@));
        assert(m@[2].0@ == "message"@ && m@[2].1.model() == Json::Str(self.message@));
        assert(m@[3].0@ == "docs_url"@ && m@[3].1.model() == Json::Str(self.docs_url@));
        assert(m@[4].0@ == "retryable"@ && m@[4].1.model() == Json::Bool(self.retryable));
        let r = JsonValue::Object(m);
        proof {
            assert(r.model()->Object_0 =~= payload_object(
                self.error_type@,
                self.code@,
                self.message@,
                self.docs_url@,
                self.retryable,
            )->Object_0);
        }
        r
    }
}

impl SandboxError {
    /// The JSON body callers receive for this error.
    pub fn to_json(&self) -> (r: JsonValue)
        ensures
            r.model() == error_body(*self),
    {
        self.to_payload().to_json()
    }
}

impl SandboxErrorWire {
    /// The display form of a wire error: the JSON text of its body.
    pub fn to_text(&self) -> (r: String)
        ensures
            r@ == json_text(error_body(self.0)),
    {
        let body = self.0.to_json();
        serialize(&body)
    }
}

/// The error category of each code: S001-S004 `validation`, S100 and S400
/// `config`, S101 `internal`, S102 and S218 `transient`, S200 `execution`,
/// S210-S217 and S219 `filesystem`, S300 `platform`; only S102 and S218
/// may be retried unchanged.
pub proof fn error_types_follow_the_table(c: SandboxErrorCode)
    ensures
        (c == SandboxErrorCode::S001 || c == SandboxErrorCode::S002 || c == SandboxErrorCode::S003 || c
            == SandboxErrorCode::S004) ==> c.type_text() == "validation"@,
        (c == SandboxErrorCode::S100 || c == SandboxErrorCode::S400) ==> c.type_text() == "config"@,
        c == SandboxErrorCode::S101 ==> c.type_text() == "internal"@,
        (c == SandboxErrorCode::S102 || c == SandboxErrorCode::S218) ==> c.type_text() == "transient"@,
        c == SandboxErrorCode::S200 ==> c.type_text() == "execution"@,
        (c == SandboxErrorCode::S210 || c == SandboxErrorCode::S211 || c == SandboxErrorCode::S212 || c
            == SandboxErrorCode::S213 || c == SandboxErrorCode::S214 || c == SandboxErrorCode::S215 || c
            == SandboxErrorCode::S216 || c == SandboxErrorCode::S217 || c == SandboxErrorCode::S219)
            ==> c.type_text() == "filesystem"@,
        c == SandboxErrorCode::S300 ==> c.type_text() == "platform"@,
        c.is_retryable() <==> (c == SandboxErrorCode::S102 || c == SandboxErrorCode::S218),
{
}

/// Each code's wire text is its own name: `S001` for S001, ..., `S400`
/// for S400.
pub proof fn code_texts_are_their_names(c: SandboxErrorCode)
    ensures
        c == SandboxErrorCode::S001 ==> c.text() == "S001"@,
        c == SandboxErrorCode::S002 ==> c.text() == "S002"@,
        c == SandboxErrorCode::S003 ==> c.text() == "S003"@,
        c == SandboxErrorCode::S004 ==> c.text() == "S004"@,
        c == SandboxErrorCode::S100 ==> c.text() == "S100"@,
        c == SandboxErrorCode::S101 ==> c.text() == "S101"@,
        c == SandboxErrorCode::S102 ==> c.text() == "S102"@,
        c == SandboxErrorCode::S200 ==> c.text() == "S200"@,
        c == SandboxErrorCode::S210 ==> c.text() == "S210"@,
        c == SandboxErrorCode::S211 ==> c.text() == "S211"@,
        c == SandboxErrorCode::S212 ==> c.text() == "S212"@,
        c == SandboxErrorCode::S213 ==> c.text() == "S213"@,
        c == SandboxErrorCode::S214 ==> c.text() == "S214"@,
        c == SandboxErrorCode::S215 ==> c.text() == "S215"@,
        c == SandboxErrorCode::S216 ==> c.text() == "S216"@,
        c == SandboxErrorCode::S217 ==> c.text() == "S217"@,
        c == SandboxErrorCode::S218 ==> c.text() == "S218"@,
        c == SandboxErrorCode::S219 ==> c.text() == "S219"@,
        c == SandboxErrorCode::S300 ==> c.text() == "S300"@,
        c == SandboxErrorCode::S400 ==> c.text() == "S400"@,
{
}

/// The number a code's digits spell.
pub open spec fn code_number(c: SandboxErrorCode) -> int {
    match c {
            SandboxErrorCode::S001 => 1,
            SandboxErrorCode::S002 => 2,
            SandboxErrorCode::S003 => 3,
            SandboxErrorCode::S004 => 4,
            SandboxErrorCode::S100 => 100,
            SandboxErrorCode::S101 => 101,
            SandboxErrorCode::S102 => 102,
            SandboxErrorCode::S200 => 200,
            SandboxErrorCode::S210 => 210,
            SandboxErrorCode::S211 => 211,
            SandboxErrorCode::S212 => 212,
            SandboxErrorCode::S213 => 213,
            SandboxErrorCode::S214 => 214,
            SandboxErrorCode::S215 => 215,
            SandboxErrorCode::S216 => 216,
            SandboxErrorCode::S217 => 217,
            SandboxErrorCode::S218 => 218,
            SandboxErrorCode::S219 => 219,
            SandboxErrorCode::S300 => 300,
            SandboxErrorCode::S400 => 400,
    }
}

/// The number spelled by the three digits after the `S` of a code text.
pub open spec fn spelled_number(t: Seq<char>) -> int {
    100 * ((t[1] as int) - 48) + 10 * ((t[2] as int) - 48) + ((t[3] as int) - 48)
}

proof fn lemma_code_spells_number(c: SandboxErrorCode)
    ensures
        c.text().len() == 4,
        spelled_number(c.text()) == code_number(c),
{
    reveal_strlit("S001");
    reveal_strlit("S002");
    reveal_strlit("S003");
    reveal_strlit("S004");
    reveal_strlit("S100");
    reveal_strlit("S101");
    reveal_strlit("S102");
    reveal_strlit("S200");
    reveal_strlit("S210");
    reveal_strlit("S211");
    reveal_strlit("S212");
    reveal_strlit("S213");
    reveal_strlit("S214");
    reveal_strlit("S215");
    reveal_strlit("S216");
    reveal_strlit("S217");
    reveal_strlit("S218");
    reveal_strlit("S219");
    reveal_strlit("S300");
    reveal_strlit("S400");
}

/// No two codes share a wire text: callers can tell every error apart by
/// its code.
pub proof fn sandbox_codes_are_distinct(a: SandboxErrorCode, b: SandboxErrorCode)
    ensures
        a.text() == b.text() ==> a == b,
{
    lemma_code_spells_number(a);
    lemma_code_spells_number(b);
}

} // verus!
