//! OpenTelemetry set-up decisions: which settings win, the `/otel` endpoint,
//! the service name, and the reference-counted lifecycle of the shared
//! telemetry state.

use vstd::prelude::*;
use vstd::string::StringExecFns;

use crate::numeric::{parse_u64, parse_usize, parsed_u64, parsed_usize};
use crate::otel_path::{append_otel_path, otel_url};

verus! {

/// The last component of a path, as `std::path::Path::file_name` gives it
/// (converted to a string).
pub uninterp spec fn path_file_name(path: Seq<char>) -> Option<Seq<char>>;

/// `std::path::Path::file_name`, converted to a `String`. The component is
/// named, not described: its result depends on `path` alone.
#[verifier::external_body]
fn file_name_of(path: &str) -> (r: Option<String>)
    ensures
        r is Some <==> path_file_name(path@) is Some,
        r matches Some(n) ==> path_file_name(path@) == Some(n@),
{
    std::path::Path::new(path).file_name().and_then(|f| f.to_str()).map(String::from)
}

/// The service name a binary reports for itself: the file name of its
/// `argv[0]`; nothing for an empty `argv[0]`.
pub fn service_name_from_argv0(argv0: &str) -> (r: Option<String>)
    ensures
        argv0@.len() == 0 ==> r is None,
        argv0@.len() > 0 ==> (r is Some <==> path_file_name(argv0@) is Some),
        argv0@.len() > 0 ==> (r matches Some(n) ==> path_file_name(argv0@) == Some(n@)),
{
    if argv0.is_empty() {
        return None;
    }
    file_name_of(argv0)
}

/// The default engine WebSocket URL.
pub const DEFAULT_ENGINE_WS_URL: &'static str = "ws://localhost:49134";

/// Service name used when nothing else names the service.
pub const FALLBACK_SERVICE_NAME: &'static str = "iii-rust-sdk";

/// OpenTelemetry options a worker passes at start-up; `None` defers to the
/// environment or the built-in default.
#[derive(Debug, Clone)]
pub struct OtelConfig {
    pub enabled: Option<bool>,
    pub service_name: Option<String>,
    pub service_version: Option<String>,
    pub service_namespace: Option<String>,
    pub service_instance_id: Option<String>,
    pub engine_ws_url: Option<String>,
    pub channel_capacity: Option<usize>,
    pub metrics_enabled: Option<bool>,
    pub metrics_export_interval_ms: Option<u64>,
    pub logs_enabled: Option<bool>,
    pub logs_flush_interval_ms: Option<u64>,
    pub logs_batch_size: Option<usize>,
    pub shutdown_timeout_ms: Option<u64>,
}

/// The environment variables and process facts set-up consults.
#[derive(Debug, Clone)]
pub struct OtelEnv {
    /// `OTEL_ENABLED`
    pub otel_enabled: Option<String>,
    /// `OTEL_SERVICE_NAME`
    pub otel_service_name: Option<String>,
    /// `SERVICE_VERSION`
    pub service_version: Option<String>,
    /// `III_URL`
    pub iii_url: Option<String>,
    /// `OTEL_LOGS_FLUSH_INTERVAL_MS`
    pub logs_flush_interval_ms: Option<String>,
    /// `OTEL_LOGS_BATCH_SIZE`
    pub logs_batch_size: Option<String>,
    /// The process's `argv[0]`, if it has one.
    pub argv0: Option<String>,
}

/// The settings telemetry runs with once every source has been consulted.
#[derive(Debug, Clone)]
pub struct OtelSettings {
    pub service_name: String,
    pub service_version: String,
    pub ws_url: String,
    pub channel_capacity: usize,
    pub metrics_enabled: bool,
    pub metrics_export_interval_ms: u64,
    pub logs_enabled: bool,
    pub logs_flush_interval_ms: u64,
    pub logs_batch_size: usize,
    pub shutdown_timeout_ms: u64,
}

/// Whether telemetry is on: the explicit option, else `OTEL_ENABLED` being
/// `true` or `1`, else on.
pub open spec fn otel_enabled(config: OtelConfig, env: OtelEnv) -> bool {
    match config.enabled {
        Some(b) => b,
        None => match env.otel_enabled {
            Some(v) => v@ == "true"@ || v@ == "1"@,
            None => true,
        },
    }
}

/// Telemetry is on unless switched off: the explicit option decides when
/// given; otherwise `OTEL_ENABLED` turns it on only as `true` or `1` (so
/// `false`, `0` or anything else turns it off); with neither it is on.
pub proof fn telemetry_enabled_precedence(config: OtelConfig, env: OtelEnv)
    ensures
        config.enabled matches Some(b) ==> otel_enabled(config, env) == b,
        config.enabled is None && env.otel_enabled is None ==> otel_enabled(config, env),
        config.enabled is None ==> (env.otel_enabled matches Some(v) ==> (v@ == "true"@ || v@ == "1"@ ==> otel_enabled(
            config,
            env,
        ))),
        config.enabled is None ==> (env.otel_enabled matches Some(v) ==> (v@ == "false"@ || v@ == "0"@
            ==> !otel_enabled(config, env))),
{
    reveal_strlit("true");
    reveal_strlit("1");
    reveal_strlit("false");
    reveal_strlit("0");
    assert("true"@.len() == 4 && "false"@.len() == 5 && "1"@.len() == 1 && "0"@.len() == 1);
    assert("0"@[0] == '0' && "1"@[0] == '1');
}

pub fn resolve_enabled(config: &OtelConfig, env: &OtelEnv) -> (r: bool)
    ensures
        r == otel_enabled(*config, *env),
{
    match config.enabled {
        Some(b) => b,
        None => match &env.otel_enabled {
            Some(v) => crate::text::str_eq(v.as_str(), "true") || crate::text::str_eq(
                v.as_str(),
                "1",
            ),
            None => true,
        },
    }
}

/// The log flush interval: the option, else a valid `u64` in
/// `OTEL_LOGS_FLUSH_INTERVAL_MS`, else 100 ms.
pub open spec fn flush_interval(config: OtelConfig, env: OtelEnv) -> u64 {
    match config.logs_flush_interval_ms {
        Some(v) => v,
        None => match env.logs_flush_interval_ms {
            Some(t) => match parsed_u64(t@) {
                Some(v) => v,
                None => 100,
            },
            None => 100,
        },
    }
}

/// The log batch size: the option, else a `usize` of at least 1 in
/// `OTEL_LOGS_BATCH_SIZE`, else 1.
pub open spec fn batch_size(config: OtelConfig, env: OtelEnv) -> usize {
    match config.logs_batch_size {
        Some(v) => v,
        None => match env.logs_batch_size {
            Some(t) => match parsed_usize(t@) {
                Some(v) => if v >= 1 {
                    v
                } else {
                    1
                },
                None => 1,
            },
            None => 1,
        },
    }
}

/// Log settings take the explicit option first, then the environment, then
/// the default: an option given is the setting; with neither option nor
/// variable the flush interval is 100 ms and the batch size 1; a variable
/// that reads as a number is used when no option is given (a batch size
/// of at least 1).
pub proof fn log_settings_precedence(config: OtelConfig, env: OtelEnv)
    ensures
        config.logs_flush_interval_ms matches Some(v) ==> flush_interval(config, env) == v,
        config.logs_flush_interval_ms is None && env.logs_flush_interval_ms is None ==> flush_interval(config, env)
            == 100,
        config.logs_flush_interval_ms is None ==> (env.logs_flush_interval_ms matches Some(t) ==> (
        parsed_u64(t@) matches Some(v) ==> flush_interval(config, env) == v)),
        config.logs_batch_size matches Some(v) ==> batch_size(config, env) == v,
        config.logs_batch_size is None && env.logs_batch_size is None ==> batch_size(config, env) == 1,
        config.logs_batch_size is None ==> (env.logs_batch_size matches Some(t) ==> (parsed_usize(t@) matches Some(v)
            ==> (v >= 1 ==> batch_size(config, env) == v))),
{
}

/// Parse a flush interval setting (`OTEL_LOGS_FLUSH_INTERVAL_MS`).
pub fn parse_flush_interval(raw: &str) -> (r: Option<u64>)
    ensures
        r == parsed_u64(raw@),
{
    parse_u64(raw)
}

/// Parse a batch size setting (`OTEL_LOGS_BATCH_SIZE`): a `usize` of at
/// least 1.
pub fn parse_batch_size(raw: &str) -> (r: Option<usize>)
    ensures
        r == match parsed_usize(raw@) {
            Some(v) => if v >= 1 {
                Some(v)
            } else {
                None
            },
            None => None,
        },
{
    match parse_usize(raw) {
        Some(v) => if v >= 1 {
            Some(v)
        } else {
            None
        },
        None => None,
    }
}

/// Resolve every telemetry setting. Order of precedence for each: the
/// explicit option, then the environment, then the default. The service
/// name falls back to the binary's file name, then to `iii-rust-sdk`; the
/// version falls back to `sdk_version`; the URL is normalised to `/otel`.
/// Log settings are zero when logs are off.
pub fn resolve_otel_settings(config: &OtelConfig, env: &OtelEnv, sdk_version: &str) -> (s:
    OtelSettings)
    ensures
        s.service_name@ == match config.service_name {
            Some(n) => n@,
            None => match env.otel_service_name {
                Some(n) => n@,
                None => match env.argv0 {
                    Some(a) => if a@.len() > 0 && path_file_name(a@) is Some {
                        path_file_name(a@)->0
                    } else {
                        FALLBACK_SERVICE_NAME@
                    },
                    None => FALLBACK_SERVICE_NAME@,
                },
            },
        },
        s.service_version@ == match config.service_version {
            Some(v) => v@,
            None => match env.service_version {
                Some(v) => v@,
                None => sdk_version@,
            },
        },
        s.ws_url@ == otel_url(
            match config.engine_ws_url {
                Some(u) => u@,
                None => match env.iii_url {
                    Some(u) => u@,
                    None => DEFAULT_ENGINE_WS_URL@,
                },
            },
        ),
        s.channel_capacity == match config.channel_capacity {
            Some(c) => c,
            None => 10_000,
        },
        s.metrics_enabled == match config.metrics_enabled {
            Some(b) => b,
            None => true,
        },
        s.metrics_export_interval_ms == match config.metrics_export_interval_ms {
            Some(v) => v,
            None => 60_000,
        },
        s.logs_enabled == match config.logs_enabled {
            Some(b) => b,
            None => true,
        },
        s.logs_flush_interval_ms == if s.logs_enabled {
            flush_interval(*config, *env)
        } else {
            0
        },
        s.logs_batch_size == if s.logs_enabled {
            batch_size(*config, *env)
        } else {
            0
        },
        s.logs_enabled ==> (config.logs_flush_interval_ms matches Some(v) ==> s.logs_flush_interval_ms == v),
        s.logs_enabled && config.logs_flush_interval_ms is None && env.logs_flush_interval_ms is None
            ==> s.logs_flush_interval_ms == 100,
        s.logs_enabled ==> (config.logs_batch_size matches Some(v) ==> s.logs_batch_size == v),
        s.logs_enabled && config.logs_batch_size is None && env.logs_batch_size is None
            ==> s.logs_batch_size == 1,
        s.shutdown_timeout_ms == match config.shutdown_timeout_ms {
            Some(v) => v,
            None => 10_000,
        },
{
    let service_name = match &config.service_name {
        Some(n) => n.clone(),
        None => match &env.otel_service_name {
            Some(n) => n.clone(),
            None => {
                let from_argv = match &env.argv0 {
                    Some(a) => service_name_from_argv0(a.as_str()),
                    None => None,
                };
                match from_argv {
                    Some(n) => n,
                    None => String::from_str(FALLBACK_SERVICE_NAME),
                }
            },
        },
    };
    let service_version = match &config.service_version {
        Some(v) => v.clone(),
        None => match &env.service_version {
            Some(v) => v.clone(),
            None => String::from_str(sdk_version),
        },
    };
    let ws_url = match &config.engine_ws_url {
        Some(u) => append_otel_path(u.as_str()),
        None => match &env.iii_url {
            Some(u) => append_otel_path(u.as_str()),
            None => append_otel_path(DEFAULT_ENGINE_WS_URL),
        },
    };
    let logs_enabled = match config.logs_enabled {
        Some(b) => b,
        None => true,
    };
    let (flush, batch) = if logs_enabled {
        let flush = match config.logs_flush_interval_ms {
            Some(v) => v,
            None => match &env.logs_flush_interval_ms {
                Some(t) => match parse_flush_interval(t.as_str()) {
                    Some(v) => v,
                    None => 100,
                },
                None => 100,
            },
        };
        let batch = match config.logs_batch_size {
            Some(v) => v,
            None => match &env.logs_batch_size {
                Some(t) => match parse_batch_size(t.as_str()) {
                    Some(v) => v,
                    None => 1,
                },
                None => 1,
            },
        };
        (flush, batch)
    } else {
        (0, 0)
    };
    OtelSettings {
        service_name,
        service_version,
        ws_url,
        channel_capacity: match config.channel_capacity {
            Some(c) => c,
            None => 10_000,
        },
        metrics_enabled: match config.metrics_enabled {
            Some(b) => b,
            None => true,
        },
        metrics_export_interval_ms: match config.metrics_export_interval_ms {
            Some(v) => v,
            None => 60_000,
        },
        logs_enabled,
        logs_flush_interval_ms: flush,
        logs_batch_size: batch,
        shutdown_timeout_ms: match config.shutdown_timeout_ms {
            Some(v) => v,
            None => 10_000,
        },
    }
}

/// The shared telemetry state's lifecycle: whether it is up, and how many
/// workers hold a reference to it.
#[derive(Debug)]
pub struct OtelLifecycle {
    active: bool,
    ref_count: usize,
}

impl OtelLifecycle {
    pub closed spec fn is_active(self) -> bool {
        self.active
    }

    pub closed spec fn refs(self) -> usize {
        self.ref_count
    }

    /// Nothing initialised, no references.
    pub fn new() -> (l: OtelLifecycle)
        ensures
            !l.is_active(),
            l.refs() == 0,
    {
        OtelLifecycle { active: false, ref_count: 0 }
    }

    /// Initialise (or join) the shared state. Returns whether the caller
    /// must later call [`OtelLifecycle::shutdown`]: when the state was
    /// already up the caller joins it; when telemetry is disabled nothing
    /// happens; otherwise the state comes up with this caller's reference.
    pub fn init(&mut self, enabled: bool) -> (must_shutdown: bool)
        ensures
            init_transition(*old(self), enabled, *final(self), must_shutdown),
    {
        if self.active {
            self.ref_count = if self.ref_count == usize::MAX {
                0
            } else {
                self.ref_count + 1
            };
            return true;
        }
        if !enabled {
            return false;
        }
        self.active = true;
        self.ref_count = if self.ref_count == usize::MAX {
            0
        } else {
            self.ref_count + 1
        };
        true
    }

    /// Drop one reference. The state is torn down (returns `true`) only when
    /// the count held at most one reference and the state was up; with more
    /// references outstanding nothing else happens.
    pub fn shutdown(&mut self) -> (torn_down: bool)
        ensures
            shutdown_transition(*old(self), *final(self), torn_down),
    {
        let prev = self.ref_count;
        self.ref_count = if prev == 0 {
            usize::MAX
        } else {
            prev - 1
        };
        if prev > 1 {
            return false;
        }
        if self.active {
            self.active = false;
            true
        } else {
            false
        }
    }

    /// Whether the shared state is up.
    pub fn is_initialized(&self) -> (r: bool)
        ensures
            r == self.is_active(),
    {
        self.active
    }
}

/// The reference count after one more reference (wrapping like an atomic).
pub open spec fn incremented(n: usize) -> usize {
    if n == usize::MAX {
        0
    } else {
        (n + 1) as usize
    }
}

/// The reference count after one reference is dropped (wrapping like an
/// atomic).
pub open spec fn decremented(n: usize) -> usize {
    if n == 0 {
        usize::MAX
    } else {
        (n - 1) as usize
    }
}

/// What `init` does to the lifecycle.
pub open spec fn init_transition(
    before: OtelLifecycle,
    enabled: bool,
    after: OtelLifecycle,
    must_shutdown: bool,
) -> bool {
    if before.is_active() {
        must_shutdown && after.is_active() && after.refs() == incremented(before.refs())
    } else if !enabled {
        !must_shutdown && after == before
    } else {
        must_shutdown && after.is_active() && after.refs() == incremented(before.refs())
    }
}

/// What `shutdown` does to the lifecycle.
pub open spec fn shutdown_transition(before: OtelLifecycle, after: OtelLifecycle, torn_down: bool) -> bool {
    &&& after.refs() == decremented(before.refs())
    &&& before.refs() > 1 ==> !torn_down && after.is_active() == before.is_active()
    &&& before.refs() <= 1 ==> torn_down == before.is_active() && !after.is_active()
}

/// An enabled initialisation followed by a shutdown undoes itself: from a
/// state that is down, or up with at least one reference, the reference
/// count returns to where it was; a state that was up stays up and is not
/// torn down, and a fresh state is torn down again.
pub proof fn init_then_shutdown_restores(
    s0: OtelLifecycle,
    s1: OtelLifecycle,
    s2: OtelLifecycle,
    must_shutdown: bool,
    torn_down: bool,
)
    requires
        s0.refs() < usize::MAX,
        !s0.is_active() || s0.refs() >= 1,
        init_transition(s0, true, s1, must_shutdown),
        shutdown_transition(s1, s2, torn_down),
    ensures
        must_shutdown,
        s2.refs() == s0.refs(),
        s0.is_active() ==> s2.is_active() && !torn_down,
        !s0.is_active() && s0.refs() == 0 ==> torn_down && !s2.is_active(),
{
}

} // verus!
