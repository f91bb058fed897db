//! The bridge client worker: connects the engine to a remote instance,
//! forwards local functions to remote ones and exposes local functions
//! remotely. Here are its configuration and the decisions its handlers
//! make; the connection itself is driven by the caller.

use vstd::prelude::*;

use crate::json::{Json, JsonValue};
use crate::protocol::{ErrorBody, FunctionResult, TriggerAction, TriggerRequest};
use crate::text::join2;

verus! {

/// Configuration of the bridge client worker.
#[derive(Debug, Clone)]
pub struct BridgeClientConfig {
    /// Address of the remote instance; see [`resolve_bridge_url`].
    pub url: Option<String>,
    /// Local functions to expose on the remote instance.
    pub expose: Vec<ExposeFunctionConfig>,
    /// Local function names that forward to remote functions.
    pub forward: Vec<ForwardFunctionConfig>,
}

impl Default for BridgeClientConfig {
    fn default() -> (r: Self)
        ensures
            r.url is None,
            r.expose@.len() == 0,
            r.forward@.len() == 0,
    {
        BridgeClientConfig { url: None, expose: Vec::new(), forward: Vec::new() }
    }
}

/// A local function exposed on the remote instance.
#[derive(Debug, Clone)]
pub struct ExposeFunctionConfig {
    pub local_function: String,
    /// Name on the remote side; the local name when absent.
    pub remote_function: Option<String>,
}

/// A local function name that forwards every call to a remote function.
#[derive(Debug, Clone)]
pub struct ForwardFunctionConfig {
    pub local_function: String,
    pub remote_function: String,
    /// Call timeout; [`DEFAULT_TIMEOUT_MS`] when absent.
    pub timeout_ms: Option<u64>,
}

/// The input of `bridge.invoke` and `bridge.invoke_async`.
#[derive(Debug, Clone)]
pub struct InvokeInput {
    pub function_id: String,
    /// The payload; `null` when absent.
    pub data: JsonValue,
    pub timeout_ms: Option<u64>,
}

/// Timeout of a bridged call that names none: thirty seconds.
pub const DEFAULT_TIMEOUT_MS: u64 = 30000;

/// The address used when neither the configuration nor `III_URL` gives one.
pub const DEFAULT_BRIDGE_URL: &'static str = "ws://0.0.0.0:49134";

/// The remote address: the configured one, else `III_URL` (`env_url`),
/// else [`DEFAULT_BRIDGE_URL`].
pub fn resolve_bridge_url(config_url: &Option<String>, env_url: &Option<String>) -> (r: String)
    ensures
        config_url matches Some(u) ==> r@ == u@,
        config_url is None ==> (env_url matches Some(u) ==> r@ == u@),
        config_url is None && env_url is None ==> r@ == DEFAULT_BRIDGE_URL@,
{
    match config_url {
        Some(u) => u.clone(),
        None => match env_url {
            Some(u) => u.clone(),
            None => String::from_str(DEFAULT_BRIDGE_URL),
        },
    }
}

/// The timeout of a bridged call, in milliseconds.
pub fn call_timeout_ms(timeout_ms: Option<u64>) -> (r: u64)
    ensures
        r == match timeout_ms {
            Some(t) => t,
            None => DEFAULT_TIMEOUT_MS,
        },
{
    match timeout_ms {
        Some(t) => t,
        None => DEFAULT_TIMEOUT_MS,
    }
}

/// A function the worker registers on the local engine.
#[derive(Debug, Clone)]
pub struct LocalFunction {
    pub function_id: String,
    pub description: String,
}

pub open spec fn forward_description(remote: Seq<char>) -> Seq<char> {
    "Forward to remote function "@ + remote
}

/// The functions registered locally: `bridge.invoke`, `bridge.invoke_async`,
/// then one per forward entry, under its local name.
pub fn local_functions(config: &BridgeClientConfig) -> (r: Vec<LocalFunction>)
    ensures
        r@.len() == 2 + config.forward@.len(),
        r@[0].function_id@ == "bridge.invoke"@,
        r@[0].description@ == "Invoke a function on the remote III instance"@,
        r@[1].function_id@ == "bridge.invoke_async"@,
        r@[1].description@ == "Fire-and-forget invoke on the remote III instance"@,
        forall|k: int|
            0 <= k < config.forward@.len() ==> (#[trigger] r@[k + 2]).function_id@
                == config.forward@[k].local_function@ && r@[k + 2].description@
                == forward_description(config.forward@[k].remote_function@),
{
    let mut r: Vec<LocalFunction> = Vec::new();
    r.push(
        LocalFunction {
            function_id: String::from_str("bridge.invoke"),
            description: String::from_str("Invoke a function on the remote III instance"),
        },
    );
    r.push(
        LocalFunction {
            function_id: String::from_str("bridge.invoke_async"),
            description: String::from_str("Fire-and-forget invoke on the remote III instance"),
        },
    );
    let mut i: usize = 0;
    while i < config.forward.len()
        invariant
            i <= config.forward.len(),
            r@.len() == 2 + i,
            r@[0].function_id@ == "bridge.invoke"@,
            r@[0].description@ == "Invoke a function on the remote III instance"@,
            r@[1].function_id@ == "bridge.invoke_async"@,
            r@[1].description@ == "Fire-and-forget invoke on the remote III instance"@,
            forall|k: int|
                0 <= k < i ==> (#[trigger] r@[k + 2]).function_id@
                    == config.forward@[k].local_function@ && r@[k + 2].description@
                    == forward_description(config.forward@[k].remote_function@),
        decreases config.forward.len() - i,
    {
        let f = &config.forward[i];
        r.push(
            LocalFunction {
                function_id: f.local_function.clone(),
                description: join2("Forward to remote function ", f.remote_function.as_str()),
            },
        );
        i += 1;
    }
    r
}

/// The remote name of an exposed function: its configured remote name, else
/// its local name.
pub open spec fn exposed_name(e: ExposeFunctionConfig) -> Seq<char> {
    match e.remote_function {
        Some(r) => r@,
        None => e.local_function@,
    }
}

/// For each exposed function, the pair (remote name, local name).
pub fn exposed_functions(config: &BridgeClientConfig) -> (r: Vec<(String, String)>)
    ensures
        r@.len() == config.expose@.len(),
        forall|k: int|
            0 <= k < r@.len() ==> (#[trigger] r@[k]).0@ == exposed_name(config.expose@[k])
                && r@[k].1@ == config.expose@[k].local_function@,
{
    let mut r: Vec<(String, String)> = Vec::new();
    let mut i: usize = 0;
    while i < config.expose.len()
        invariant
            i <= config.expose.len(),
            r@.len() == i,
            forall|k: int|
                0 <= k < i ==> (#[trigger] r@[k]).0@ == exposed_name(config.expose@[k]) && r@[k].1@
                    == config.expose@[k].local_function@,
        decreases config.expose.len() - i,
    {
        let e = &config.expose[i];
        let remote = match &e.remote_function {
            Some(name) => name.clone(),
            None => e.local_function.clone(),
        };
        r.push((remote, e.local_function.clone()));
        i += 1;
    }
    r
}

/// The request `bridge.invoke` sends: the named function and payload,
/// waiting for the result up to the call timeout.
pub fn invoke_request(input: InvokeInput) -> (r: TriggerRequest)
    ensures
        r.function_id@ == input.function_id@,
        r.payload.model() == input.data.model(),
        r.action is None,
        r.timeout_ms == Some(call_timeout_ms_spec(input.timeout_ms)),
{
    let t = call_timeout_ms(input.timeout_ms);
    TriggerRequest {
        function_id: input.function_id,
        payload: input.data,
        action: None,
        timeout_ms: Some(t),
    }
}

pub open spec fn call_timeout_ms_spec(timeout_ms: Option<u64>) -> u64 {
    match timeout_ms {
        Some(t) => t,
        None => DEFAULT_TIMEOUT_MS,
    }
}

/// The request `bridge.invoke_async` sends: fire and forget, no timeout.
pub fn invoke_async_request(input: InvokeInput) -> (r: TriggerRequest)
    ensures
        r.function_id@ == input.function_id@,
        r.payload.model() == input.data.model(),
        r.action matches Some(TriggerAction::Void),
        r.timeout_ms is None,
{
    TriggerRequest {
        function_id: input.function_id,
        payload: input.data,
        action: Some(TriggerAction::Void),
        timeout_ms: None,
    }
}

/// The request a forwarding function sends for `payload`.
pub fn forward_request(forward: &ForwardFunctionConfig, payload: JsonValue) -> (r: TriggerRequest)
    ensures
        r.function_id@ == forward.remote_function@,
        r.payload.model() == payload.model(),
        r.action is None,
        r.timeout_ms == Some(call_timeout_ms_spec(forward.timeout_ms)),
{
    let t = call_timeout_ms(forward.timeout_ms);
    TriggerRequest {
        function_id: forward.remote_function.clone(),
        payload,
        action: None,
        timeout_ms: Some(t),
    }
}

/// The result of a call whose input could not be read (`reason` is the
/// parser's message).
pub fn parse_failure(reason: &str) -> (r: FunctionResult)
    ensures
        r matches FunctionResult::Failure(e) && e.code@ == "deserialization_error"@ && e.message@
            == "Failed to parse invoke input: "@ + reason@ && e.stacktrace is None,
{
    FunctionResult::Failure(
        ErrorBody {
            code: String::from_str("deserialization_error"),
            message: join2("Failed to parse invoke input: ", reason),
            stacktrace: None,
        },
    )
}

/// The result of a bridged call that waits: the remote value, or the
/// remote error's text under `bridge_error`.
pub fn call_result(outcome: Result<JsonValue, String>) -> (r: FunctionResult)
    ensures
        outcome matches Ok(v) ==> (r matches FunctionResult::Success(Some(w)) && w.model()
            == v.model()),
        outcome matches Err(m) ==> (r matches FunctionResult::Failure(e) && e.code@
            == "bridge_error"@ && e.message@ == m@ && e.stacktrace is None),
{
    match outcome {
        Ok(v) => FunctionResult::Success(Some(v)),
        Err(m) => FunctionResult::Failure(
            ErrorBody { code: String::from_str("bridge_error"), message: m, stacktrace: None },
        ),
    }
}

/// The result of a fire-and-forget call: nothing, or the error.
pub fn fire_and_forget_result(outcome: Result<(), String>) -> (r: FunctionResult)
    ensures
        outcome is Ok ==> r is NoResult,
        outcome matches Err(m) ==> (r matches FunctionResult::Failure(e) && e.code@
            == "bridge_error"@ && e.message@ == m@ && e.stacktrace is None),
{
    match outcome {
        Ok(()) => FunctionResult::NoResult,
        Err(m) => FunctionResult::Failure(
            ErrorBody { code: String::from_str("bridge_error"), message: m, stacktrace: None },
        ),
    }
}

/// What an exposed function returns for the local call's outcome: its
/// value (`null` when it returned none), or the local error as is.
pub fn exposed_result(outcome: Result<Option<JsonValue>, ErrorBody>) -> (r: Result<JsonValue, ErrorBody>)
    ensures
        outcome matches Ok(Some(v)) ==> (r matches Ok(w) && w.model() == v.model()),
        outcome matches Ok(None) ==> (r matches Ok(w) && w.model() == Json::Null),
        outcome matches Err(e) ==> r == Err::<JsonValue, ErrorBody>(e),
{
    match outcome {
        Ok(Some(v)) => Ok(v),
        Ok(None) => Ok(JsonValue::Null),
        Err(e) => Err(e),
    }
}

} // verus!
