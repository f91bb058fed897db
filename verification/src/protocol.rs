//! Values exchanged between the engine, its workers and remote instances:
//! error bodies, function results and trigger requests.

use vstd::prelude::*;

use crate::json::JsonValue;

verus! {

/// The error a failed function reports.
#[derive(Debug, Clone)]
pub struct ErrorBody {
    pub code: String,
    pub message: String,
    pub stacktrace: Option<String>,
}

/// What a function handler hands back to the engine.
#[derive(Debug, Clone)]
pub enum FunctionResult {
    /// The call succeeded, with or without a value.
    Success(Option<JsonValue>),
    /// The call failed.
    Failure(ErrorBody),
    /// Fire-and-forget calls return nothing.
    NoResult,
}

/// How the engine is to dispatch a trigger request.
#[derive(Debug, Clone)]
pub enum TriggerAction {
    /// Put the call on the named queue.
    Enqueue { queue: String },
    /// Fire and forget: the caller does not wait for a result.
    Void,
}

/// A request to invoke a function through the engine.
#[derive(Debug, Clone)]
pub struct TriggerRequest {
    pub function_id: String,
    pub payload: JsonValue,
    pub action: Option<TriggerAction>,
    pub timeout_ms: Option<u64>,
}

} // verus!
