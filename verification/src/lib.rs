//! Verified core logic of the iii engine, SDK and worker tooling.

pub mod baggage;
pub mod bridge_client;
pub mod configuration;
pub mod console;
pub mod console_calls;
pub mod console_queue;
pub mod console_state;
pub mod decimal;
pub mod engine_config;
pub mod examples;
pub mod json;
pub mod keyed;
pub mod otel_path;
pub mod payload;
pub mod protocol;
pub mod queue_bridge;
pub mod env_expand;
pub mod numeric;
pub mod sandbox_errors;
pub mod sandbox_fs;
pub mod schema;
pub mod sort;
pub mod stream_bridge;
pub mod telemetry;
pub mod text;
pub mod trigger_formats;
pub mod worker_ops;
