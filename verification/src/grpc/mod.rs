//! The `vllm` gRPC services.

pub mod admission;
pub mod control;
pub mod convert;
pub mod engine_rpc;
pub mod inference;
pub mod kv_events;
pub mod pb;
