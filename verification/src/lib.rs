//! The request and response rules of an inference server's gRPC front end: how a wire request
//! becomes an engine request, how an engine event becomes a wire response, and when the
//! control-plane operations are refused.

pub mod engine;
pub mod generation;
pub mod grpc;
pub mod json;
pub mod lists;
pub mod lora_path;
pub mod numbers;
pub mod routes;
pub mod state;
pub mod status;
pub mod text;
