//! The messages of the `vllm.engine.v1` package.

use crate::json::JsonValue;
use crate::numbers::Float64;
use vstd::prelude::*;

verus! {

#[derive(Clone, Debug, Default, PartialEq, Eq)]
pub struct TokenIds {
    pub ids: Vec<u32>,
}

#[derive(Clone, Debug, PartialEq, Eq)]
pub enum Input {
    Prompt(String),
    TokenIds(TokenIds),
}

#[derive(Clone, Copy, Debug, Default, PartialEq, Eq)]
pub struct SamplingParams {
    pub temperature: Option<Float64>,
    pub top_p: Option<Float64>,
    pub top_k: Option<i32>,
    pub frequency_penalty: Option<Float64>,
    pub presence_penalty: Option<Float64>,
    pub max_tokens: Option<u32>,
    pub seed: Option<i64>,
    pub ignore_eos: bool,
    pub min_p: Option<Float64>,
    pub repetition_penalty: Option<Float64>,
    pub min_tokens: Option<u32>,
}

#[derive(Clone, Debug, PartialEq, Eq)]
pub enum Condition {
    StopText(String),
    StopTokenId(u32),
}

#[derive(Clone, Debug, Default, PartialEq, Eq)]
pub struct StopCondition {
    pub condition: Option<Condition>,
}

#[derive(Debug, Default, PartialEq, Eq)]
pub struct KvSessionRef {
    pub session_id: String,
    pub transfer_backend: String,
    pub dp_rank: u32,
    /// The attributes of the session, which are a JSON object.
    pub attributes_struct: Option<Vec<(String, JsonValue)>>,
}

#[derive(Clone, Debug, PartialEq, Eq)]
pub enum MediaSource {
    Url(String),
    DataUri(String),
    RawBytes(Vec<u8>),
}

#[derive(Clone, Debug, Default, PartialEq, Eq)]
pub struct MediaItem {
    pub modality: i32,
    pub source: Option<MediaSource>,
    pub mime_type: String,
    pub uuid: String,
}

#[derive(Debug, Default, PartialEq, Eq)]
pub struct GenerateRequest {
    pub request_id: String,
    pub model: String,
    pub input: Option<Input>,
    pub sampling: Option<SamplingParams>,
    pub stop: Vec<StopCondition>,
    pub stream: bool,
    pub media: Vec<MediaItem>,
    pub lora_name: String,
    pub kv_session: Option<KvSessionRef>,
    pub data_parallel_rank: Option<u32>,
    pub priority: Option<i32>,
}

#[derive(Clone, Debug, PartialEq, Eq)]
pub struct TokenOutput {
    pub token_ids: Vec<u32>,
    pub text: String,
}

#[derive(Clone, Copy, Debug, PartialEq, Eq, Structural)]
pub enum FinishReason {
    Stop,
    Length,
    Cancelled,
    Error,
}

#[derive(Clone, Debug, PartialEq, Eq)]
pub struct GenerationFinished {
    pub reason: FinishReason,
    pub message: String,
}

#[derive(Clone, Copy, Debug, PartialEq, Eq, Structural)]
pub enum ErrorCode {
    Internal,
}

#[derive(Clone, Debug, PartialEq, Eq)]
pub struct EngineError {
    pub code: ErrorCode,
    pub message: String,
    pub retry_hint: String,
}

#[derive(Clone, Debug, PartialEq, Eq)]
pub enum Event {
    Token(TokenOutput),
    Finished(GenerationFinished),
    Error(EngineError),
}

#[derive(Clone, Copy, Debug, PartialEq, Eq, Structural)]
pub struct Usage {
    pub prompt_tokens: u32,
    pub completion_tokens: u32,
    pub total_tokens: u32,
}

#[derive(Clone, Debug, PartialEq, Eq)]
pub struct GenerateResponse {
    pub request_id: String,
    pub event: Option<Event>,
    pub usage: Option<Usage>,
}

#[derive(Clone, Copy, Debug, PartialEq, Eq, Structural)]
pub enum EngineRole {
    Unspecified,
    Aggregated,
    Prefill,
    Decode,
}

#[derive(Clone, Debug, PartialEq, Eq)]
pub struct KvEndpoint {
    pub host: String,
    pub port: u32,
    pub protocol: String,
}

#[derive(Clone, Debug, PartialEq, Eq)]
pub struct KvConnectorInfo {
    pub enabled: bool,
    pub transfer_backend: String,
    pub local_endpoints: Vec<KvEndpoint>,
    pub supported_protocols: Vec<String>,
    pub schema_version: u32,
}

#[derive(Clone, Debug, PartialEq, Eq)]
pub struct LoraAdapter {
    pub lora_id: u64,
    pub lora_name: String,
    pub source_path: String,
}

#[derive(Clone, Copy, Debug, PartialEq, Eq, Structural)]
pub struct ParallelismInfo {
    pub tensor_parallel_size: u32,
    pub pipeline_parallel_size: u32,
    pub data_parallel_size: u32,
    pub data_parallel_rank: u32,
    pub data_parallel_start_rank: u32,
}

#[derive(Clone, Debug, PartialEq, Eq)]
pub struct HealthCheck {
    pub name: String,
    pub state: i32,
    pub message: String,
}

#[derive(Clone, Debug, PartialEq, Eq)]
pub struct HealthResponse {
    pub state: i32,
    pub checks: Vec<HealthCheck>,
}

#[derive(Clone, Copy, Debug, PartialEq, Eq, Structural)]
pub enum AbortStatus {
    Unspecified,
    Aborted,
    AlreadyFinished,
    NotFound,
}

#[derive(Clone, Debug, PartialEq, Eq)]
pub struct KvEventSource {
    pub transport: String,
    pub endpoint_addr: Option<KvEndpoint>,
    pub topic: String,
    pub replay_endpoint: String,
    pub data_parallel_rank: u32,
    pub encoding: String,
    pub schema_version: u32,
    pub buffer_steps: u32,
    pub hwm: u32,
    pub max_queue_size: u32,
}

} // verus!
