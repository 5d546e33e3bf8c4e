//! The messages of the `openengine.v1` package.

use crate::json::JsonValue;
use crate::numbers::Float64;
use vstd::prelude::*;

verus! {

#[derive(Clone, Debug, Default, PartialEq, Eq)]
pub struct TokenIds {
    pub ids: Vec<u32>,
}

#[derive(Clone, Debug, PartialEq, Eq)]
pub enum Input {
    Prompt(String),
    TokenIds(TokenIds),
}

#[derive(Clone, Copy, Debug, Default, PartialEq, Eq)]
pub struct SamplingParams {
    pub temperature: Option<Float64>,
    pub top_p: Option<Float64>,
    pub top_k: Option<i32>,
    pub min_p: Option<Float64>,
    pub frequency_penalty: Option<Float64>,
    pub presence_penalty: Option<Float64>,
    pub repetition_penalty: Option<Float64>,
    pub seed: Option<u64>,
    pub num_sequences: Option<u32>,
}

#[derive(Clone, Debug, PartialEq, Eq)]
pub enum Condition {
    StopText(String),
    StopTokenId(u32),
}

#[derive(Clone, Debug, Default, PartialEq, Eq)]
pub struct StopCondition {
    pub condition: Option<Condition>,
}

#[derive(Clone, Debug, Default, PartialEq, Eq)]
pub struct StoppingOptions {
    pub max_tokens: Option<u32>,
    pub min_tokens: Option<u32>,
    pub conditions: Vec<StopCondition>,
    pub ignore_eos: Option<bool>,
    pub include_stop_in_output: Option<bool>,
}

#[derive(Clone, Debug, PartialEq, Eq)]
pub enum Selection {
    TopN(u32),
    All(bool),
    TokenIds(TokenIds),
}

#[derive(Clone, Debug, Default, PartialEq, Eq)]
pub struct CandidateTokenSelection {
    pub selection: Option<Selection>,
}

#[derive(Clone, Debug, Default, PartialEq, Eq)]
pub struct ResponseOptions {
    pub return_output_logprobs: Option<bool>,
    pub output_candidates: Option<CandidateTokenSelection>,
    pub return_prompt_logprobs: Option<bool>,
    pub prompt_candidates: Option<CandidateTokenSelection>,
    pub prompt_logprob_start: Option<u32>,
    pub skip_special_tokens: Option<bool>,
}

#[derive(Clone, Debug, PartialEq, Eq)]
pub struct KvEndpoint {
    pub host: String,
    pub port: u32,
    pub protocol: String,
}

#[derive(Debug, Default, PartialEq, Eq)]
pub struct KvSessionRef {
    pub session_id: String,
    pub transfer_backend: String,
    pub endpoints: Vec<KvEndpoint>,
    pub dp_rank: u32,
    /// The attributes of the session, which are a JSON object.
    pub attributes_struct: Option<Vec<(String, JsonValue)>>,
}

#[derive(Debug, Default, PartialEq, Eq)]
pub struct KvOptions {
    pub session: Option<KvSessionRef>,
    pub data_parallel_rank: Option<u32>,
    pub bypass_prefix_cache: Option<bool>,
    pub cache_salt: Option<String>,
}

#[derive(Clone, Debug, Default, PartialEq, Eq)]
pub struct StringChoices {
    pub choices: Vec<String>,
}

#[derive(Clone, Debug, PartialEq, Eq)]
pub enum Guide {
    JsonSchema(String),
    Regex(String),
    EbnfGrammar(String),
    StructuralTag(String),
    Choice(StringChoices),
    JsonObject(bool),
}

#[derive(Clone, Debug, Default, PartialEq, Eq)]
pub struct GuidedDecoding {
    pub guide: Option<Guide>,
    pub backend: String,
}

#[derive(Clone, Debug, PartialEq, Eq)]
pub enum MediaSource {
    Url(String),
    DataUri(String),
    RawBytes(Vec<u8>),
}

#[derive(Clone, Debug, Default, PartialEq, Eq)]
pub struct MediaItem {
    pub modality: i32,
    pub source: Option<MediaSource>,
    pub mime_type: String,
    pub uuid: String,
}

#[derive(Debug, Default, PartialEq, Eq)]
pub struct GenerateRequest {
    pub request_id: String,
    pub model: String,
    pub input: Option<Input>,
    pub sampling: Option<SamplingParams>,
    pub stopping: Option<StoppingOptions>,
    pub response: Option<ResponseOptions>,
    pub kv: Option<KvOptions>,
    pub guided: Option<GuidedDecoding>,
    pub media: Vec<MediaItem>,
    pub lora_name: String,
    pub priority: Option<i32>,
}

#[derive(Clone, Debug, PartialEq, Eq)]
pub struct LogProb {
    pub token_id: u32,
    pub logprob: Float64,
    pub token: String,
    pub rank: Option<u32>,
}

#[derive(Clone, Debug, Default, PartialEq, Eq)]
pub struct TokenInfo {
    pub token_id: u32,
    pub token: String,
    pub logprob: Option<Float64>,
    pub rank: Option<u32>,
    pub candidates: Vec<LogProb>,
}

#[derive(Clone, Debug, PartialEq, Eq)]
pub struct PromptOutput {
    pub tokens: Vec<TokenInfo>,
}

#[derive(Clone, Debug, PartialEq, Eq)]
pub struct TokenOutput {
    pub output_index: Option<u32>,
    pub tokens: Vec<TokenInfo>,
    pub text: String,
}

#[derive(Debug, PartialEq, Eq)]
pub struct PrefillReady {
    pub kv_session: Option<KvSessionRef>,
}

#[derive(Clone, Copy, Debug, PartialEq, Eq, Structural)]
pub enum FinishReason {
    Unspecified,
    Stop,
    Length,
    Cancelled,
}

#[derive(Clone, Debug, PartialEq, Eq)]
pub enum StopMatch {
    StopTokenId(u32),
    StopText(String),
}

#[derive(Clone, Debug, PartialEq, Eq)]
pub struct GenerationFinished {
    pub output_index: Option<u32>,
    pub reason: FinishReason,
    pub message: String,
    pub stop_match: Option<StopMatch>,
}

#[derive(Clone, Copy, Debug, PartialEq, Eq, Structural)]
pub enum ErrorCode {
    Internal,
    KvTransferFailed,
    Overloaded,
}

/// An error, without details and without a time after which to try again.
#[derive(Clone, Debug, PartialEq, Eq)]
pub struct EngineError {
    pub code: ErrorCode,
    pub message: String,
    pub retryable: bool,
}

#[derive(Debug, PartialEq, Eq)]
pub enum Event {
    Prompt(PromptOutput),
    Token(TokenOutput),
    PrefillReady(PrefillReady),
    Finished(GenerationFinished),
    Error(EngineError),
}

#[derive(Clone, Copy, Debug, PartialEq, Eq)]
pub struct Usage {
    pub prompt_tokens: u32,
    pub completion_tokens: u32,
    pub total_tokens: u32,
    pub cached_prompt_tokens: Option<u32>,
    pub reasoning_tokens: Option<u32>,
}

#[derive(Debug, PartialEq, Eq)]
pub struct GenerateResponse {
    pub request_id: String,
    pub event: Option<Event>,
    pub usage: Option<Usage>,
}

#[derive(Clone, Copy, Debug, PartialEq, Eq, Structural)]
pub enum EngineRole {
    Unspecified,
    Aggregated,
    Prefill,
    Decode,
}

#[derive(Clone, Copy, Debug, PartialEq, Eq)]
pub struct ParallelismInfo {
    pub tensor_parallel_size: Option<u32>,
    pub pipeline_parallel_size: Option<u32>,
    pub data_parallel_size: Option<u32>,
    pub data_parallel_rank: Option<u32>,
    pub data_parallel_start_rank: Option<u32>,
}

#[derive(Clone, Debug, PartialEq, Eq)]
pub struct KvConnectorInfo {
    pub enabled: Option<bool>,
    pub transfer_backend: String,
    pub local_endpoints: Vec<KvEndpoint>,
    pub supported_protocols: Vec<String>,
    pub supports_remote_prefill: Option<bool>,
    pub supports_decode_pull: Option<bool>,
    pub supports_abort_cleanup: Option<bool>,
    pub supports_drain: Option<bool>,
    pub schema_version: Option<u32>,
}

#[derive(Clone, Debug, PartialEq, Eq)]
pub struct EngineInfo {
    pub engine_name: String,
    pub engine_version: String,
    pub role: EngineRole,
    pub instance_id: String,
    pub supported_models: Vec<String>,
    pub parallelism: Option<ParallelismInfo>,
    pub kv_connector: Option<KvConnectorInfo>,
    pub schema_revision: u32,
    pub minimum_client_revision: u32,
    pub schema_release: String,
}

#[derive(Clone, Copy, Debug, PartialEq, Eq, Structural)]
pub enum CandidateTokenSelectionMode {
    TopN,
    All,
    TokenIds,
}

#[derive(Clone, Debug, PartialEq, Eq)]
pub struct LogprobCapabilities {
    pub supported: Option<bool>,
    pub candidate_selection_modes: Vec<CandidateTokenSelectionMode>,
    pub max_top_n: Option<u32>,
}

#[derive(Clone, Copy, Debug, PartialEq, Eq, Structural)]
pub enum GuidedDecodingMode {
    JsonSchema,
    Regex,
    EbnfGrammar,
    StructuralTag,
    Choice,
    JsonObject,
}

#[derive(Clone, Debug, PartialEq, Eq)]
pub struct GuidedDecodingCapabilities {
    pub supported: Option<bool>,
    pub modes: Vec<GuidedDecodingMode>,
}

#[derive(Clone, Debug, PartialEq, Eq)]
pub struct GenerationCapabilities {
    pub prompt_logprobs: Option<LogprobCapabilities>,
    pub output_logprobs: Option<LogprobCapabilities>,
    pub guided_decoding: Option<GuidedDecodingCapabilities>,
    pub max_num_sequences: Option<u32>,
    pub supports_priority: Option<bool>,
    pub supports_stop_in_output: Option<bool>,
    pub supports_cache_salt: Option<bool>,
    pub supports_prefix_cache_bypass: Option<bool>,
}

#[derive(Clone, Debug, PartialEq, Eq)]
pub struct ModelInfo {
    pub model_id: String,
    pub served_model_name: String,
    pub served_model_aliases: Vec<String>,
    pub max_context_length: Option<u32>,
    pub max_output_tokens: Option<u32>,
    pub kv_block_size: Option<u32>,
    pub total_kv_blocks: Option<u64>,
    pub max_running_requests: Option<u32>,
    pub max_batched_tokens: Option<u32>,
    pub tokenizer_modes: Vec<String>,
    pub supports_text_input: Option<bool>,
    pub supports_token_ids_input: Option<bool>,
    pub generation: Option<GenerationCapabilities>,
    pub supports_lora: Option<bool>,
    pub supports_multimodal: Option<bool>,
    pub reasoning_parser: String,
    pub tool_call_parser: String,
}

/// The load of an engine; what is not measured is left out.
#[derive(Clone, Debug, PartialEq, Eq)]
pub struct LoadInfo {
    pub instance_id: String,
    pub timestamp_unix_nanos: Option<u64>,
    pub running_requests: Option<u32>,
    pub queued_requests: Option<u32>,
    pub active_kv_sessions: Option<u32>,
    pub used_kv_blocks: Option<u64>,
    pub total_kv_blocks: Option<u64>,
    pub running_tokens: Option<u64>,
    pub waiting_tokens: Option<u64>,
    pub prefill_batch_size: Option<u32>,
    pub decode_batch_size: Option<u32>,
}

/// Whether an engine can be used, as the wire writes it.
#[derive(Clone, Copy, Debug, PartialEq, Eq, Structural)]
pub enum HealthState {
    NotReady,
    Other(i32),
}

#[derive(Clone, Debug, PartialEq, Eq)]
pub struct HealthCheck {
    pub name: String,
    pub state: HealthState,
    pub message: String,
}

#[derive(Clone, Debug, PartialEq, Eq)]
pub struct HealthResponse {
    pub state: HealthState,
    pub checks: Vec<HealthCheck>,
}

#[derive(Debug, PartialEq, Eq)]
pub enum AbortTarget {
    RequestId(String),
    KvSession(KvSessionRef),
    AllRequests(bool),
}

#[derive(Clone, Copy, Debug, PartialEq, Eq, Structural)]
pub enum AbortStatus {
    Aborted,
    AlreadyFinished,
}

#[derive(Clone, Debug, PartialEq, Eq)]
pub struct AbortResponse {
    pub status: AbortStatus,
    pub message: String,
}

#[derive(Clone, Copy, Debug, PartialEq, Eq)]
pub struct DrainRequest {
    pub stop_accepting_new_requests: bool,
    pub deadline_ms: Option<u32>,
    pub abort_after_deadline: bool,
}

#[derive(Clone, Copy, Debug, PartialEq, Eq, Structural)]
pub enum DrainState {
    Started,
    Complete,
}

#[derive(Clone, Debug, PartialEq, Eq)]
pub enum DrainEvent {
    State(DrainState),
    Error(EngineError),
}

#[derive(Clone, Debug, PartialEq, Eq)]
pub struct DrainResponse {
    pub event: Option<DrainEvent>,
    pub in_flight_requests: Option<u32>,
    pub open_kv_sessions: Option<u32>,
    pub message: String,
}

#[derive(Clone, Debug, PartialEq, Eq)]
pub struct LoraAdapter {
    pub lora_id: u64,
    pub lora_name: String,
    pub source_path: String,
}

#[derive(Clone, Debug, PartialEq, Eq)]
pub struct KvEventSource {
    pub transport: String,
    pub endpoint_addr: Option<KvEndpoint>,
    pub topic: String,
    pub replay_endpoint: String,
    pub data_parallel_rank: Option<u32>,
    pub encoding: String,
    pub schema_version: Option<u32>,
    pub buffer_steps: Option<u32>,
    pub hwm: Option<u32>,
    pub max_queue_size: Option<u32>,
}

} // verus!
