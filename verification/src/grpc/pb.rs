//! The messages of the `vllm` package.

use crate::json::JsonValue;
use crate::numbers::Float32;
use std::collections::HashMap;
use vstd::prelude::*;

verus! {

#[derive(Clone, Debug, Default, PartialEq, Eq)]
pub struct TokenIds {
    pub ids: Vec<u32>,
}

#[derive(Clone, Debug, PartialEq, Eq)]
pub enum PromptInput {
    Text(String),
    TokenIds(TokenIds),
}

#[derive(Clone, Debug, Default, PartialEq, Eq)]
pub struct RandomSampling {
    pub num_sequences: u32,
    pub top_k: Option<i64>,
    pub top_p: Option<Float32>,
    pub min_p: Option<Float32>,
    pub seed: Option<i64>,
}

#[derive(Clone, Debug, Default, PartialEq, Eq)]
pub struct StringChoices {
    pub choices: Vec<String>,
}

#[derive(Clone, Debug, PartialEq, Eq)]
pub enum StructuredOutput {
    Json(String),
    Regex(String),
    Choice(StringChoices),
    Grammar(String),
    JsonObject(bool),
    StructuralTag(String),
}

#[derive(Clone, Debug, Default, PartialEq, Eq)]
pub struct DecodingParameters {
    pub presence_penalty: Option<Float32>,
    pub frequency_penalty: Option<Float32>,
    pub repetition_penalty: Option<Float32>,
    pub logit_bias: HashMap<u32, Float32>,
    pub allowed_token_ids: Vec<u32>,
    pub bad_words: Vec<String>,
    pub structured_output: Option<StructuredOutput>,
    pub structured_output_disable_any_whitespace: bool,
    pub structured_output_disable_additional_properties: bool,
    pub structured_output_whitespace_pattern: Option<String>,
}

#[derive(Clone, Debug, Default, PartialEq, Eq)]
pub struct StoppingCriteria {
    pub max_new_tokens: u32,
    pub min_new_tokens: u32,
    pub stop_token_ids: Vec<u32>,
    pub stop_strings: Vec<String>,
    pub ignore_eos: bool,
    pub include_stop_strings: bool,
    pub thinking_token_budget: Option<u32>,
}

#[derive(Clone, Debug, PartialEq, Eq)]
pub enum CandidateSelect {
    TopN(u32),
    All(bool),
    TokenIds(TokenIds),
}

#[derive(Clone, Debug, Default, PartialEq, Eq)]
pub struct CandidateTokens {
    pub select: Option<CandidateSelect>,
}

#[derive(Clone, Debug, Default, PartialEq, Eq)]
pub struct ResponseOptions {
    pub prompt_token_ids: bool,
    pub prompt_logprobs: bool,
    pub prompt_candidates: Option<CandidateTokens>,
    pub output_text: Option<bool>,
    pub output_token_ids: bool,
    pub output_logprobs: bool,
    pub output_candidates: Option<CandidateTokens>,
}

#[derive(Debug, Default, PartialEq, Eq)]
pub struct KvCacheParameters {
    /// The fields of the transfer parameters, which are a JSON object.
    pub kv_transfer_params: Option<Vec<(String, JsonValue)>>,
    pub bypass_prefix_cache: bool,
    pub cache_salt: String,
}

#[derive(Clone, Debug, PartialEq, Eq)]
pub enum Modality {
    Unspecified,
    Image,
    Audio,
    /// A further one, by its name.
    Other(String),
}

/// A modality as it came over the wire, where a number may stand for none.
#[derive(Clone, Debug, PartialEq, Eq)]
pub enum WireModality {
    Known(Modality),
    Unknown(i32),
}

impl Default for WireModality {
    fn default() -> (modality: WireModality)
        ensures
            modality == WireModality::Known(Modality::Unspecified),
    {
        WireModality::Known(Modality::Unspecified)
    }
}

#[derive(Clone, Debug, PartialEq, Eq)]
pub enum MediaSource {
    Url(String),
    DataUri(String),
    RawBytes(Vec<u8>),
}

#[derive(Clone, Debug, Default, PartialEq, Eq)]
pub struct MediaItem {
    pub modality: WireModality,
    pub source: Option<MediaSource>,
    pub mime_type: String,
    pub uuid: String,
}

#[derive(Clone, Debug, Default, PartialEq, Eq)]
pub struct MultimodalPlaceholder {
    pub offset: u64,
    pub length: u64,
    pub is_embed: Vec<bool>,
}

#[derive(Clone, Debug, Default, PartialEq, Eq)]
pub struct PreprocessedMultimodalFeature {
    pub modality: String,
    pub mm_hash: String,
    pub position: Option<MultimodalPlaceholder>,
    pub kwargs_msgpack: Option<Vec<u8>>,
    pub cache_identifier: String,
}

#[derive(Debug, Default, PartialEq, Eq)]
pub struct GenerateRequest {
    pub request_id: String,
    pub model: String,
    pub prompt: Option<PromptInput>,
    pub temperature: Option<Float32>,
    pub sampling: Option<RandomSampling>,
    pub decoding: Option<DecodingParameters>,
    pub stopping: Option<StoppingCriteria>,
    pub response: Option<ResponseOptions>,
    pub kv: Option<KvCacheParameters>,
    pub truncate_prompt_tokens: u32,
    pub priority: i32,
    pub lora_name: String,
    pub media: Vec<MediaItem>,
    pub mm_features: Vec<PreprocessedMultimodalFeature>,
    pub routed_experts_prompt_start: u32,
    pub vllm_xargs_json: Option<Vec<u8>>,
}

#[derive(Clone, Copy, Debug, PartialEq, Eq, Structural)]
pub struct TokenInfo {
    pub id: u32,
    pub logprob: Float32,
    pub rank: u32,
}

#[derive(Clone, Debug, PartialEq, Eq)]
pub struct CandidateTokenInfo {
    pub tokens: Vec<TokenInfo>,
}

#[derive(Clone, Debug, PartialEq, Eq)]
pub struct PromptInfo {
    pub num_prompt_tokens: u32,
    pub token_ids: Vec<u32>,
    pub logprobs: Vec<Float32>,
    pub ranks: Vec<u32>,
    pub candidate_tokens: Vec<CandidateTokenInfo>,
}

#[derive(Clone, Copy, Debug, PartialEq, Eq, Structural)]
pub enum FinishReason {
    Stop,
    Length,
    Aborted,
}

#[derive(Clone, Debug, PartialEq, Eq)]
pub enum StopReason {
    StopTokenId(u32),
    StopString(String),
    EosTokenId(u32),
}

#[derive(Debug, PartialEq, Eq)]
pub struct FinishInfo {
    pub num_output_tokens: u32,
    pub finish_reason: FinishReason,
    pub stop_reason: Option<StopReason>,
    pub kv_transfer_params: Option<Vec<(String, JsonValue)>>,
}

#[derive(Clone, Debug, PartialEq, Eq)]
pub struct RoutedExpertsTensor {
    pub dtype: String,
    pub shape: Vec<u64>,
    pub data: Vec<u8>,
}

#[derive(Debug, PartialEq, Eq)]
pub struct SequenceOutput {
    pub index: u32,
    pub text: String,
    pub num_tokens: u32,
    pub token_ids: Vec<u32>,
    pub logprobs: Vec<Float32>,
    pub ranks: Vec<u32>,
    pub candidate_tokens: Vec<CandidateTokenInfo>,
    pub finish_info: Option<FinishInfo>,
    pub routed_experts: Option<RoutedExpertsTensor>,
}

#[derive(Debug, PartialEq, Eq)]
pub struct GenerateResponse {
    pub prompt_info: Option<PromptInfo>,
    pub outputs: Option<SequenceOutput>,
}

#[derive(Clone, Copy, Debug, PartialEq, Eq, Structural)]
pub struct ParallelismInfo {
    pub tensor_parallel_size: u32,
    pub pipeline_parallel_size: u32,
    pub data_parallel_size: u32,
    pub data_parallel_rank: u32,
    pub decode_context_parallel_size: u32,
    pub data_parallel_start_rank: u32,
    pub managed_data_parallel_size: u32,
}

#[derive(Clone, Debug, PartialEq, Eq)]
pub struct ServerInfo {
    pub engine_version: String,
    pub api_version: String,
    pub instance_id: String,
    pub parallelism: Option<ParallelismInfo>,
    pub max_model_len: u32,
    pub kv_block_size: u32,
    pub total_kv_blocks: u64,
    pub max_running_requests: u32,
    pub max_batched_tokens: u32,
    pub max_loras: u32,
    pub capabilities: Vec<String>,
}

#[derive(Clone, Debug, PartialEq, Eq)]
pub struct ModelInfo {
    pub model_id: String,
    pub served_model_name: String,
    pub served_model_aliases: Vec<String>,
    pub tokenizer_modes: Vec<String>,
    pub supports_text_input: bool,
    pub supports_token_ids_input: bool,
    pub supports_lora: bool,
    pub supports_multimodal: bool,
    pub reasoning_parser: String,
    pub tool_call_parser: String,
}

#[derive(Clone, Copy, Debug, PartialEq, Eq, Structural)]
pub enum DrainState {
    InProgress,
    Complete,
}

#[derive(Clone, Debug, PartialEq, Eq)]
pub struct DrainResponse {
    pub state: DrainState,
    pub in_flight_requests: u32,
    pub message: String,
}

#[derive(Clone, Debug, PartialEq, Eq)]
pub struct KvEventEndpoint {
    pub host: String,
    pub port: u32,
    pub protocol: String,
}

#[derive(Clone, Debug, PartialEq, Eq)]
pub struct KvEventSource {
    pub transport: String,
    pub endpoint_addr: Option<KvEventEndpoint>,
    pub topic: String,
    pub replay_endpoint: String,
    pub data_parallel_rank: Option<u32>,
    pub encoding: String,
    pub schema_version: u32,
    pub buffer_steps: u32,
    pub hwm: u32,
    pub max_queue_size: u32,
}

} // verus!
