//! Text generation: the request that the engine takes and the events that it answers with.

use crate::engine::{MmFeatureSpec, StructuredOutputsParams, WireTensor};
use crate::json::JsonValue;
use crate::numbers::{Float32, Float64};
use std::collections::HashMap;
use vstd::prelude::*;

verus! {

#[derive(Clone, Debug, PartialEq, Eq)]
pub enum Prompt {
    Text(String),
    TokenIds(Vec<u32>),
}

/// The sampling options of a request; what is unset is left to the model's defaults.
#[derive(Debug, PartialEq, Eq)]
pub struct SamplingParams {
    pub temperature: Option<Float32>,
    pub top_p: Option<Float32>,
    pub top_k: Option<u32>,
    pub min_p: Option<Float32>,
    pub seed: Option<i64>,
    pub max_tokens: Option<u32>,
    pub min_tokens: Option<u32>,
    pub presence_penalty: Option<Float32>,
    pub frequency_penalty: Option<Float32>,
    pub repetition_penalty: Option<Float32>,
    pub logit_bias: Option<HashMap<u32, Float32>>,
    pub allowed_token_ids: Option<Vec<u32>>,
    pub bad_words: Option<Vec<String>>,
    pub stop_token_ids: Option<Vec<u32>>,
    pub ignore_eos: bool,
    pub thinking_token_budget: Option<u32>,
    pub logprobs: Option<i32>,
    pub prompt_logprobs: Option<i32>,
    pub logprob_token_ids: Option<Vec<u32>>,
    pub structured_outputs: Option<StructuredOutputsParams>,
    pub skip_reading_prefix_cache: Option<bool>,
    pub routed_experts_prompt_start: u32,
    pub vllm_xargs: Option<Vec<(String, JsonValue)>>,
}

pub open spec fn unset_sampling() -> SamplingParams {
    SamplingParams {
        temperature: None,
        top_p: None,
        top_k: None,
        min_p: None,
        seed: None,
        max_tokens: None,
        min_tokens: None,
        presence_penalty: None,
        frequency_penalty: None,
        repetition_penalty: None,
        logit_bias: None,
        allowed_token_ids: None,
        bad_words: None,
        stop_token_ids: None,
        ignore_eos: false,
        thinking_token_budget: None,
        logprobs: None,
        prompt_logprobs: None,
        logprob_token_ids: None,
        structured_outputs: None,
        skip_reading_prefix_cache: None,
        routed_experts_prompt_start: 0,
        vllm_xargs: None,
    }
}

impl Default for SamplingParams {
    fn default() -> (params: SamplingParams)
        ensures
            params == unset_sampling(),
    {
        SamplingParams {
            temperature: None,
            top_p: None,
            top_k: None,
            min_p: None,
            seed: None,
            max_tokens: None,
            min_tokens: None,
            presence_penalty: None,
            frequency_penalty: None,
            repetition_penalty: None,
            logit_bias: None,
            allowed_token_ids: None,
            bad_words: None,
            stop_token_ids: None,
            ignore_eos: false,
            thinking_token_budget: None,
            logprobs: None,
            prompt_logprobs: None,
            logprob_token_ids: None,
            structured_outputs: None,
            skip_reading_prefix_cache: None,
            routed_experts_prompt_start: 0,
            vllm_xargs: None,
        }
    }
}

#[derive(Clone, Debug, PartialEq, Eq)]
pub struct TextDecodeOptions {
    pub skip_special_tokens: bool,
    pub include_stop_str_in_output: bool,
    pub stop_strings: Option<Vec<String>>,
    pub min_tokens: u32,
}

/// A LoRA adapter that a request runs with.
#[derive(Clone, Debug, PartialEq, Eq)]
pub struct LoraRequest {
    pub lora_name: String,
    pub lora_int_id: u64,
    pub lora_path: String,
}

#[derive(Debug, PartialEq, Eq)]
pub struct TextRequest {
    pub request_id: String,
    pub prompt: Prompt,
    pub mm_features: Option<Vec<MmFeatureSpec>>,
    pub sampling_params: SamplingParams,
    pub decode_options: TextDecodeOptions,
    pub intermediate: bool,
    pub priority: i32,
    pub cache_salt: Option<String>,
    pub add_special_tokens: bool,
    pub data_parallel_rank: Option<u32>,
    pub reasoning_parser_kwargs: Option<Vec<(String, JsonValue)>>,
    pub lora_request: Option<LoraRequest>,
    pub arrival_time: Option<Float64>,
}

#[derive(Clone, Debug, PartialEq, Eq)]
pub enum StopReason {
    TokenId(u32),
    Text(String),
}

#[derive(Clone, Debug, PartialEq, Eq)]
pub enum FinishReason {
    Stop(Option<StopReason>),
    Length,
    Abort,
    Error,
    Repetition(Option<StopReason>),
}

#[derive(Clone, Copy, Debug, PartialEq, Eq, Structural)]
pub struct TokenUsage {
    pub prompt_token_count: usize,
    pub output_token_count: usize,
    pub cached_token_count: usize,
}

/// How a generation ended.
#[derive(Debug, PartialEq, Eq)]
pub struct Finished {
    pub usage: TokenUsage,
    pub finish_reason: FinishReason,
    pub kv_transfer_params: Option<JsonValue>,
    pub routed_experts: Option<WireTensor>,
}

#[derive(Clone, Debug, PartialEq, Eq)]
pub struct DecodedTokenLogprob {
    pub token_id: u32,
    pub token: String,
    pub logprob: Float32,
    pub rank: u32,
}

/// The scores at one position: those of the sampled or scored token first.
#[derive(Clone, Debug, PartialEq, Eq)]
pub struct DecodedPositionLogprobs {
    pub entries: Vec<DecodedTokenLogprob>,
}

#[derive(Clone, Debug, PartialEq, Eq)]
pub struct DecodedLogprobs {
    pub positions: Vec<DecodedPositionLogprobs>,
}

/// The scores of a prompt, whose first token has none.
#[derive(Clone, Debug, PartialEq, Eq)]
pub struct DecodedPromptLogprobs {
    pub first_token_id: u32,
    pub first_token: String,
    pub scored_positions: Vec<DecodedPositionLogprobs>,
}

#[derive(Debug, PartialEq, Eq)]
pub enum DecodedTextEvent {
    Start { prompt_token_ids: Vec<u32>, prompt_logprobs: Option<DecodedPromptLogprobs> },
    TextDelta {
        delta: String,
        token_ids: Vec<u32>,
        logprobs: Option<DecodedLogprobs>,
        finished: Option<Finished>,
    },
}

/// Parameters that are not set ask for nothing.
pub proof fn unset_parameters_ask_for_nothing()
    ensures
        ({
            let params = unset_sampling();
            &&& params.temperature is None && params.top_p is None && params.top_k is None
            &&& params.min_p is None && params.seed is None
            &&& params.max_tokens is None && params.min_tokens is None
            &&& params.presence_penalty is None && params.frequency_penalty is None
            &&& params.repetition_penalty is None && params.logit_bias is None
            &&& params.allowed_token_ids is None && params.bad_words is None
            &&& params.stop_token_ids is None && !params.ignore_eos
            &&& params.thinking_token_budget is None
            &&& params.logprobs is None && params.prompt_logprobs is None
            &&& params.logprob_token_ids is None && params.structured_outputs is None
            &&& params.skip_reading_prefix_cache is None
            &&& params.routed_experts_prompt_start == 0 && params.vllm_xargs is None
        }),
{
}

} // verus!
