//! Sampling options of a request.

use super::xargs::parse_outcome;
use crate::engine::{
    StructuredOutputConstraint, StructuredOutputOptions, StructuredOutputsParams,
};
use crate::generation::SamplingParams;
use crate::grpc::pb;
use crate::json::{json_from_str, json_text_parse, Json, JsonValue};
use crate::lists::{copied, copied_texts, listed, listed_copy, listed_texts};
use crate::numbers::{signed_32, to_signed, zero, Float32};
use crate::status::{invalid_argument, refusal, Code, Status, StatusView};
use vstd::prelude::*;

verus! {

/// What a structured-output constraint asks for.
pub enum ConstraintView {
    Json(Json),
    Regex(Seq<char>),
    Choice(Seq<String>),
    Grammar(Seq<char>),
    JsonObject,
    StructuralTag(Seq<char>),
}

pub open spec fn constraint_view(constraint: StructuredOutputConstraint) -> ConstraintView {
    match constraint {
        StructuredOutputConstraint::Json(schema) => ConstraintView::Json(schema.tree()),
        StructuredOutputConstraint::Regex(regex) => ConstraintView::Regex(regex@),
        StructuredOutputConstraint::Choice(choices) => ConstraintView::Choice(choices@),
        StructuredOutputConstraint::Grammar(grammar) => ConstraintView::Grammar(grammar@),
        StructuredOutputConstraint::JsonObject => ConstraintView::JsonObject,
        StructuredOutputConstraint::StructuralTag(tag) => ConstraintView::StructuralTag(tag@),
    }
}

/// The refusal of a JSON schema that was parsed, or that could not be.
pub open spec fn schema_refusal(parsed: Result<Json, Seq<char>>) -> Option<StatusView> {
    match parsed {
        Ok(_) => None,
        Err(error) => Some(invalid_argument("invalid json schema: "@ + error)),
    }
}

/// The constraint that is asked for; a switched-off JSON object asks for none.
pub open spec fn wanted_constraint(output: pb::StructuredOutput) -> Option<ConstraintView> {
    match output {
        pb::StructuredOutput::Json(schema) => Some(
            ConstraintView::Json(json_text_parse(schema@)->Ok_0),
        ),
        pb::StructuredOutput::Regex(regex) => Some(ConstraintView::Regex(regex@)),
        pb::StructuredOutput::Choice(choices) => Some(ConstraintView::Choice(choices.choices@)),
        pb::StructuredOutput::Grammar(grammar) => Some(ConstraintView::Grammar(grammar@)),
        pb::StructuredOutput::JsonObject(on) => if on {
            Some(ConstraintView::JsonObject)
        } else {
            None
        },
        pb::StructuredOutput::StructuralTag(tag) => Some(ConstraintView::StructuralTag(tag@)),
    }
}

pub open spec fn structured_output_refusal(decoding: pb::DecodingParameters) -> Option<
    StatusView,
> {
    match decoding.structured_output {
        Some(pb::StructuredOutput::Json(schema)) => schema_refusal(json_text_parse(schema@)),
        _ => None,
    }
}

/// Whether `params` are what the decoding parameters ask for.
pub open spec fn structured_output_set(
    params: Option<StructuredOutputsParams>,
    decoding: pb::DecodingParameters,
) -> bool {
    let wanted = match decoding.structured_output {
        Some(output) => wanted_constraint(output),
        None => None,
    };
    match params {
        None => wanted is None,
        Some(params) => {
            &&& wanted == Some(constraint_view(params.constraint))
            &&& params.options.disable_any_whitespace
                == decoding.structured_output_disable_any_whitespace
            &&& params.options.disable_additional_properties
                == decoding.structured_output_disable_additional_properties
            &&& params.options.whitespace_pattern == decoding.structured_output_whitespace_pattern
            &&& params.backend is None
        },
    }
}

pub open spec fn top_k_refusal(top_k: Option<i64>) -> Option<StatusView> {
    match top_k {
        Some(value) => if value < -1 {
            Some(invalid_argument("top_k must be at least -1"@))
        } else if value > u32::MAX {
            Some(invalid_argument("top_k exceeds uint32"@))
        } else {
            None
        },
        None => None,
    }
}

/// The cut-off that is asked for, where minus one stands for none, which the engine writes as
/// zero.
pub open spec fn wanted_top_k(top_k: Option<i64>) -> Option<u32> {
    match top_k {
        Some(value) => if value == -1 {
            Some(0)
        } else {
            Some(value as u32)
        },
        None => None,
    }
}

/// The number of scores that a selection of candidates asks for, and the tokens that it names.
pub open spec fn candidate_scores(candidates: Option<pb::CandidateTokens>) -> (int, Option<
    Seq<u32>,
>) {
    match candidates {
        Some(pb::CandidateTokens { select: Some(pb::CandidateSelect::TopN(n)) }) => (
            signed_32(n),
            None,
        ),
        Some(pb::CandidateTokens { select: Some(pb::CandidateSelect::All(true)) }) => (-1, None),
        Some(pb::CandidateTokens { select: Some(pb::CandidateSelect::TokenIds(ids)) }) => (
            if ids.ids@.len() <= i32::MAX {
                ids.ids@.len() as int
            } else {
                i32::MAX as int
            },
            Some(ids.ids@),
        ),
        _ => (1, None),
    }
}

/// Whether a selection names its tokens.
pub open spec fn names_tokens(candidates: Option<pb::CandidateTokens>) -> bool {
    candidates matches Some(pb::CandidateTokens {
        select: Some(pb::CandidateSelect::TokenIds(_)),
    })
}

pub open spec fn sampling_refusal(
    sampling: Option<pb::RandomSampling>,
    decoding: Option<pb::DecodingParameters>,
    response: Option<pb::ResponseOptions>,
) -> Option<StatusView> {
    if sampling matches Some(s) && s.num_sequences > 1 {
        Some(invalid_argument("num_sequences > 1 is not supported"@))
    } else if sampling matches Some(s) && top_k_refusal(s.top_k) is Some {
        top_k_refusal(sampling->Some_0.top_k)
    } else if decoding matches Some(d) && structured_output_refusal(d) is Some {
        structured_output_refusal(decoding->Some_0)
    } else if response matches Some(r) && r.prompt_logprobs && names_tokens(r.prompt_candidates) {
        Some(invalid_argument("prompt_candidates token_ids selector is not supported"@))
    } else {
        None
    }
}

/// The number, where it is not zero.
pub open spec fn nonzero(n: u32) -> Option<u32> {
    if n == 0 {
        None
    } else {
        Some(n)
    }
}

pub open spec fn random_sampling_set(
    params: SamplingParams,
    sampling: Option<pb::RandomSampling>,
) -> bool {
    match sampling {
        Some(s) => {
            &&& params.top_k == wanted_top_k(s.top_k)
            &&& params.top_p == s.top_p
            &&& params.min_p == s.min_p
            &&& params.seed == s.seed
        },
        None => {
            &&& params.top_k is None
            &&& params.top_p is None
            &&& params.min_p is None
            &&& params.seed is None
        },
    }
}

pub open spec fn decoding_set(
    params: SamplingParams,
    decoding: Option<pb::DecodingParameters>,
) -> bool {
    match decoding {
        Some(d) => {
            &&& params.presence_penalty == d.presence_penalty
            &&& params.frequency_penalty == d.frequency_penalty
            &&& params.repetition_penalty == d.repetition_penalty
            &&& match params.logit_bias {
                None => d.logit_bias@.is_empty(),
                Some(bias) => !d.logit_bias@.is_empty() && bias@ == d.logit_bias@,
            }
            &&& listed(params.allowed_token_ids, d.allowed_token_ids@)
            &&& listed(params.bad_words, d.bad_words@)
            &&& structured_output_set(params.structured_outputs, d)
        },
        None => {
            &&& params.presence_penalty is None
            &&& params.frequency_penalty is None
            &&& params.repetition_penalty is None
            &&& params.logit_bias is None
            &&& params.allowed_token_ids is None
            &&& params.bad_words is None
            &&& params.structured_outputs is None
        },
    }
}

pub open spec fn stopping_set(
    params: SamplingParams,
    stopping: Option<pb::StoppingCriteria>,
) -> bool {
    match stopping {
        Some(s) => {
            &&& params.max_tokens == nonzero(s.max_new_tokens)
            &&& params.min_tokens == nonzero(s.min_new_tokens)
            &&& listed(params.stop_token_ids, s.stop_token_ids@)
            &&& params.ignore_eos == s.ignore_eos
            &&& params.thinking_token_budget == s.thinking_token_budget
        },
        None => {
            &&& params.max_tokens is None
            &&& params.min_tokens is None
            &&& params.stop_token_ids is None
            &&& !params.ignore_eos
            &&& params.thinking_token_budget is None
        },
    }
}

pub open spec fn scores_set(params: SamplingParams, response: Option<pb::ResponseOptions>) -> bool {
    &&& match response {
        Some(r) if r.output_logprobs => {
            let (count, tokens) = candidate_scores(r.output_candidates);
            &&& params.logprobs matches Some(n) && n == count
            &&& match params.logprob_token_ids {
                Some(ids) => tokens == Some(ids@),
                None => tokens is None,
            }
        },
        _ => params.logprobs is None && params.logprob_token_ids is None,
    }
    &&& match response {
        Some(r) if r.prompt_logprobs => params.prompt_logprobs matches Some(n) && n
            == candidate_scores(r.prompt_candidates).0,
        _ => params.prompt_logprobs is None,
    }
}

/// Whether `params` are the sampling options that the parts of a request ask for. Without a
/// temperature, sampling is greedy.
pub open spec fn sampling_set(
    params: SamplingParams,
    temperature: Option<Float32>,
    sampling: Option<pb::RandomSampling>,
    decoding: Option<pb::DecodingParameters>,
    stopping: Option<pb::StoppingCriteria>,
    response: Option<pb::ResponseOptions>,
) -> bool {
    &&& params.temperature == Some(
        match temperature {
            Some(temperature) => temperature,
            None => zero(),
        },
    )
    &&& random_sampling_set(params, sampling)
    &&& decoding_set(params, decoding)
    &&& stopping_set(params, stopping)
    &&& scores_set(params, response)
}

pub open spec fn owned<T>(value: Option<&T>) -> Option<T> {
    match value {
        Some(value) => Some(*value),
        None => None,
    }
}

fn convert_top_k(top_k: Option<i64>) -> (result: Result<Option<u32>, Status>)
    ensures
        refusal(result) == top_k_refusal(top_k),
        result matches Ok(converted) ==> converted == wanted_top_k(top_k),
{
    match top_k {
        None => Ok(None),
        Some(value) => {
            if value == -1 {
                Ok(Some(0))
            } else if value < -1 {
                Err(Status::invalid_argument("top_k must be at least -1"))
            } else if value > 0xffff_ffff {
                Err(Status::invalid_argument("top_k exceeds uint32"))
            } else {
                Ok(Some(value as u32))
            }
        },
    }
}

fn nonzero_number(n: u32) -> (number: Option<u32>)
    ensures
        number == nonzero(n),
{
    if n == 0 {
        None
    } else {
        Some(n)
    }
}

/// How many scores a selection of candidates asks for, and which tokens it names.
fn candidate_logprob_spec(candidates: &Option<pb::CandidateTokens>) -> (spec: (
    i32,
    Option<Vec<u32>>,
))
    ensures
        spec.0 == candidate_scores(*candidates).0,
        match spec.1 {
            Some(ids) => candidate_scores(*candidates).1 == Some(ids@),
            None => candidate_scores(*candidates).1 is None,
        },
{
    let select = match candidates {
        Some(candidates) => match &candidates.select {
            Some(select) => select,
            None => {
                return (1, None);
            },
        },
        None => {
            return (1, None);
        },
    };
    match select {
        pb::CandidateSelect::TopN(n) => (to_signed(*n), None),
        pb::CandidateSelect::All(true) => (-1, None),
        pb::CandidateSelect::All(false) => (1, None),
        pb::CandidateSelect::TokenIds(ids) => {
            let count: i32 = if ids.ids.len() <= 0x7fff_ffff {
                ids.ids.len() as i32
            } else {
                0x7fff_ffff
            };
            (count, Some(copied(ids.ids.as_slice())))
        },
    }
}

/// The constraint that a parsed JSON schema makes.
pub fn json_constraint(parsed: Result<JsonValue, String>) -> (result: Result<
    StructuredOutputConstraint,
    Status,
>)
    ensures
        refusal(result) == schema_refusal(parse_outcome(parsed)),
        result matches Ok(constraint) ==> constraint == StructuredOutputConstraint::Json(
            parsed->Ok_0,
        ),
{
    match parsed {
        Ok(schema) => Ok(StructuredOutputConstraint::Json(schema)),
        Err(error) => {
            let message = "invalid json schema: ".to_string().concat(error.as_str());
            Err(Status::invalid_argument(message.as_str()))
        },
    }
}

fn convert_structured_output(decoding: &pb::DecodingParameters) -> (result: Result<
    Option<StructuredOutputsParams>,
    Status,
>)
    ensures
        refusal(result) == structured_output_refusal(*decoding),
        result matches Ok(params) ==> structured_output_set(params, *decoding),
{
    let output = match &decoding.structured_output {
        Some(output) => output,
        None => {
            return Ok(None);
        },
    };
    let constraint = match output {
        pb::StructuredOutput::Json(schema) => match json_constraint(
            json_from_str(schema.as_str()),
        ) {
            Ok(constraint) => constraint,
            Err(status) => {
                return Err(status);
            },
        },
        pb::StructuredOutput::Regex(regex) => StructuredOutputConstraint::Regex(regex.clone()),
        pb::StructuredOutput::Choice(choices) => StructuredOutputConstraint::Choice(
            copied_texts(&choices.choices),
        ),
        pb::StructuredOutput::Grammar(grammar) => StructuredOutputConstraint::Grammar(
            grammar.clone(),
        ),
        pb::StructuredOutput::JsonObject(on) => {
            if !*on {
                return Ok(None);
            }
            StructuredOutputConstraint::JsonObject
        },
        pb::StructuredOutput::StructuralTag(tag) => StructuredOutputConstraint::StructuralTag(
            tag.clone(),
        ),
    };
    let whitespace_pattern = match &decoding.structured_output_whitespace_pattern {
        Some(pattern) => Some(pattern.clone()),
        None => None,
    };
    Ok(
        Some(
            StructuredOutputsParams {
                constraint,
                options: StructuredOutputOptions {
                    disable_any_whitespace: decoding.structured_output_disable_any_whitespace,
                    disable_additional_properties:
                        decoding.structured_output_disable_additional_properties,
                    whitespace_pattern,
                },
                backend: None,
            },
        ),
    )
}

pub fn build_sampling_params(
    temperature: Option<Float32>,
    sampling: Option<&pb::RandomSampling>,
    decoding: Option<&pb::DecodingParameters>,
    stopping: Option<&pb::StoppingCriteria>,
    response: Option<&pb::ResponseOptions>,
) -> (result: Result<SamplingParams, Status>)
    ensures
        refusal(result) == sampling_refusal(owned(sampling), owned(decoding), owned(response)),
        result matches Ok(params) ==> sampling_set(
            params,
            temperature,
            owned(sampling),
            owned(decoding),
            owned(stopping),
            owned(response),
        ) && params.skip_reading_prefix_cache is None && params.routed_experts_prompt_start == 0
            && params.vllm_xargs is None,
{
    let mut params = SamplingParams::default();
    params.temperature = match temperature {
        Some(temperature) => Some(temperature),
        None => Some(Float32::zero()),
    };
    if let Some(s) = sampling {
        // One response carries one sequence.
        if s.num_sequences > 1 {
            return Err(Status::invalid_argument("num_sequences > 1 is not supported"));
        }
        params.top_k = match convert_top_k(s.top_k) {
            Ok(top_k) => top_k,
            Err(status) => {
                return Err(status);
            },
        };
        params.top_p = s.top_p;
        params.min_p = s.min_p;
        params.seed = s.seed;
    }
    if let Some(d) = decoding {
        params.presence_penalty = d.presence_penalty;
        params.frequency_penalty = d.frequency_penalty;
        params.repetition_penalty = d.repetition_penalty;
        if !d.logit_bias.is_empty() {
            params.logit_bias = Some(d.logit_bias.clone());
        }
        params.allowed_token_ids = listed_copy(&d.allowed_token_ids);
        params.bad_words = listed_texts(&d.bad_words);
        params.structured_outputs = match convert_structured_output(d) {
            Ok(structured) => structured,
            Err(status) => {
                return Err(status);
            },
        };
    }
    if let Some(s) = stopping {
        params.max_tokens = nonzero_number(s.max_new_tokens);
        params.min_tokens = nonzero_number(s.min_new_tokens);
        params.stop_token_ids = listed_copy(&s.stop_token_ids);
        params.ignore_eos = s.ignore_eos;
        params.thinking_token_budget = s.thinking_token_budget;
    }
    if let Some(r) = response {
        if r.output_logprobs {
            let (count, token_ids) = candidate_logprob_spec(&r.output_candidates);
            params.logprobs = Some(count);
            params.logprob_token_ids = token_ids;
        }
        if r.prompt_logprobs {
            // The engine has one list of token ids for prompt and output scores.
            if let Some(candidates) = &r.prompt_candidates {
                if let Some(pb::CandidateSelect::TokenIds(_)) = &candidates.select {
                    return Err(
                        Status::invalid_argument(
                            "prompt_candidates token_ids selector is not supported",
                        ),
                    );
                }
            }
            let (count, _) = candidate_logprob_spec(&r.prompt_candidates);
            params.prompt_logprobs = Some(count);
        }
    }
    Ok(params)
}

// Laws.

/// The sampling options carry each number that a request gives, under its own name: what is left
/// out stays unset, a limit of zero tokens is none, and without a temperature it is zero.
pub proof fn sampling_options_are_those_of_the_request(
    params: SamplingParams,
    temperature: Option<Float32>,
    sampling: Option<pb::RandomSampling>,
    decoding: Option<pb::DecodingParameters>,
    stopping: Option<pb::StoppingCriteria>,
    response: Option<pb::ResponseOptions>,
)
    requires
        sampling_set(params, temperature, sampling, decoding, stopping, response),
        sampling_refusal(sampling, decoding, response) is None,
    ensures
        params.temperature is Some,
        temperature is Some ==> params.temperature == temperature,
        temperature is None ==> params.temperature->Some_0.bits == 0
            && params.temperature->Some_0.widened == 0,
        sampling matches Some(s) ==> {
            &&& s.num_sequences <= 1
            &&& params.top_p == s.top_p
            &&& params.min_p == s.min_p
            &&& params.seed == s.seed
            &&& s.top_k is None ==> params.top_k is None
            &&& s.top_k matches Some(k) ==> -1 <= k <= u32::MAX && (params.top_k matches Some(
                top_k,
            ) && top_k == if k < 0 {
                0
            } else {
                k as int
            })
        },
        sampling is None ==> params.top_p is None && params.min_p is None && params.seed is None
            && params.top_k is None,
        decoding matches Some(d) ==> {
            &&& params.presence_penalty == d.presence_penalty
            &&& params.frequency_penalty == d.frequency_penalty
            &&& params.repetition_penalty == d.repetition_penalty
        },
        decoding is None ==> params.presence_penalty is None && params.frequency_penalty is None
            && params.repetition_penalty is None,
        stopping matches Some(s) ==> {
            &&& s.max_new_tokens != 0 ==> params.max_tokens == Some(s.max_new_tokens)
            &&& s.max_new_tokens == 0 ==> params.max_tokens is None
            &&& s.min_new_tokens != 0 ==> params.min_tokens == Some(s.min_new_tokens)
            &&& s.min_new_tokens == 0 ==> params.min_tokens is None
            &&& params.ignore_eos == s.ignore_eos
            &&& params.thinking_token_budget == s.thinking_token_budget
        },
        stopping is None ==> params.max_tokens is None && params.min_tokens is None
            && !params.ignore_eos && params.thinking_token_budget is None,
{
}

/// The lists of a request reach the sampling options item by item, in their order, and an empty
/// list leaves the option unset.
pub proof fn sampling_lists_are_those_of_the_request(
    params: SamplingParams,
    temperature: Option<Float32>,
    sampling: Option<pb::RandomSampling>,
    decoding: Option<pb::DecodingParameters>,
    stopping: Option<pb::StoppingCriteria>,
    response: Option<pb::ResponseOptions>,
)
    requires
        sampling_set(params, temperature, sampling, decoding, stopping, response),
    ensures
        decoding matches Some(d) ==> {
            &&& params.logit_bias is None <==> d.logit_bias@.dom().len() == 0
                && d.logit_bias@.dom().finite()
            &&& params.logit_bias matches Some(bias) ==> forall|token: u32|
                bias@.contains_key(token) == #[trigger] d.logit_bias@.contains_key(token) && (
                bias@.contains_key(token) ==> bias@[token] == d.logit_bias@[token])
            &&& params.allowed_token_ids is None <==> d.allowed_token_ids@.len() == 0
            &&& params.allowed_token_ids matches Some(ids) ==> ids@ == d.allowed_token_ids@
            &&& params.bad_words is None <==> d.bad_words@.len() == 0
            &&& params.bad_words matches Some(words) ==> words@ == d.bad_words@
        },
        decoding is None ==> params.logit_bias is None && params.allowed_token_ids is None
            && params.bad_words is None && params.structured_outputs is None,
        stopping matches Some(s) ==> {
            &&& params.stop_token_ids is None <==> s.stop_token_ids@.len() == 0
            &&& params.stop_token_ids matches Some(ids) ==> ids@ == s.stop_token_ids@
        },
        stopping is None ==> params.stop_token_ids is None,
{
}

/// A constraint keeps its kind and its text, and takes the options that go with it. A JSON
/// object that is switched off asks for nothing.
pub proof fn constraints_keep_their_kind(
    params: Option<StructuredOutputsParams>,
    decoding: pb::DecodingParameters,
)
    requires
        structured_output_set(params, decoding),
    ensures
        params is None <==> decoding.structured_output is None || decoding.structured_output
            == Some(pb::StructuredOutput::JsonObject(false)),
        params matches Some(params) ==> {
            let asked = decoding.structured_output->Some_0;
            &&& params.backend is None
            &&& params.options.disable_any_whitespace
                == decoding.structured_output_disable_any_whitespace
            &&& params.options.disable_additional_properties
                == decoding.structured_output_disable_additional_properties
            &&& params.options.whitespace_pattern == decoding.structured_output_whitespace_pattern
            &&& asked matches pb::StructuredOutput::Json(text) ==> (
            params.constraint matches StructuredOutputConstraint::Json(schema)
                && json_text_parse(text@)->Ok_0 == schema.tree())
            &&& asked matches pb::StructuredOutput::Regex(text) ==> (
            params.constraint matches StructuredOutputConstraint::Regex(regex) && regex@ == text@)
            &&& asked matches pb::StructuredOutput::Choice(asked) ==> (
            params.constraint matches StructuredOutputConstraint::Choice(choices) && choices@
                == asked.choices@)
            &&& asked matches pb::StructuredOutput::Grammar(text) ==> (
            params.constraint matches StructuredOutputConstraint::Grammar(grammar) && grammar@
                == text@)
            &&& asked is JsonObject ==> params.constraint is JsonObject
            &&& asked matches pb::StructuredOutput::StructuralTag(text) ==> (
            params.constraint matches StructuredOutputConstraint::StructuralTag(tag) && tag@
                == text@)
        },
{
}

/// Scores are asked for exactly where the response is to hold them: as many as a selection of
/// the top ones says, all of them as minus one, one for each token that is named, and one where
/// nothing is selected. Tokens are named for the output alone.
pub proof fn scores_are_asked_for_as_selected(
    params: SamplingParams,
    response: Option<pb::ResponseOptions>,
)
    requires
        scores_set(params, response),
    ensures
        params.logprobs is Some <==> (response matches Some(r) && r.output_logprobs),
        params.prompt_logprobs is Some <==> (response matches Some(r) && r.prompt_logprobs),
        params.logprob_token_ids is Some <==> response matches Some(
            pb::ResponseOptions {
                output_logprobs: true,
                output_candidates: Some(
                    pb::CandidateTokens { select: Some(pb::CandidateSelect::TokenIds(_)) },
                ),
                ..
            },
        ),
        response matches Some(r) ==> r.output_logprobs ==> match r.output_candidates {
            Some(pb::CandidateTokens { select: Some(pb::CandidateSelect::TopN(n)) }) => {
                params.logprobs->Some_0 == if n <= 2147483647 {
                    n as int
                } else {
                    n - 4294967296
                }
            },
            Some(pb::CandidateTokens { select: Some(pb::CandidateSelect::All(all)) }) => {
                params.logprobs->Some_0 == if all {
                    -1int
                } else {
                    1
                }
            },
            Some(pb::CandidateTokens { select: Some(pb::CandidateSelect::TokenIds(ids)) }) => {
                &&& params.logprob_token_ids->Some_0@ == ids.ids@
                &&& params.logprobs->Some_0 == if ids.ids@.len() <= 2147483647 {
                    ids.ids@.len() as int
                } else {
                    2147483647
                }
            },
            _ => params.logprobs->Some_0 == 1,
        },
        response matches Some(r) ==> r.prompt_logprobs ==> match r.prompt_candidates {
            Some(pb::CandidateTokens { select: Some(pb::CandidateSelect::TopN(n)) }) => {
                params.prompt_logprobs->Some_0 == if n <= 2147483647 {
                    n as int
                } else {
                    n - 4294967296
                }
            },
            Some(pb::CandidateTokens { select: Some(pb::CandidateSelect::All(all)) }) => {
                params.prompt_logprobs->Some_0 == if all {
                    -1int
                } else {
                    1
                }
            },
            Some(pb::CandidateTokens { select: Some(pb::CandidateSelect::TokenIds(_)) }) => true,
            _ => params.prompt_logprobs->Some_0 == 1,
        },
{
}

/// Sampling options are refused exactly where more than one sequence is asked for, the cut-off is
/// out of its range, a schema is no JSON, or prompt scores are asked for by token.
pub proof fn sampling_is_refused_for_four_reasons(
    sampling: Option<pb::RandomSampling>,
    decoding: Option<pb::DecodingParameters>,
    response: Option<pb::ResponseOptions>,
)
    ensures
        sampling_refusal(sampling, decoding, response) is Some <==> {
            ||| sampling matches Some(s) && s.num_sequences > 1
            ||| sampling matches Some(s) && s.top_k matches Some(k) && (k < -1 || k > 4294967295)
            ||| decoding matches Some(d) && d.structured_output matches Some(
                pb::StructuredOutput::Json(text),
            ) && json_text_parse(text@) is Err
            ||| response matches Some(r) && r.prompt_logprobs && r.prompt_candidates matches Some(
                pb::CandidateTokens { select: Some(pb::CandidateSelect::TokenIds(_)) },
            )
        },
        sampling_refusal(sampling, decoding, response) matches Some(status) ==> status.code
            == Code::InvalidArgument,
{
}

/// The parameters of a request hold its constraint and ask for its scores: none of either where
/// the request asks for none.
pub proof fn parameters_hold_constraints_and_scores(
    params: SamplingParams,
    temperature: Option<Float32>,
    sampling: Option<pb::RandomSampling>,
    decoding: Option<pb::DecodingParameters>,
    stopping: Option<pb::StoppingCriteria>,
    response: Option<pb::ResponseOptions>,
)
    requires
        sampling_set(params, temperature, sampling, decoding, stopping, response),
    ensures
        decoding is None ==> params.structured_outputs is None,
        decoding matches Some(asked) ==> structured_output_set(params.structured_outputs, asked)
            && (asked.structured_output is None ==> params.structured_outputs is None),
        scores_set(params, response),
        params.logprobs is Some <==> (response matches Some(r) && r.output_logprobs),
        params.prompt_logprobs is Some <==> (response matches Some(r) && r.prompt_logprobs),
{
}

} // verus!
