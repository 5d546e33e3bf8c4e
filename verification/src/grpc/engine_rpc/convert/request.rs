//! Requests of the engine service.

use crate::generation::{
    unset_sampling, Prompt, SamplingParams, TextDecodeOptions, TextRequest,
};
use crate::grpc::convert::request::{is_served, new_request_id, serves, uuid_text};
use crate::grpc::engine_rpc::pb;
use crate::lists::{listed, listed_copy, listed_texts};
use crate::numbers::{Float32, Float64};
use crate::status::{invalid_argument, not_found, refusal, unimplemented, Status, StatusView};
use crate::text::{integer, integer_text};
use vstd::prelude::*;

verus! {

pub open spec fn narrowed(value: Option<Float64>) -> Option<Float32> {
    match value {
        Some(value) => Some(value.narrowed),
        None => None,
    }
}

fn narrow(value: Option<Float64>) -> (narrow: Option<Float32>)
    ensures
        narrow == narrowed(value),
{
    match value {
        Some(value) => Some(value.narrowed),
        None => None,
    }
}

pub open spec fn top_k_refusal(sampling: Option<pb::SamplingParams>) -> Option<StatusView> {
    match sampling {
        Some(pb::SamplingParams { top_k: Some(value), .. }) => if value < -1 {
            Some(
                invalid_argument(
                    "top_k must be -1, 0, or a positive integer; got "@ + integer(value as int),
                ),
            )
        } else {
            None
        },
        _ => None,
    }
}

/// The cut-off that is asked for, where minus one and zero stand for none.
pub open spec fn wanted_top_k(top_k: Option<i32>) -> Option<u32> {
    match top_k {
        Some(value) => if value <= 0 {
            Some(0)
        } else {
            Some(value as u32)
        },
        None => None,
    }
}

/// The sampling options that are asked for, the tokens to stop at aside.
pub open spec fn wanted_sampling(sampling: Option<pb::SamplingParams>) -> SamplingParams {
    match sampling {
        Some(s) => SamplingParams {
            temperature: narrowed(s.temperature),
            top_p: narrowed(s.top_p),
            top_k: wanted_top_k(s.top_k),
            seed: s.seed,
            max_tokens: s.max_tokens,
            min_tokens: s.min_tokens,
            min_p: narrowed(s.min_p),
            frequency_penalty: narrowed(s.frequency_penalty),
            presence_penalty: narrowed(s.presence_penalty),
            repetition_penalty: narrowed(s.repetition_penalty),
            ignore_eos: s.ignore_eos,
            ..unset_sampling()
        },
        None => unset_sampling(),
    }
}

fn build_sampling_params(sampling: &Option<pb::SamplingParams>) -> (result: Result<
    SamplingParams,
    Status,
>)
    ensures
        refusal(result) == top_k_refusal(*sampling),
        result matches Ok(params) ==> params == wanted_sampling(*sampling),
{
    let sampling = match sampling {
        Some(sampling) => sampling,
        None => {
            return Ok(SamplingParams::default());
        },
    };
    let top_k: Option<u32> = match sampling.top_k {
        None => None,
        Some(value) => {
            if value == -1 || value == 0 {
                Some(0)
            } else if value > 0 {
                Some(value as u32)
            } else {
                let message =
                    "top_k must be -1, 0, or a positive integer; got ".to_string().concat(
                    integer_text(value).as_str(),
                );
                return Err(Status::invalid_argument(message.as_str()));
            }
        },
    };
    let mut params = SamplingParams::default();
    params.temperature = narrow(sampling.temperature);
    params.top_p = narrow(sampling.top_p);
    params.top_k = top_k;
    params.seed = sampling.seed;
    params.max_tokens = sampling.max_tokens;
    params.min_tokens = sampling.min_tokens;
    params.min_p = narrow(sampling.min_p);
    params.frequency_penalty = narrow(sampling.frequency_penalty);
    params.presence_penalty = narrow(sampling.presence_penalty);
    params.repetition_penalty = narrow(sampling.repetition_penalty);
    params.ignore_eos = sampling.ignore_eos;
    Ok(params)
}

/// The texts among some stop conditions, in their order.
pub open spec fn stop_texts(stop: Seq<pb::StopCondition>) -> Seq<String>
    decreases stop.len(),
{
    if stop.len() == 0 {
        Seq::empty()
    } else {
        let before = stop_texts(stop.drop_last());
        match stop.last().condition {
            Some(pb::Condition::StopText(text)) => before.push(text),
            _ => before,
        }
    }
}

/// The token ids among some stop conditions, in their order.
pub open spec fn stop_tokens(stop: Seq<pb::StopCondition>) -> Seq<u32>
    decreases stop.len(),
{
    if stop.len() == 0 {
        Seq::empty()
    } else {
        let before = stop_tokens(stop.drop_last());
        match stop.last().condition {
            Some(pb::Condition::StopTokenId(id)) => before.push(id),
            _ => before,
        }
    }
}

/// Whether some stop condition does not say what to stop at.
pub open spec fn unset_condition(stop: Seq<pb::StopCondition>) -> bool {
    exists|i: int| 0 <= i < stop.len() && (#[trigger] stop[i]).condition is None
}

pub open spec fn head_refusal(req: pb::GenerateRequest, served: Seq<String>) -> Option<
    StatusView,
> {
    if req.model@.len() > 0 && !serves(served, req.model@) {
        Some(not_found("model `"@ + req.model@ + "` not found"@))
    } else if req.lora_name@.len() > 0 {
        Some(unimplemented("LoRA request selection is not implemented"@))
    } else if req.kv_session is Some {
        Some(unimplemented("KV sessions are not implemented"@))
    } else if req.data_parallel_rank is Some {
        Some(unimplemented("forced data-parallel routing is not implemented"@))
    } else if req.input is None {
        Some(invalid_argument("input (prompt or token_ids) is required"@))
    } else {
        None
    }
}

pub open spec fn request_refusal(req: pb::GenerateRequest, served: Seq<String>) -> Option<
    StatusView,
> {
    if head_refusal(req, served) is Some {
        head_refusal(req, served)
    } else if top_k_refusal(req.sampling) is Some {
        top_k_refusal(req.sampling)
    } else if unset_condition(req.stop@) {
        Some(invalid_argument("stop condition must set stop_text or stop_token_id"@))
    } else {
        None
    }
}

pub open spec fn wanted_prompt(input: pb::Input) -> Prompt {
    match input {
        pb::Input::Prompt(text) => Prompt::Text(text),
        pb::Input::TokenIds(ids) => Prompt::TokenIds(ids.ids),
    }
}

/// Whether `text` is what an accepted request asks for, its id aside.
pub open spec fn text_request_set(text: TextRequest, req: pb::GenerateRequest) -> bool {
    &&& text.prompt == wanted_prompt(req.input->Some_0)
    &&& text.mm_features is None
    &&& text.sampling_params == (SamplingParams {
        stop_token_ids: text.sampling_params.stop_token_ids,
        ..wanted_sampling(req.sampling)
    })
    &&& listed(text.sampling_params.stop_token_ids, stop_tokens(req.stop@))
    &&& text.decode_options.skip_special_tokens
    &&& !text.decode_options.include_stop_str_in_output
    &&& listed(text.decode_options.stop_strings, stop_texts(req.stop@))
    &&& text.decode_options.min_tokens == match req.sampling {
        Some(pb::SamplingParams { min_tokens: Some(min_tokens), .. }) => min_tokens,
        _ => 0,
    }
    &&& text.intermediate == req.stream
    &&& text.priority == match req.priority {
        Some(priority) => priority,
        None => 0,
    }
    &&& text.cache_salt is None
    &&& text.add_special_tokens
    &&& text.data_parallel_rank is None
    &&& text.reasoning_parser_kwargs is None
    &&& text.lora_request is None
    &&& text.arrival_time is None
}

fn check_head(req: &pb::GenerateRequest, served_model_names: &Vec<String>) -> (result: Result<
    (),
    Status,
>)
    ensures
        refusal(result) == head_refusal(*req, served_model_names@),
{
    if !req.model.as_str().is_empty() && !is_served(served_model_names, req.model.as_str()) {
        let message = "model `".to_string().concat(req.model.as_str()).concat("` not found");
        return Err(Status::not_found(message.as_str()));
    }
    if !req.lora_name.as_str().is_empty() {
        return Err(Status::unimplemented("LoRA request selection is not implemented"));
    }
    if req.kv_session.is_some() {
        return Err(Status::unimplemented("KV sessions are not implemented"));
    }
    if req.data_parallel_rank.is_some() {
        return Err(Status::unimplemented("forced data-parallel routing is not implemented"));
    }
    if req.input.is_none() {
        return Err(Status::invalid_argument("input (prompt or token_ids) is required"));
    }
    Ok(())
}

/// The texts and the token ids that a request stops at.
fn split_conditions(stop: &Vec<pb::StopCondition>) -> (result: Result<
    (Vec<String>, Vec<u32>),
    Status,
>)
    ensures
        refusal(result) == if unset_condition(stop@) {
            Some(invalid_argument("stop condition must set stop_text or stop_token_id"@))
        } else {
            None
        },
        result matches Ok(split) ==> split.0@ == stop_texts(stop@) && split.1@ == stop_tokens(
            stop@,
        ),
{
    let mut texts: Vec<String> = Vec::new();
    let mut tokens: Vec<u32> = Vec::new();
    for i in 0..stop.len()
        invariant
            texts@ == stop_texts(stop@.take(i as int)),
            tokens@ == stop_tokens(stop@.take(i as int)),
            forall|j: int| 0 <= j < i ==> (#[trigger] stop@[j]).condition is Some,
    {
        assert(stop@.take(i + 1).drop_last() =~= stop@.take(i as int));
        assert(stop@.take(i + 1).last() == stop@[i as int]);
        match &stop[i].condition {
            Some(pb::Condition::StopText(text)) => texts.push(text.clone()),
            Some(pb::Condition::StopTokenId(id)) => tokens.push(*id),
            None => {
                assert(stop@[i as int].condition is None);
                return Err(
                    Status::invalid_argument(
                        "stop condition must set stop_text or stop_token_id",
                    ),
                );
            },
        }
    }
    assert(stop@.take(stop@.len() as int) =~= stop@);
    Ok((texts, tokens))
}

/// Converts a request; `fresh_id` becomes its id where it has none of its own.
pub fn to_text_request_with_id(
    req: pb::GenerateRequest,
    fresh_id: String,
    served_model_names: &Vec<String>,
) -> (result: Result<TextRequest, Status>)
    ensures
        refusal(result) == request_refusal(req, served_model_names@),
        result matches Ok(text) ==> text_request_set(text, req) && text.request_id == if
            req.request_id@.len() == 0 {
            fresh_id
        } else {
            req.request_id
        },
{
    match check_head(&req, served_model_names) {
        Ok(()) => {},
        Err(status) => {
            return Err(status);
        },
    }
    let min_tokens: u32 = match &req.sampling {
        Some(sampling) => match sampling.min_tokens {
            Some(min_tokens) => min_tokens,
            None => 0,
        },
        None => 0,
    };
    let mut sampling_params = match build_sampling_params(&req.sampling) {
        Ok(params) => params,
        Err(status) => {
            return Err(status);
        },
    };
    let (stop_strings, stop_token_ids) = match split_conditions(&req.stop) {
        Ok(split) => split,
        Err(status) => {
            return Err(status);
        },
    };
    sampling_params.stop_token_ids = listed_copy(&stop_token_ids);
    let prompt = match req.input {
        Some(pb::Input::Prompt(text)) => Prompt::Text(text),
        Some(pb::Input::TokenIds(ids)) => Prompt::TokenIds(ids.ids),
        None => {
            return Err(Status::invalid_argument("input (prompt or token_ids) is required"));
        },
    };
    let request_id = if req.request_id.as_str().is_empty() {
        fresh_id
    } else {
        req.request_id
    };
    Ok(
        TextRequest {
            request_id,
            prompt,
            mm_features: None,
            sampling_params,
            decode_options: TextDecodeOptions {
                skip_special_tokens: true,
                include_stop_str_in_output: false,
                stop_strings: listed_texts(&stop_strings),
                min_tokens,
            },
            intermediate: req.stream,
            priority: match req.priority {
                Some(priority) => priority,
                None => 0,
            },
            cache_salt: None,
            add_special_tokens: true,
            data_parallel_rank: None,
            reasoning_parser_kwargs: None,
            lora_request: None,
            arrival_time: None,
        },
    )
}

/// Converts a request. A request without an id gets a fresh one.
pub fn to_text_request(
    req: pb::GenerateRequest,
    served_model_names: &Vec<String>,
) -> (result: Result<TextRequest, Status>)
    ensures
        refusal(result) == request_refusal(req, served_model_names@),
        result matches Ok(text) ==> text_request_set(text, req) && if req.request_id@.len() == 0 {
            uuid_text(text.request_id@)
        } else {
            text.request_id == req.request_id
        },
{
    let fresh_id = if req.request_id.as_str().is_empty() {
        new_request_id()
    } else {
        String::new()
    };
    to_text_request_with_id(req, fresh_id, served_model_names)
}

// Laws.

proof fn lemma_stop_texts(stop: Seq<pb::StopCondition>, is_text: spec_fn(pb::StopCondition) -> bool)
    requires
        forall|c: pb::StopCondition| #[trigger] is_text(c) == (c.condition matches Some(
            pb::Condition::StopText(_),
        )),
    ensures
        ({
            let kept = stop.filter(is_text);
            let texts = stop_texts(stop);
            &&& texts.len() == kept.len()
            &&& forall|i: int|
                0 <= i < kept.len() ==> kept[i].condition == Some(
                    pb::Condition::StopText(#[trigger] texts[i]),
                )
        }),
    decreases stop.len(),
{
    reveal(Seq::filter);
    if stop.len() > 0 {
        lemma_stop_texts(stop.drop_last(), is_text);
        let before = stop_texts(stop.drop_last());
        let texts = stop_texts(stop);
        let kept = stop.filter(is_text);
        assert(is_text(stop.last()) == (stop.last().condition matches Some(
            pb::Condition::StopText(_),
        )));
        assert forall|i: int| 0 <= i < kept.len() implies kept[i].condition == Some(
            pb::Condition::StopText(#[trigger] texts[i]),
        ) by {
            if i < before.len() {
                assert(texts[i] == before[i]);
            }
        }
    }
}

proof fn lemma_stop_tokens(
    stop: Seq<pb::StopCondition>,
    is_token: spec_fn(pb::StopCondition) -> bool,
)
    requires
        forall|c: pb::StopCondition| #[trigger] is_token(c) == (c.condition matches Some(
            pb::Condition::StopTokenId(_),
        )),
    ensures
        ({
            let kept = stop.filter(is_token);
            let tokens = stop_tokens(stop);
            &&& tokens.len() == kept.len()
            &&& forall|i: int|
                0 <= i < kept.len() ==> kept[i].condition == Some(
                    pb::Condition::StopTokenId(#[trigger] tokens[i]),
                )
        }),
    decreases stop.len(),
{
    reveal(Seq::filter);
    if stop.len() > 0 {
        lemma_stop_tokens(stop.drop_last(), is_token);
        let before = stop_tokens(stop.drop_last());
        let tokens = stop_tokens(stop);
        let kept = stop.filter(is_token);
        assert(is_token(stop.last()) == (stop.last().condition matches Some(
            pb::Condition::StopTokenId(_),
        )));
        assert forall|i: int| 0 <= i < kept.len() implies kept[i].condition == Some(
            pb::Condition::StopTokenId(#[trigger] tokens[i]),
        ) by {
            if i < before.len() {
                assert(tokens[i] == before[i]);
            }
        }
    }
}

/// The texts to stop at are those of the conditions that are texts, and the tokens those of the
/// conditions that are tokens, all of them and each in their order.
pub proof fn requests_stop_at_their_conditions(
    text: TextRequest,
    req: pb::GenerateRequest,
    is_text: spec_fn(pb::StopCondition) -> bool,
    is_token: spec_fn(pb::StopCondition) -> bool,
    i: int,
)
    requires
        text_request_set(text, req),
        forall|c: pb::StopCondition| #[trigger] is_text(c) == (c.condition matches Some(
            pb::Condition::StopText(_),
        )),
        forall|c: pb::StopCondition| #[trigger] is_token(c) == (c.condition matches Some(
            pb::Condition::StopTokenId(_),
        )),
    ensures
        ({
            let texts = req.stop@.filter(is_text);
            let tokens = req.stop@.filter(is_token);
            &&& text.decode_options.stop_strings is None <==> texts.len() == 0
            &&& text.decode_options.stop_strings matches Some(strings) ==> strings@.len()
                == texts.len() && (0 <= i < texts.len() ==> texts[i].condition == Some(
                pb::Condition::StopText(strings@[i]),
            ))
            &&& text.sampling_params.stop_token_ids is None <==> tokens.len() == 0
            &&& text.sampling_params.stop_token_ids matches Some(ids) ==> ids@.len()
                == tokens.len() && (0 <= i < tokens.len() ==> tokens[i].condition == Some(
                pb::Condition::StopTokenId(ids@[i]),
            ))
        }),
{
    lemma_stop_texts(req.stop@, is_text);
    lemma_stop_tokens(req.stop@, is_token);
}

/// What an accepted request says reaches the engine under its own name: its prompt, its limits,
/// its penalties and its priority. Numbers in double precision are rounded to single precision,
/// and a cut-off of minus one or zero is none, which the engine writes as zero.
pub proof fn text_requests_carry_the_request(
    text: TextRequest,
    req: pb::GenerateRequest,
    served: Seq<String>,
)
    requires
        text_request_set(text, req),
        request_refusal(req, served) is None,
    ensures
        req.input matches Some(pb::Input::Prompt(prompt)) ==> (text.prompt matches Prompt::Text(
            given,
        ) && given@ == prompt@),
        req.input matches Some(pb::Input::TokenIds(ids)) ==> (text.prompt matches Prompt::TokenIds(
            given,
        ) && given@ == ids.ids@),
        text.intermediate == req.stream,
        req.priority is None ==> text.priority == 0,
        req.priority matches Some(priority) ==> text.priority == priority,
        text.mm_features is None,
        text.cache_salt is None,
        text.lora_request is None,
        text.reasoning_parser_kwargs is None,
        text.arrival_time is None,
        text.data_parallel_rank is None,
        text.add_special_tokens,
        text.decode_options.skip_special_tokens,
        !text.decode_options.include_stop_str_in_output,
        req.sampling matches Some(s) ==> {
            let p = text.sampling_params;
            &&& s.temperature is None ==> p.temperature is None
            &&& s.temperature matches Some(v) ==> p.temperature == Some(v.narrowed)
            &&& s.top_p is None ==> p.top_p is None
            &&& s.top_p matches Some(v) ==> p.top_p == Some(v.narrowed)
            &&& s.min_p is None ==> p.min_p is None
            &&& s.min_p matches Some(v) ==> p.min_p == Some(v.narrowed)
            &&& s.frequency_penalty is None ==> p.frequency_penalty is None
            &&& s.frequency_penalty matches Some(v) ==> p.frequency_penalty == Some(v.narrowed)
            &&& s.presence_penalty is None ==> p.presence_penalty is None
            &&& s.presence_penalty matches Some(v) ==> p.presence_penalty == Some(v.narrowed)
            &&& s.repetition_penalty is None ==> p.repetition_penalty is None
            &&& s.repetition_penalty matches Some(v) ==> p.repetition_penalty == Some(v.narrowed)
            &&& p.seed == s.seed
            &&& p.max_tokens == s.max_tokens
            &&& p.min_tokens == s.min_tokens
            &&& p.ignore_eos == s.ignore_eos
            &&& s.top_k is None ==> p.top_k is None
            &&& s.top_k matches Some(k) ==> k >= -1 && (p.top_k matches Some(given) && given
                == if k > 0 {
                k as int
            } else {
                0
            })
            &&& s.min_tokens is None ==> text.decode_options.min_tokens == 0
            &&& s.min_tokens matches Some(n) ==> text.decode_options.min_tokens == n
        },
        req.sampling is None ==> text.sampling_params.temperature is None
            && text.sampling_params.max_tokens is None && text.sampling_params.min_tokens is None
            && text.sampling_params.top_k is None && text.sampling_params.top_p is None
            && text.sampling_params.seed is None && !text.sampling_params.ignore_eos
            && text.decode_options.min_tokens == 0,
        text.sampling_params.logprobs is None,
        text.sampling_params.prompt_logprobs is None,
        text.sampling_params.logit_bias is None,
        text.sampling_params.structured_outputs is None,
        text.sampling_params.vllm_xargs is None,
{
}

/// A request is refused exactly where its model is not served, it asks for an adapter, a session
/// or a rank, it has no prompt, its cut-off is below minus one, or one of its stop conditions is
/// empty.
pub proof fn requests_are_refused_for_these_reasons(req: pb::GenerateRequest, served: Seq<String>)
    ensures
        request_refusal(req, served) is Some <==> {
            ||| req.model@.len() > 0 && forall|i: int|
                0 <= i < served.len() ==> (#[trigger] served[i])@ != req.model@
            ||| req.lora_name@.len() > 0
            ||| req.kv_session is Some
            ||| req.data_parallel_rank is Some
            ||| req.input is None
            ||| req.sampling matches Some(s) && s.top_k matches Some(k) && k < -1
            ||| exists|i: int| 0 <= i < req.stop@.len() && (#[trigger] req.stop@[i]).condition
                is None
        },
{
}

} // verus!
