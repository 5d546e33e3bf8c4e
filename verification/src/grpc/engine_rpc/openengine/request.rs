//! Requests of the OpenEngine service.

use super::pb;
use crate::engine::{
    StructuredOutputBackend, StructuredOutputConstraint, StructuredOutputOptions,
    StructuredOutputsParams,
};
use crate::generation::{SamplingParams, TextDecodeOptions, TextRequest};
use crate::grpc::convert::request::{new_request_id, uuid_text};
use crate::grpc::convert::sampling::{constraint_view, ConstraintView};
use crate::grpc::convert::xargs::parse_outcome;
use crate::grpc::engine_rpc::pb as private;
use crate::json::{json_from_str, json_text_parse, Json, JsonValue};
use crate::lists::copied;
use crate::status::{invalid_argument, refusal, Code, Status, StatusView};
use crate::text::same_text;
use vstd::prelude::*;

verus! {

/// What a request asks for beyond the messages of the engine service.
#[derive(Debug, PartialEq, Eq)]
pub struct RequestExtensions {
    pub logprobs: Option<i32>,
    pub prompt_logprobs: Option<i32>,
    pub logprob_token_ids: Option<Vec<u32>>,
    pub structured_outputs: Option<StructuredOutputsParams>,
    pub include_stop_in_output: bool,
    pub cache_salt: Option<String>,
    pub bypass_prefix_cache: Option<bool>,
    pub skip_special_tokens: Option<bool>,
}

// Scores.

pub open spec fn selection_of(candidates: Option<pb::CandidateTokenSelection>) -> Option<
    pb::Selection,
> {
    match candidates {
        Some(candidates) => candidates.selection,
        None => None,
    }
}

pub open spec fn selection_refusal(
    enabled: Option<bool>,
    candidates: Option<pb::CandidateTokenSelection>,
    allow_token_ids: bool,
) -> Option<StatusView> {
    match selection_of(candidates) {
        None => None,
        Some(selection) => if enabled == Some(false) {
            Some(
                invalid_argument("candidate selection cannot be set when logprobs are disabled"@),
            )
        } else {
            match selection {
                pb::Selection::TopN(top_n) => if top_n > i32::MAX {
                    Some(invalid_argument("logprob top_n exceeds i32::MAX"@))
                } else {
                    None
                },
                pb::Selection::All(_) => None,
                pb::Selection::TokenIds(_) => if allow_token_ids {
                    None
                } else {
                    Some(
                        invalid_argument(
                            "prompt token-id candidate selection is not supported"@,
                        ),
                    )
                },
            }
        },
    }
}

/// The number of scores that are asked for, if scores are asked for by number.
pub open spec fn wanted_count(
    enabled: Option<bool>,
    candidates: Option<pb::CandidateTokenSelection>,
) -> Option<int> {
    match selection_of(candidates) {
        None => if enabled == Some(true) {
            Some(0)
        } else {
            None
        },
        Some(pb::Selection::TopN(top_n)) => Some(top_n as int),
        Some(pb::Selection::All(_)) => Some(-1),
        Some(pb::Selection::TokenIds(_)) => None,
    }
}

/// The tokens whose scores are asked for, if they are named.
pub open spec fn wanted_tokens(candidates: Option<pb::CandidateTokenSelection>) -> Option<
    Seq<u32>,
> {
    match selection_of(candidates) {
        Some(pb::Selection::TokenIds(ids)) => Some(ids.ids@),
        _ => None,
    }
}

pub open spec fn count_set(count: Option<i32>, wanted: Option<int>) -> bool {
    match count {
        Some(count) => wanted == Some(count as int),
        None => wanted is None,
    }
}

pub open spec fn tokens_set(tokens: Option<Vec<u32>>, wanted: Option<Seq<u32>>) -> bool {
    match tokens {
        Some(tokens) => wanted == Some(tokens@),
        None => wanted is None,
    }
}

fn candidate_selection(
    enabled: Option<bool>,
    candidates: &Option<pb::CandidateTokenSelection>,
    allow_token_ids: bool,
) -> (result: Result<(Option<i32>, Option<Vec<u32>>), Status>)
    ensures
        refusal(result) == selection_refusal(enabled, *candidates, allow_token_ids),
        result matches Ok(selected) ==> count_set(selected.0, wanted_count(enabled, *candidates))
            && tokens_set(selected.1, wanted_tokens(*candidates)),
{
    let selection = match candidates {
        Some(candidates) => &candidates.selection,
        None => &None,
    };
    let selection = match selection {
        Some(selection) => selection,
        None => {
            return match enabled {
                Some(true) => Ok((Some(0), None)),
                _ => Ok((None, None)),
            };
        },
    };
    if let Some(false) = enabled {
        return Err(
            Status::invalid_argument(
                "candidate selection cannot be set when logprobs are disabled",
            ),
        );
    }
    match selection {
        pb::Selection::TopN(top_n) => {
            if *top_n > 0x7fff_ffff {
                return Err(Status::invalid_argument("logprob top_n exceeds i32::MAX"));
            }
            Ok((Some(*top_n as i32), None))
        },
        pb::Selection::All(_) => Ok((Some(-1), None)),
        pb::Selection::TokenIds(ids) => {
            if !allow_token_ids {
                return Err(
                    Status::invalid_argument(
                        "prompt token-id candidate selection is not supported",
                    ),
                );
            }
            Ok((None, Some(copied(ids.ids.as_slice()))))
        },
    }
}

pub open spec fn response_refusal(response: Option<pb::ResponseOptions>) -> Option<StatusView> {
    match response {
        None => None,
        Some(r) => if r.prompt_logprob_start matches Some(start) && start != 0 {
            Some(
                invalid_argument(
                    "prompt_logprob_start values other than zero are not supported"@,
                ),
            )
        } else if selection_refusal(r.return_output_logprobs, r.output_candidates, true) is Some {
            selection_refusal(r.return_output_logprobs, r.output_candidates, true)
        } else {
            selection_refusal(r.return_prompt_logprobs, r.prompt_candidates, false)
        },
    }
}

/// Whether scores are asked for as the response options say.
pub open spec fn scores_set(
    logprobs: Option<i32>,
    prompt_logprobs: Option<i32>,
    token_ids: Option<Vec<u32>>,
    response: Option<pb::ResponseOptions>,
) -> bool {
    match response {
        None => logprobs is None && prompt_logprobs is None && token_ids is None,
        Some(r) => {
            &&& count_set(logprobs, wanted_count(r.return_output_logprobs, r.output_candidates))
            &&& count_set(
                prompt_logprobs,
                wanted_count(r.return_prompt_logprobs, r.prompt_candidates),
            )
            &&& tokens_set(token_ids, wanted_tokens(r.output_candidates))
        },
    }
}

fn response_options(response: &Option<pb::ResponseOptions>) -> (result: Result<
    (Option<i32>, Option<i32>, Option<Vec<u32>>),
    Status,
>)
    ensures
        refusal(result) == response_refusal(*response),
        result matches Ok(options) ==> scores_set(options.0, options.1, options.2, *response),
{
    let response = match response {
        Some(response) => response,
        None => {
            return Ok((None, None, None));
        },
    };
    if let Some(start) = response.prompt_logprob_start {
        if start != 0 {
            return Err(
                Status::invalid_argument(
                    "prompt_logprob_start values other than zero are not supported",
                ),
            );
        }
    }
    let (logprobs, token_ids) = match candidate_selection(
        response.return_output_logprobs,
        &response.output_candidates,
        true,
    ) {
        Ok(selected) => selected,
        Err(status) => {
            return Err(status);
        },
    };
    let (prompt_logprobs, _) = match candidate_selection(
        response.return_prompt_logprobs,
        &response.prompt_candidates,
        false,
    ) {
        Ok(selected) => selected,
        Err(status) => {
            return Err(status);
        },
    };
    Ok((logprobs, prompt_logprobs, token_ids))
}

// Guided decoding.

/// The refusal of a JSON schema that was parsed, or that could not be.
pub open spec fn guide_schema_refusal(parsed: Result<Json, Seq<char>>) -> Option<StatusView> {
    match parsed {
        Ok(_) => None,
        Err(error) => Some(invalid_argument("guided JSON schema is invalid: "@ + error)),
    }
}

/// The constraint that a parsed JSON schema makes.
pub fn guide_schema(parsed: Result<JsonValue, String>) -> (result: Result<
    StructuredOutputConstraint,
    Status,
>)
    ensures
        refusal(result) == guide_schema_refusal(parse_outcome(parsed)),
        result matches Ok(constraint) ==> constraint == StructuredOutputConstraint::Json(
            parsed->Ok_0,
        ),
{
    match parsed {
        Ok(schema) => Ok(StructuredOutputConstraint::Json(schema)),
        Err(error) => {
            let message = "guided JSON schema is invalid: ".to_string().concat(error.as_str());
            Err(Status::invalid_argument(message.as_str()))
        },
    }
}

/// The backend of that name; guidance, where none is named.
pub open spec fn named_backend(name: Seq<char>) -> Option<StructuredOutputBackend> {
    if name.len() == 0 || name == "guidance"@ || name == "llguidance"@ {
        Some(StructuredOutputBackend::Guidance)
    } else if name == "xgrammar"@ {
        Some(StructuredOutputBackend::Xgrammar)
    } else if name == "outlines"@ {
        Some(StructuredOutputBackend::Outlines)
    } else if name == "lm-format-enforcer"@ {
        Some(StructuredOutputBackend::LmFormatEnforcer)
    } else {
        None
    }
}

fn parse_backend(name: &str) -> (backend: Option<StructuredOutputBackend>)
    ensures
        backend == named_backend(name@),
{
    if name.is_empty() || same_text(name, "guidance") || same_text(name, "llguidance") {
        Some(StructuredOutputBackend::Guidance)
    } else if same_text(name, "xgrammar") {
        Some(StructuredOutputBackend::Xgrammar)
    } else if same_text(name, "outlines") {
        Some(StructuredOutputBackend::Outlines)
    } else if same_text(name, "lm-format-enforcer") {
        Some(StructuredOutputBackend::LmFormatEnforcer)
    } else {
        None
    }
}

pub open spec fn guided_refusal(guided: pb::GuidedDecoding) -> Option<StatusView> {
    match guided.guide {
        None => Some(invalid_argument("guided decoding must set exactly one guide"@)),
        Some(guide) => if guide matches pb::Guide::JsonSchema(schema) && guide_schema_refusal(
            json_text_parse(schema@),
        ) is Some {
            guide_schema_refusal(json_text_parse(guide->JsonSchema_0@))
        } else if named_backend(guided.backend@) is None {
            Some(
                invalid_argument(
                    "unsupported guided decoding backend `"@ + guided.backend@ + "`"@,
                ),
            )
        } else {
            None
        },
    }
}

pub open spec fn guide_constraint(guide: pb::Guide) -> ConstraintView {
    match guide {
        pb::Guide::JsonSchema(schema) => ConstraintView::Json(json_text_parse(schema@)->Ok_0),
        pb::Guide::Regex(regex) => ConstraintView::Regex(regex@),
        pb::Guide::EbnfGrammar(grammar) => ConstraintView::Grammar(grammar@),
        pb::Guide::StructuralTag(tag) => ConstraintView::StructuralTag(tag@),
        pb::Guide::Choice(choice) => ConstraintView::Choice(choice.choices@),
        pb::Guide::JsonObject(_) => ConstraintView::JsonObject,
    }
}

/// Whether `params` are what an accepted guide asks for.
pub open spec fn guided_set(params: StructuredOutputsParams, guided: pb::GuidedDecoding) -> bool {
    &&& constraint_view(params.constraint) == guide_constraint(guided.guide->Some_0)
    &&& params.backend == named_backend(guided.backend@)
    &&& params.options == (StructuredOutputOptions {
        disable_any_whitespace: false,
        disable_additional_properties: false,
        whitespace_pattern: None,
    })
}

fn guided_to_structured_output(guided: pb::GuidedDecoding) -> (result: Result<
    StructuredOutputsParams,
    Status,
>)
    ensures
        refusal(result) == guided_refusal(guided),
        result matches Ok(params) ==> guided_set(params, guided),
{
    let guide = match guided.guide {
        Some(guide) => guide,
        None => {
            return Err(Status::invalid_argument("guided decoding must set exactly one guide"));
        },
    };
    let constraint = match guide {
        pb::Guide::JsonSchema(schema) => match guide_schema(json_from_str(schema.as_str())) {
            Ok(constraint) => constraint,
            Err(status) => {
                return Err(status);
            },
        },
        pb::Guide::Regex(regex) => StructuredOutputConstraint::Regex(regex),
        pb::Guide::EbnfGrammar(grammar) => StructuredOutputConstraint::Grammar(grammar),
        pb::Guide::StructuralTag(tag) => StructuredOutputConstraint::StructuralTag(tag),
        pb::Guide::Choice(choice) => StructuredOutputConstraint::Choice(choice.choices),
        pb::Guide::JsonObject(_) => StructuredOutputConstraint::JsonObject,
    };
    let backend = match parse_backend(guided.backend.as_str()) {
        Some(backend) => backend,
        None => {
            let message = "unsupported guided decoding backend `".to_string().concat(
                guided.backend.as_str(),
            ).concat("`");
            return Err(Status::invalid_argument(message.as_str()));
        },
    };
    Ok(
        StructuredOutputsParams {
            constraint,
            options: StructuredOutputOptions {
                disable_any_whitespace: false,
                disable_additional_properties: false,
                whitespace_pattern: None,
            },
            backend: Some(backend),
        },
    )
}

// The request.

pub open spec fn request_refusal(request: pb::GenerateRequest) -> Option<StatusView> {
    if request.sampling matches Some(s) && s.num_sequences matches Some(n) && n != 1 {
        Some(
            invalid_argument(
                "the vLLM Rust OpenEngine server currently supports num_sequences=1"@,
            ),
        )
    } else if request.sampling matches Some(s) && s.seed matches Some(seed) && seed > i64::MAX {
        Some(invalid_argument("sampling.seed exceeds i64::MAX"@))
    } else if response_refusal(request.response) is Some {
        response_refusal(request.response)
    } else if request.guided matches Some(guided) && guided_refusal(guided) is Some {
        guided_refusal(request.guided->Some_0)
    } else {
        None
    }
}

pub open spec fn no_sampling() -> pb::SamplingParams {
    pb::SamplingParams {
        temperature: None,
        top_p: None,
        top_k: None,
        min_p: None,
        frequency_penalty: None,
        presence_penalty: None,
        repetition_penalty: None,
        seed: None,
        num_sequences: None,
    }
}

/// The sampling options that are asked for; none, where neither sampling nor stopping asks for
/// any.
pub open spec fn wanted_sampling(
    sampling: Option<pb::SamplingParams>,
    stopping: Option<pb::StoppingOptions>,
) -> Option<private::SamplingParams> {
    let max_tokens = match stopping {
        Some(s) => s.max_tokens,
        None => None,
    };
    let min_tokens = match stopping {
        Some(s) => s.min_tokens,
        None => None,
    };
    let ignore_eos = match stopping {
        Some(s) => s.ignore_eos,
        None => None,
    };
    if sampling is None && max_tokens is None && min_tokens is None && ignore_eos is None {
        None
    } else {
        let s = match sampling {
            Some(s) => s,
            None => no_sampling(),
        };
        Some(
            private::SamplingParams {
                temperature: s.temperature,
                top_p: s.top_p,
                top_k: s.top_k,
                frequency_penalty: s.frequency_penalty,
                presence_penalty: s.presence_penalty,
                max_tokens,
                seed: match s.seed {
                    Some(seed) => Some(seed as i64),
                    None => None,
                },
                ignore_eos: ignore_eos == Some(true),
                min_p: s.min_p,
                repetition_penalty: s.repetition_penalty,
                min_tokens,
            },
        )
    }
}

pub open spec fn wanted_input(input: Option<pb::Input>) -> Option<private::Input> {
    match input {
        Some(pb::Input::Prompt(prompt)) => Some(private::Input::Prompt(prompt)),
        Some(pb::Input::TokenIds(ids)) => Some(
            private::Input::TokenIds(private::TokenIds { ids: ids.ids }),
        ),
        None => None,
    }
}

pub open spec fn wanted_condition(condition: pb::StopCondition) -> private::StopCondition {
    private::StopCondition {
        condition: match condition.condition {
            Some(pb::Condition::StopText(text)) => Some(private::Condition::StopText(text)),
            Some(pb::Condition::StopTokenId(id)) => Some(private::Condition::StopTokenId(id)),
            None => None,
        },
    }
}

pub open spec fn wanted_stop(stopping: Option<pb::StoppingOptions>) -> Seq<
    private::StopCondition,
> {
    match stopping {
        Some(s) => Seq::new(s.conditions@.len(), |i: int| wanted_condition(s.conditions@[i])),
        None => Seq::empty(),
    }
}

pub open spec fn wanted_media_item(item: pb::MediaItem) -> private::MediaItem {
    private::MediaItem {
        modality: item.modality,
        source: match item.source {
            Some(pb::MediaSource::Url(url)) => Some(private::MediaSource::Url(url)),
            Some(pb::MediaSource::DataUri(uri)) => Some(private::MediaSource::DataUri(uri)),
            Some(pb::MediaSource::RawBytes(bytes)) => Some(private::MediaSource::RawBytes(bytes)),
            None => None,
        },
        mime_type: item.mime_type,
        uuid: item.uuid,
    }
}

pub open spec fn wanted_media(media: Seq<pb::MediaItem>) -> Seq<private::MediaItem> {
    Seq::new(media.len(), |i: int| wanted_media_item(media[i]))
}

pub open spec fn wanted_session(session: pb::KvSessionRef) -> private::KvSessionRef {
    private::KvSessionRef {
        session_id: session.session_id,
        transfer_backend: session.transfer_backend,
        dp_rank: session.dp_rank,
        attributes_struct: session.attributes_struct,
    }
}

/// Whether `converted` is what an accepted request asks for, its id aside.
pub open spec fn private_request_set(
    converted: private::GenerateRequest,
    request: pb::GenerateRequest,
) -> bool {
    &&& converted.model == request.model
    &&& converted.input == wanted_input(request.input)
    &&& converted.sampling == wanted_sampling(request.sampling, request.stopping)
    &&& converted.stop@ == wanted_stop(request.stopping)
    &&& converted.stream
    &&& converted.media@ == wanted_media(request.media@)
    &&& converted.lora_name == request.lora_name
    &&& converted.kv_session == match request.kv {
        Some(pb::KvOptions { session: Some(session), .. }) => Some(wanted_session(session)),
        _ => None,
    }
    &&& converted.data_parallel_rank == match request.kv {
        Some(kv) => kv.data_parallel_rank,
        None => None,
    }
    &&& converted.priority == request.priority
}

pub open spec fn extensions_set(
    extensions: RequestExtensions,
    request: pb::GenerateRequest,
) -> bool {
    &&& scores_set(
        extensions.logprobs,
        extensions.prompt_logprobs,
        extensions.logprob_token_ids,
        request.response,
    )
    &&& match request.guided {
        Some(guided) => extensions.structured_outputs matches Some(params) && guided_set(
            params,
            guided,
        ),
        None => extensions.structured_outputs is None,
    }
    &&& extensions.include_stop_in_output == (request.stopping matches Some(s)
        && s.include_stop_in_output == Some(true))
    &&& extensions.cache_salt == match request.kv {
        Some(kv) => kv.cache_salt,
        None => None,
    }
    &&& extensions.bypass_prefix_cache == match request.kv {
        Some(kv) => kv.bypass_prefix_cache,
        None => None,
    }
    &&& extensions.skip_special_tokens == match request.response {
        Some(r) => r.skip_special_tokens,
        None => None,
    }
}

fn convert_conditions(conditions: Vec<pb::StopCondition>) -> (stop: Vec<private::StopCondition>)
    ensures
        stop@ == Seq::new(conditions@.len(), |i: int| wanted_condition(conditions@[i])),
{
    let ghost all = conditions@;
    let mut stop: Vec<private::StopCondition> = Vec::new();
    for condition in iter: conditions
        invariant
            iter.seq() == all,
            stop@ == Seq::new(iter.index() as nat, |i: int| wanted_condition(all[i])),
    {
        let converted = match condition.condition {
            Some(pb::Condition::StopText(text)) => Some(private::Condition::StopText(text)),
            Some(pb::Condition::StopTokenId(id)) => Some(private::Condition::StopTokenId(id)),
            None => None,
        };
        stop.push(private::StopCondition { condition: converted });
        assert(stop@ =~= Seq::new(
            (iter.index() + 1) as nat,
            |i: int| wanted_condition(all[i]),
        ));
    }
    stop
}

fn convert_media(media: Vec<pb::MediaItem>) -> (converted: Vec<private::MediaItem>)
    ensures
        converted@ == wanted_media(media@),
{
    let ghost all = media@;
    let mut converted: Vec<private::MediaItem> = Vec::new();
    for item in iter: media
        invariant
            iter.seq() == all,
            converted@ == Seq::new(iter.index() as nat, |i: int| wanted_media_item(all[i])),
    {
        let source = match item.source {
            Some(pb::MediaSource::Url(url)) => Some(private::MediaSource::Url(url)),
            Some(pb::MediaSource::DataUri(uri)) => Some(private::MediaSource::DataUri(uri)),
            Some(pb::MediaSource::RawBytes(bytes)) => Some(private::MediaSource::RawBytes(bytes)),
            None => None,
        };
        converted.push(
            private::MediaItem {
                modality: item.modality,
                source,
                mime_type: item.mime_type,
                uuid: item.uuid,
            },
        );
        assert(converted@ =~= Seq::new(
            (iter.index() + 1) as nat,
            |i: int| wanted_media_item(all[i]),
        ));
    }
    converted
}

fn convert_sampling(
    sampling: &Option<pb::SamplingParams>,
    stopping: &Option<pb::StoppingOptions>,
) -> (converted: Option<private::SamplingParams>)
    requires
        sampling matches Some(s) ==> s.seed matches Some(seed) ==> seed <= i64::MAX,
    ensures
        converted == wanted_sampling(*sampling, *stopping),
{
    let (max_tokens, min_tokens, ignore_eos) = match stopping {
        Some(s) => (s.max_tokens, s.min_tokens, s.ignore_eos),
        None => (None, None, None),
    };
    if sampling.is_none() && max_tokens.is_none() && min_tokens.is_none() && ignore_eos.is_none() {
        return None;
    }
    let s = match sampling {
        Some(s) => *s,
        None => pb::SamplingParams {
            temperature: None,
            top_p: None,
            top_k: None,
            min_p: None,
            frequency_penalty: None,
            presence_penalty: None,
            repetition_penalty: None,
            seed: None,
            num_sequences: None,
        },
    };
    let seed: Option<i64> = match s.seed {
        Some(seed) => Some(seed as i64),
        None => None,
    };
    Some(
        private::SamplingParams {
            temperature: s.temperature,
            top_p: s.top_p,
            top_k: s.top_k,
            frequency_penalty: s.frequency_penalty,
            presence_penalty: s.presence_penalty,
            max_tokens,
            seed,
            ignore_eos: match ignore_eos {
                Some(ignore) => ignore,
                None => false,
            },
            min_p: s.min_p,
            repetition_penalty: s.repetition_penalty,
            min_tokens,
        },
    )
}

/// Converts a request; `fresh_id` becomes its id where it has none of its own.
pub fn to_private_request_with_id(
    request: pb::GenerateRequest,
    fresh_id: String,
) -> (result: Result<(private::GenerateRequest, RequestExtensions), Status>)
    ensures
        refusal(result) == request_refusal(request),
        result matches Ok(converted) ==> private_request_set(converted.0, request)
            && extensions_set(converted.1, request) && converted.0.request_id == if
            request.request_id@.len() == 0 {
            fresh_id
        } else {
            request.request_id
        },
{
    if let Some(sampling) = &request.sampling {
        if let Some(n) = sampling.num_sequences {
            if n != 1 {
                return Err(
                    Status::invalid_argument(
                        "the vLLM Rust OpenEngine server currently supports num_sequences=1",
                    ),
                );
            }
        }
        if let Some(seed) = sampling.seed {
            if seed > 0x7fff_ffff_ffff_ffff {
                return Err(Status::invalid_argument("sampling.seed exceeds i64::MAX"));
            }
        }
    }
    let sampling = convert_sampling(&request.sampling, &request.stopping);
    let (logprobs, prompt_logprobs, logprob_token_ids) = match response_options(
        &request.response,
    ) {
        Ok(options) => options,
        Err(status) => {
            return Err(status);
        },
    };
    let skip_special_tokens = match &request.response {
        Some(response) => response.skip_special_tokens,
        None => None,
    };
    let structured_outputs = match request.guided {
        Some(guided) => match guided_to_structured_output(guided) {
            Ok(params) => Some(params),
            Err(status) => {
                return Err(status);
            },
        },
        None => None,
    };
    let input = match request.input {
        Some(pb::Input::Prompt(prompt)) => Some(private::Input::Prompt(prompt)),
        Some(pb::Input::TokenIds(ids)) => Some(
            private::Input::TokenIds(private::TokenIds { ids: ids.ids }),
        ),
        None => None,
    };
    let (stop, include_stop_in_output) = match request.stopping {
        Some(stopping) => (
            convert_conditions(stopping.conditions),
            match stopping.include_stop_in_output {
                Some(included) => included,
                None => false,
            },
        ),
        None => (Vec::new(), false),
    };
    let media = convert_media(request.media);
    let (kv_session, data_parallel_rank, cache_salt, bypass_prefix_cache) = match request.kv {
        Some(kv) => {
            let session = match kv.session {
                Some(session) => Some(
                    private::KvSessionRef {
                        session_id: session.session_id,
                        transfer_backend: session.transfer_backend,
                        dp_rank: session.dp_rank,
                        attributes_struct: session.attributes_struct,
                    },
                ),
                None => None,
            };
            (session, kv.data_parallel_rank, kv.cache_salt, kv.bypass_prefix_cache)
        },
        None => (None, None, None, None),
    };
    let request_id = if request.request_id.as_str().is_empty() {
        fresh_id
    } else {
        request.request_id
    };
    Ok(
        (
            private::GenerateRequest {
                request_id,
                model: request.model,
                input,
                sampling,
                stop,
                stream: true,
                media,
                lora_name: request.lora_name,
                kv_session,
                data_parallel_rank,
                priority: request.priority,
            },
            RequestExtensions {
                logprobs,
                prompt_logprobs,
                logprob_token_ids,
                structured_outputs,
                include_stop_in_output,
                cache_salt,
                bypass_prefix_cache,
                skip_special_tokens,
            },
        ),
    )
}

/// Converts a request. A request without an id gets a fresh one.
pub fn to_private_request(request: pb::GenerateRequest) -> (result: Result<
    (private::GenerateRequest, RequestExtensions),
    Status,
>)
    ensures
        refusal(result) == request_refusal(request),
        result matches Ok(converted) ==> private_request_set(converted.0, request)
            && extensions_set(converted.1, request) && if request.request_id@.len() == 0 {
            uuid_text(converted.0.request_id@)
        } else {
            converted.0.request_id == request.request_id
        },
{
    let fresh_id = if request.request_id.as_str().is_empty() {
        new_request_id()
    } else {
        String::new()
    };
    to_private_request_with_id(request, fresh_id)
}

/// Adds to a request what its messages do not carry.
pub fn apply_extensions(request: &mut TextRequest, extensions: RequestExtensions)
    ensures
        *final(request) == (TextRequest {
            sampling_params: SamplingParams {
                logprobs: extensions.logprobs,
                prompt_logprobs: extensions.prompt_logprobs,
                logprob_token_ids: extensions.logprob_token_ids,
                structured_outputs: extensions.structured_outputs,
                skip_reading_prefix_cache: extensions.bypass_prefix_cache,
                ..old(request).sampling_params
            },
            decode_options: TextDecodeOptions {
                include_stop_str_in_output: extensions.include_stop_in_output,
                skip_special_tokens: match extensions.skip_special_tokens {
                    Some(skip) => skip,
                    None => old(request).decode_options.skip_special_tokens,
                },
                ..old(request).decode_options
            },
            cache_salt: extensions.cache_salt,
            ..*old(request)
        }),
{
    request.sampling_params.logprobs = extensions.logprobs;
    request.sampling_params.prompt_logprobs = extensions.prompt_logprobs;
    request.sampling_params.logprob_token_ids = extensions.logprob_token_ids;
    request.sampling_params.structured_outputs = extensions.structured_outputs;
    request.sampling_params.skip_reading_prefix_cache = extensions.bypass_prefix_cache;
    request.decode_options.include_stop_str_in_output = extensions.include_stop_in_output;
    if let Some(skip_special_tokens) = extensions.skip_special_tokens {
        request.decode_options.skip_special_tokens = skip_special_tokens;
    }
    request.cache_salt = extensions.cache_salt;
}

// Laws.

/// Each sampling option of an accepted request is the one of the same name in the converted
/// request, and so is each limit of its stopping options. Where a request gives neither, the
/// converted one has no sampling options.
pub proof fn sampling_options_keep_their_names(
    converted: private::GenerateRequest,
    request: pb::GenerateRequest,
)
    requires
        private_request_set(converted, request),
        request_refusal(request) is None,
    ensures
        converted.sampling is None <==> request.sampling is None && (request.stopping matches Some(
            s,
        ) ==> s.max_tokens is None && s.min_tokens is None && s.ignore_eos is None),
        request.sampling matches Some(s) ==> {
            let p = converted.sampling->Some_0;
            &&& p.temperature == s.temperature
            &&& p.top_p == s.top_p
            &&& p.top_k == s.top_k
            &&& p.min_p == s.min_p
            &&& p.frequency_penalty == s.frequency_penalty
            &&& p.presence_penalty == s.presence_penalty
            &&& p.repetition_penalty == s.repetition_penalty
            &&& s.seed is None ==> p.seed is None
            &&& s.seed matches Some(seed) ==> (p.seed matches Some(given) && given == seed)
            &&& s.num_sequences matches Some(n) ==> n == 1
        },
        request.sampling is None ==> (converted.sampling matches Some(p) ==> p.temperature is None
            && p.top_p is None && p.top_k is None && p.min_p is None && p.frequency_penalty is None
            && p.presence_penalty is None && p.repetition_penalty is None && p.seed is None),
        converted.sampling matches Some(p) ==> match request.stopping {
            Some(s) => p.max_tokens == s.max_tokens && p.min_tokens == s.min_tokens
                && p.ignore_eos == (s.ignore_eos == Some(true)),
            None => p.max_tokens is None && p.min_tokens is None && !p.ignore_eos,
        },
{
}

/// The rest of an accepted request reaches the engine service as it is: model, prompt, adapter,
/// priority, rank, session, media and what to stop at, one for one and in order. It is always
/// streamed.
pub proof fn requests_keep_what_they_ask_for(
    converted: private::GenerateRequest,
    request: pb::GenerateRequest,
)
    requires
        private_request_set(converted, request),
    ensures
        converted.model == request.model,
        converted.lora_name == request.lora_name,
        converted.priority == request.priority,
        converted.stream,
        request.input is None <==> converted.input is None,
        request.input matches Some(pb::Input::Prompt(prompt)) ==> (
        converted.input matches Some(private::Input::Prompt(given)) && given@ == prompt@),
        request.input matches Some(pb::Input::TokenIds(ids)) ==> (
        converted.input matches Some(private::Input::TokenIds(given)) && given.ids@ == ids.ids@),
        request.stopping is None ==> converted.stop@.len() == 0,
        request.stopping matches Some(s) ==> converted.stop@.len() == s.conditions@.len()
            && forall|i: int|
            0 <= i < s.conditions@.len() ==> match (#[trigger] s.conditions@[i]).condition {
                Some(pb::Condition::StopText(text)) => converted.stop@[i].condition matches Some(
                    private::Condition::StopText(given),
                ) && given@ == text@,
                Some(pb::Condition::StopTokenId(id)) => converted.stop@[i].condition == Some(
                    private::Condition::StopTokenId(id),
                ),
                None => converted.stop@[i].condition is None,
            },
        converted.media@.len() == request.media@.len(),
        forall|i: int|
            0 <= i < request.media@.len() ==> {
                let given = converted.media@[i];
                let asked = #[trigger] request.media@[i];
                &&& given.modality == asked.modality
                &&& given.mime_type@ == asked.mime_type@
                &&& given.uuid@ == asked.uuid@
                &&& asked.source is None <==> given.source is None
                &&& asked.source matches Some(pb::MediaSource::Url(url)) ==> (
                given.source matches Some(private::MediaSource::Url(same)) && same@ == url@)
                &&& asked.source matches Some(pb::MediaSource::DataUri(uri)) ==> (
                given.source matches Some(private::MediaSource::DataUri(same)) && same@ == uri@)
                &&& asked.source matches Some(pb::MediaSource::RawBytes(bytes)) ==> (
                given.source matches Some(private::MediaSource::RawBytes(same)) && same@
                    == bytes@)
            },
        converted.kv_session is Some <==> (request.kv matches Some(kv) && kv.session is Some),
        request.kv matches Some(kv) ==> {
            &&& converted.data_parallel_rank == kv.data_parallel_rank
            &&& kv.session matches Some(session) ==> {
                let given = converted.kv_session->Some_0;
                &&& given.session_id@ == session.session_id@
                &&& given.transfer_backend@ == session.transfer_backend@
                &&& given.dp_rank == session.dp_rank
                &&& given.attributes_struct == session.attributes_struct
            }
        },
        request.kv is None ==> converted.data_parallel_rank is None,
{
    if let Some(s) = request.stopping {
        assert forall|i: int| 0 <= i < s.conditions@.len() implies converted.stop@[i]
            == wanted_condition(#[trigger] s.conditions@[i]) by {}
    }
    assert forall|i: int| 0 <= i < request.media@.len() implies converted.media@[i]
        == wanted_media_item(#[trigger] request.media@[i]) by {}
}

/// What the messages of the engine service do not carry goes into the extensions: the salt, how
/// the caches are used, whether special tokens and the stop text are written, and the guide with
/// its kind, its text and its backend.
pub proof fn extensions_keep_what_requests_ask_for(
    extensions: RequestExtensions,
    request: pb::GenerateRequest,
)
    requires
        extensions_set(extensions, request),
        request_refusal(request) is None,
    ensures
        request.kv is None ==> extensions.cache_salt is None
            && extensions.bypass_prefix_cache is None,
        request.kv matches Some(kv) ==> extensions.cache_salt == kv.cache_salt
            && extensions.bypass_prefix_cache == kv.bypass_prefix_cache,
        request.response is None ==> extensions.skip_special_tokens is None,
        request.response matches Some(r) ==> extensions.skip_special_tokens
            == r.skip_special_tokens,
        extensions.include_stop_in_output <==> (request.stopping matches Some(s)
            && s.include_stop_in_output == Some(true)),
        extensions.structured_outputs is Some <==> request.guided is Some,
        request.guided matches Some(guided) ==> {
            let params = extensions.structured_outputs->Some_0;
            let guide = guided.guide->Some_0;
            &&& guided.guide is Some
            &&& !params.options.disable_any_whitespace
            &&& !params.options.disable_additional_properties
            &&& params.options.whitespace_pattern is None
            &&& params.backend is Some
            &&& params.backend == Some(StructuredOutputBackend::Xgrammar) <==> guided.backend@
                == "xgrammar"@
            &&& params.backend == Some(StructuredOutputBackend::Outlines) <==> guided.backend@
                == "outlines"@
            &&& params.backend == Some(StructuredOutputBackend::LmFormatEnforcer)
                <==> guided.backend@ == "lm-format-enforcer"@
            &&& params.backend == Some(StructuredOutputBackend::Guidance) <==> guided.backend@
                == "guidance"@ || guided.backend@ == "llguidance"@ || guided.backend@.len() == 0
            &&& guide matches pb::Guide::JsonSchema(text) ==> (
            params.constraint matches StructuredOutputConstraint::Json(schema) && json_text_parse(
                text@,
            ) == Ok::<Json, Seq<char>>(schema.tree()))
            &&& guide matches pb::Guide::Regex(text) ==> (
            params.constraint matches StructuredOutputConstraint::Regex(same) && same@ == text@)
            &&& guide matches pb::Guide::EbnfGrammar(text) ==> (
            params.constraint matches StructuredOutputConstraint::Grammar(same) && same@ == text@)
            &&& guide matches pb::Guide::StructuralTag(text) ==> (
            params.constraint matches StructuredOutputConstraint::StructuralTag(same) && same@
                == text@)
            &&& guide matches pb::Guide::Choice(choice) ==> (
            params.constraint matches StructuredOutputConstraint::Choice(same) && same@
                == choice.choices@)
            &&& guide is JsonObject ==> params.constraint is JsonObject
        },
{
    reveal_strlit("guidance");
    reveal_strlit("llguidance");
    reveal_strlit("xgrammar");
    reveal_strlit("outlines");
    reveal_strlit("lm-format-enforcer");
    assert("guidance"@.len() == 8 && "llguidance"@.len() == 10 && "xgrammar"@.len() == 8
        && "outlines"@.len() == 8 && "lm-format-enforcer"@.len() == 18);
    assert("guidance"@[0] == 'g' && "xgrammar"@[0] == 'x' && "outlines"@[0] == 'o');
}

/// Scores are asked for by a selection, or by none: as many as the top ones that are selected,
/// all as minus one, those of named tokens by their ids, and where scores are only switched on,
/// that of the token itself, which is no further one. Prompt scores cannot be asked for by token.
pub proof fn scores_are_asked_for_as_selected(
    extensions: RequestExtensions,
    request: pb::GenerateRequest,
)
    requires
        extensions_set(extensions, request),
        request_refusal(request) is None,
    ensures
        request.response is None ==> extensions.logprobs is None
            && extensions.prompt_logprobs is None && extensions.logprob_token_ids is None,
        request.response matches Some(r) ==> {
            let output = match r.output_candidates {
                Some(candidates) => candidates.selection,
                None => None,
            };
            let prompt = match r.prompt_candidates {
                Some(candidates) => candidates.selection,
                None => None,
            };
            &&& r.prompt_logprob_start matches Some(start) ==> start == 0
            &&& output is Some ==> r.return_output_logprobs != Some(false)
            &&& prompt is Some ==> r.return_prompt_logprobs != Some(false)
            &&& output is None ==> extensions.logprobs == if r.return_output_logprobs == Some(
                true,
            ) {
                Some(0i32)
            } else {
                None
            }
            &&& output matches Some(pb::Selection::TopN(n)) ==> (
            extensions.logprobs matches Some(count) && count == n)
            &&& output matches Some(pb::Selection::All(_)) ==> extensions.logprobs == Some(-1i32)
            &&& output matches Some(pb::Selection::TokenIds(ids)) ==> extensions.logprobs is None
                && (extensions.logprob_token_ids matches Some(given) && given@ == ids.ids@)
            &&& extensions.logprob_token_ids is Some ==> (output matches Some(
                pb::Selection::TokenIds(_),
            ))
            &&& prompt is None ==> extensions.prompt_logprobs == if r.return_prompt_logprobs
                == Some(true) {
                Some(0i32)
            } else {
                None
            }
            &&& prompt matches Some(pb::Selection::TopN(n)) ==> (
            extensions.prompt_logprobs matches Some(count) && count == n)
            &&& prompt matches Some(pb::Selection::All(_)) ==> extensions.prompt_logprobs == Some(
                -1i32,
            )
            &&& !(prompt matches Some(pb::Selection::TokenIds(_)))
        },
{
}

/// A request is refused exactly where it asks for more or fewer than one sequence, its seed does
/// not fit, prompt scores are to start elsewhere than at the first token, a selection is made
/// where scores are switched off or counts more than can be asked for, prompt scores are asked
/// for by token, or its guide is missing, is no JSON or names an unknown backend.
pub proof fn requests_are_refused_for_these_reasons(request: pb::GenerateRequest)
    ensures
        request_refusal(request) is Some <==> {
            let output = match request.response {
                Some(pb::ResponseOptions { output_candidates: Some(candidates), .. }) =>
                    candidates.selection,
                _ => None,
            };
            let prompt = match request.response {
                Some(pb::ResponseOptions { prompt_candidates: Some(candidates), .. }) =>
                    candidates.selection,
                _ => None,
            };
            ||| request.sampling matches Some(s) && s.num_sequences matches Some(n) && n != 1
            ||| request.sampling matches Some(s) && s.seed matches Some(seed) && seed
                > 9223372036854775807
            ||| request.response matches Some(r) && r.prompt_logprob_start matches Some(start)
                && start != 0
            ||| request.response matches Some(r) && r.return_output_logprobs == Some(false)
                && output is Some
            ||| request.response matches Some(r) && r.return_prompt_logprobs == Some(false)
                && prompt is Some
            ||| output matches Some(pb::Selection::TopN(n)) && n > 2147483647
            ||| prompt matches Some(pb::Selection::TopN(n)) && n > 2147483647
            ||| prompt matches Some(pb::Selection::TokenIds(_))
            ||| request.guided matches Some(guided) && guided.guide is None
            ||| request.guided matches Some(guided) && guided.guide matches Some(
                pb::Guide::JsonSchema(text),
            ) && json_text_parse(text@) is Err
            ||| request.guided matches Some(guided) && guided.backend@.len() > 0 && guided.backend@
                != "guidance"@ && guided.backend@ != "llguidance"@ && guided.backend@
                != "xgrammar"@ && guided.backend@ != "outlines"@ && guided.backend@
                != "lm-format-enforcer"@
        },
        request_refusal(request) matches Some(status) ==> status.code == Code::InvalidArgument,
{
}

} // verus!
