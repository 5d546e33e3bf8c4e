//! The inference service.
//!
//! A request is prepared in steps. `begin_request` checks and converts it; then the adapter that
//! it names is resolved, its media are put into its prompt, and `finish_request` ends the
//! preparation.

use super::admission::{entered, place_refusal, AdmissionGuard, AdmissionState};
use super::convert::features::DecodedKwargs;
use super::convert::multimodal::{media_items_refusal, media_parts_from_request, part_carries};
use super::convert::request::{
    disaggregated_refusal, kv_role, mark_prefill_request, names_arguments_once, new_request_id,
    prefill_marked, request_decodable, request_refusal, role_from_kv_role,
    roles_follow_the_connector, text_request_set, to_text_request_with_id, uuid_text,
    validate_disaggregated_request, xargs_members, KvRole,
};
use super::convert::response::{
    carried_scores, experts_in_place, scores_stand_at_their_positions, sequence_output_set,
    to_prompt_info, to_sequence_output, wanted_prompt_scores, ResponseOpts,
};
use super::pb;
use crate::engine::{MediaContentPart, MmFeatureSpec, WireTensor};
use crate::generation::{
    DecodedLogprobs, DecodedPromptLogprobs, DecodedTextEvent, FinishReason, Finished, LoraRequest,
    Prompt, SamplingParams, TextRequest, TokenUsage,
};
use crate::json::JsonValue;
use crate::numbers::low_32;
use crate::state::AppState;
use crate::status::{
    failed_precondition, internal, invalid_argument, not_found, refusal, Code, Status, StatusView,
};
use crate::text::text_view;
use vstd::prelude::*;

verus! {

/// The inference service, over the state that it shares with the control service. What it needs
/// of the admission state, which both share as well, it is handed.
#[derive(Debug, PartialEq, Eq)]
pub struct InferenceServiceImpl {
    pub state: AppState,
}

/// A request on its way to the engine.
#[derive(Debug, PartialEq, Eq)]
pub struct PreparedRequest {
    pub text_request: TextRequest,
    pub media: Vec<MediaContentPart>,
    pub lora_name: String,
    pub role: KvRole,
}

/// The refusal of a request before an adapter is looked up or media are fetched.
pub open spec fn prepare_refusal(
    state: AppState,
    req: pb::GenerateRequest,
    decoded: Seq<Result<DecodedKwargs, String>>,
) -> Option<StatusView> {
    let role = kv_role(text_view(state.ready.kv_role));
    if disaggregated_refusal(req, role) is Some {
        disaggregated_refusal(req, role)
    } else if media_items_refusal(req.media@) is Some {
        media_items_refusal(req.media@)
    } else if request_refusal(req, decoded, state.served_model_names@) is Some {
        request_refusal(req, decoded, state.served_model_names@)
    } else if req.lora_name@.len() > 0 && !state.ready.supports_lora {
        Some(failed_precondition("engine was not started with LoRA enabled"@))
    } else {
        None
    }
}

/// Whether `prepared` is what an accepted request comes to, its id aside.
pub open spec fn prepared_set(
    prepared: PreparedRequest,
    state: AppState,
    req: pb::GenerateRequest,
    decoded: Seq<Result<DecodedKwargs, String>>,
    stream: bool,
) -> bool {
    &&& text_request_set(prepared.text_request, req, decoded, stream)
    &&& prepared.media@.len() == req.media@.len()
    &&& forall|i: int|
        0 <= i < req.media@.len() ==> part_carries(#[trigger] prepared.media@[i], req.media@[i])
    &&& prepared.lora_name == req.lora_name
    &&& prepared.role == kv_role(text_view(state.ready.kv_role))
}

/// The refusal of a request whose adapter was looked up.
pub open spec fn lora_refusal(
    lora_name: Seq<char>,
    consistent: bool,
    found: Option<LoraRequest>,
) -> Option<StatusView> {
    if !consistent {
        Some(
            failed_precondition("LoRA state differs across engine ranks; restart the engine"@),
        )
    } else if found is None {
        Some(not_found("LoRA adapter `"@ + lora_name + "` is not loaded"@))
    } else {
        None
    }
}

/// What media came to: the prompt with their placeholders and their features, or the report of
/// an error.
#[derive(Debug, PartialEq, Eq)]
pub struct PreparedMedia {
    pub token_ids: Vec<u32>,
    pub mm_features: Option<Vec<MmFeatureSpec>>,
}

impl InferenceServiceImpl {
    pub fn new(state: AppState) -> (service: InferenceServiceImpl)
        ensures
            service == (InferenceServiceImpl { state }),
    {
        InferenceServiceImpl { state }
    }

    /// Takes a place for a request.
    pub fn take_place(&self, admission: &mut AdmissionState) -> (result: Result<
        AdmissionGuard,
        Status,
    >)
        ensures
            refusal(result) == place_refusal(*old(admission)),
            *final(admission) == if old(admission).draining {
                *old(admission)
            } else {
                entered(*old(admission))
            },
    {
        admission.take_place()
    }

    /// Checks and converts a request; `fresh_id` becomes its id where it has none of its own.
    /// `decoded` holds what was decoded from the kwargs of its multimodal features.
    pub fn begin_request_with_id(
        &self,
        proto_request: pb::GenerateRequest,
        fresh_id: String,
        decoded: Vec<Result<DecodedKwargs, String>>,
        stream: bool,
    ) -> (result: Result<PreparedRequest, Status>)
        requires
            decoded@.len() >= request_decodable(proto_request),
        ensures
            refusal(result) == prepare_refusal(self.state, proto_request, decoded@),
            result matches Ok(prepared) ==> prepared_set(
                prepared,
                self.state,
                proto_request,
                decoded@,
                stream,
            ) && prepared.text_request.request_id == if proto_request.request_id@.len() == 0 {
                fresh_id
            } else {
                proto_request.request_id
            },
    {
        let role = match &self.state.ready.kv_role {
            Some(name) => role_from_kv_role(Some(name.as_str())),
            None => role_from_kv_role(None),
        };
        match validate_disaggregated_request(&proto_request, role) {
            Ok(()) => {},
            Err(status) => {
                return Err(status);
            },
        }
        let media = match media_parts_from_request(&proto_request.media) {
            Ok(media) => media,
            Err(status) => {
                return Err(status);
            },
        };
        let lora_name = proto_request.lora_name.clone();
        let text_request = match to_text_request_with_id(
            proto_request,
            fresh_id,
            decoded,
            stream,
            &self.state.served_model_names,
        ) {
            Ok(text_request) => text_request,
            Err(status) => {
                return Err(status);
            },
        };
        if !lora_name.as_str().is_empty() && !self.state.ready.supports_lora {
            return Err(Status::failed_precondition("engine was not started with LoRA enabled"));
        }
        Ok(PreparedRequest { text_request, media, lora_name, role })
    }

    /// Checks and converts a request. `decoded` holds what was decoded from the kwargs of its
    /// multimodal features, for at least as many of them as `request_features_to_decode` tells.
    /// A request without an id gets a fresh one.
    pub fn begin_request(
        &self,
        proto_request: pb::GenerateRequest,
        decoded: Vec<Result<DecodedKwargs, String>>,
        stream: bool,
    ) -> (result: Result<PreparedRequest, Status>)
        requires
            decoded@.len() >= request_decodable(proto_request),
        ensures
            refusal(result) == prepare_refusal(self.state, proto_request, decoded@),
            result matches Ok(prepared) ==> prepared_set(
                prepared,
                self.state,
                proto_request,
                decoded@,
                stream,
            ) && if proto_request.request_id@.len() == 0 {
                uuid_text(prepared.text_request.request_id@)
            } else {
                prepared.text_request.request_id == proto_request.request_id
            },
    {
        let fresh_id = if proto_request.request_id.as_str().is_empty() {
            new_request_id()
        } else {
            String::new()
        };
        self.begin_request_with_id(proto_request, fresh_id, decoded, stream)
    }
}

impl PreparedRequest {
    /// Whether the adapter of the request is to be looked up.
    pub fn names_adapter(&self) -> (names: bool)
        ensures
            names == (self.lora_name@.len() > 0),
    {
        !self.lora_name.as_str().is_empty()
    }

    /// Takes what looking up the adapter came to, and whether all ranks of the engine hold the
    /// same adapters.
    pub fn adapter_resolved(self, consistent: bool, found: Option<LoraRequest>) -> (result: Result<
        PreparedRequest,
        Status,
    >)
        ensures
            refusal(result) == lora_refusal(self.lora_name@, consistent, found),
            result matches Ok(prepared) ==> prepared == (PreparedRequest {
                text_request: TextRequest { lora_request: found, ..self.text_request },
                ..self
            }),
    {
        if !consistent {
            return Err(
                Status::failed_precondition(
                    "LoRA state differs across engine ranks; restart the engine",
                ),
            );
        }
        if found.is_none() {
            let message = "LoRA adapter `".to_string().concat(self.lora_name.as_str()).concat(
                "` is not loaded",
            );
            return Err(Status::not_found(message.as_str()));
        }
        let mut prepared = self;
        prepared.text_request.lora_request = found;
        Ok(prepared)
    }

    /// Whether there are media to put into the prompt, which then has to be given in tokens.
    pub fn carries_media(&self) -> (result: Result<bool, Status>)
        ensures
            refusal(result) == if self.media@.len() > 0 && self.text_request.prompt is Text {
                Some(invalid_argument("multimodal gRPC requests must provide token_ids input"@))
            } else {
                None
            },
            result matches Ok(carries) ==> carries == (self.media@.len() > 0),
    {
        if self.media.len() == 0 {
            return Ok(false);
        }
        match &self.text_request.prompt {
            Prompt::TokenIds(_) => Ok(true),
            Prompt::Text(_) => Err(
                Status::invalid_argument("multimodal gRPC requests must provide token_ids input"),
            ),
        }
    }

    /// Takes what preparing the media came to.
    pub fn media_prepared(self, outcome: Result<PreparedMedia, String>) -> (result: Result<
        PreparedRequest,
        Status,
    >)
        ensures
            match outcome {
                Ok(media) => result == Ok::<PreparedRequest, Status>(
                    PreparedRequest {
                        text_request: TextRequest {
                            prompt: Prompt::TokenIds(media.token_ids),
                            mm_features: media.mm_features,
                            ..self.text_request
                        },
                        ..self
                    },
                ),
                Err(report) => refusal(result) == Some(internal(report@)),
            },
    {
        match outcome {
            Ok(media) => {
                let mut prepared = self;
                prepared.text_request.prompt = Prompt::TokenIds(media.token_ids);
                prepared.text_request.mm_features = media.mm_features;
                Ok(prepared)
            },
            Err(report) => Err(Status::internal(report.as_str())),
        }
    }

    /// The request to send to the engine. On a server that prefills for others, it asks for its
    /// KV cache to be handed over.
    pub fn finish_request(self) -> (request: TextRequest)
        ensures
            names_arguments_once(self.text_request.sampling_params) ==> names_arguments_once(
                request.sampling_params,
            ),
            self.role != KvRole::Prefill ==> request == self.text_request,
            self.role == KvRole::Prefill ==> request.sampling_params.vllm_xargs is Some
                && xargs_members(request.sampling_params) == prefill_marked(
                xargs_members(self.text_request.sampling_params),
            ) && request == (TextRequest {
                sampling_params: request.sampling_params,
                ..self.text_request
            }) && request.sampling_params == (SamplingParams {
                vllm_xargs: request.sampling_params.vllm_xargs,
                ..self.text_request.sampling_params
            }),
    {
        let mut request = self.text_request;
        if self.role == KvRole::Prefill {
            mark_prefill_request(&mut request);
        }
        request
    }
}

/// A request that names an adapter carries no media.
pub proof fn adapters_and_media_exclude_each_other(
    state: AppState,
    req: pb::GenerateRequest,
    decoded: Seq<Result<DecodedKwargs, String>>,
)
    requires
        prepare_refusal(state, req, decoded) is None,
    ensures
        req.lora_name@.len() == 0 || (req.media@.len() == 0 && req.mm_features@.len() == 0),
{
}

/// The whole output of a generation.
#[derive(Debug, PartialEq, Eq)]
pub struct CollectedOutput {
    pub prompt_token_ids: Vec<u32>,
    pub prompt_logprobs: Option<DecodedPromptLogprobs>,
    pub text: String,
    pub token_ids: Vec<u32>,
    pub logprobs: Option<DecodedLogprobs>,
    pub usage: TokenUsage,
    pub finish_reason: FinishReason,
    pub kv_transfer_params: Option<JsonValue>,
    pub routed_experts: Option<WireTensor>,
}

/// How a collected generation ended.
pub open spec fn collected_end(collected: CollectedOutput) -> Finished {
    Finished {
        usage: collected.usage,
        finish_reason: collected.finish_reason,
        kv_transfer_params: collected.kv_transfer_params,
        routed_experts: collected.routed_experts,
    }
}

pub open spec fn borrowed<T>(value: Option<T>) -> Option<&'static T> {
    match value {
        Some(value) => Some(&value),
        None => None,
    }
}

pub open spec fn prompt_info_set(
    info: pb::PromptInfo,
    prompt_token_ids: Seq<u32>,
    prompt_logprobs: Option<DecodedPromptLogprobs>,
    opts: ResponseOpts,
) -> bool {
    &&& info.num_prompt_tokens == low_32(prompt_token_ids.len())
    &&& info.token_ids@ == if opts.prompt_token_ids {
        prompt_token_ids
    } else {
        Seq::empty()
    }
    &&& carried_scores(info.logprobs, info.ranks, info.candidate_tokens) == wanted_prompt_scores(
        borrowed(prompt_logprobs),
        opts,
    )
}

/// The one response to a request that is not streamed.
pub fn unary_response(collected: CollectedOutput, opts: &ResponseOpts) -> (response:
    pb::GenerateResponse)
    requires
        experts_in_place(Some(&collected_end(collected))),
    ensures
        response.prompt_info matches Some(info) && prompt_info_set(
            info,
            collected.prompt_token_ids@,
            collected.prompt_logprobs,
            *opts,
        ),
        response.outputs matches Some(output) && sequence_output_set(
            output,
            collected.text@,
            collected.token_ids@,
            borrowed(collected.logprobs),
            Some(&collected_end(collected)),
            *opts,
        ),
{
    let prompt_info = to_prompt_info(
        collected.prompt_token_ids.as_slice(),
        collected.prompt_logprobs.as_ref(),
        opts,
    );
    let finished = Finished {
        usage: collected.usage,
        finish_reason: collected.finish_reason,
        kv_transfer_params: collected.kv_transfer_params,
        routed_experts: collected.routed_experts,
    };
    let outputs = to_sequence_output(
        collected.text.as_str(),
        collected.token_ids.as_slice(),
        collected.logprobs.as_ref(),
        Some(&finished),
        opts,
    );
    pb::GenerateResponse { prompt_info: Some(prompt_info), outputs: Some(outputs) }
}

/// Whether the routed experts that an event brings, if there are any, stand in place.
pub open spec fn event_in_place(event: DecodedTextEvent) -> bool {
    event matches DecodedTextEvent::TextDelta { finished, .. } ==> experts_in_place(
        borrowed(finished),
    )
}

/// The response to an event of a request that is streamed.
pub fn stream_response(event: DecodedTextEvent, opts: &ResponseOpts) -> (response:
    pb::GenerateResponse)
    requires
        event_in_place(event),
    ensures
        match event {
            DecodedTextEvent::Start { prompt_token_ids, prompt_logprobs } => {
                &&& response.prompt_info matches Some(info) && prompt_info_set(
                    info,
                    prompt_token_ids@,
                    prompt_logprobs,
                    *opts,
                )
                &&& response.outputs is None
            },
            DecodedTextEvent::TextDelta { delta, token_ids, logprobs, finished } => {
                &&& response.prompt_info is None
                &&& response.outputs matches Some(output) && sequence_output_set(
                    output,
                    delta@,
                    token_ids@,
                    borrowed(logprobs),
                    borrowed(finished),
                    *opts,
                )
            },
        },
{
    match event {
        DecodedTextEvent::Start { prompt_token_ids, prompt_logprobs } => {
            let prompt_info = to_prompt_info(
                prompt_token_ids.as_slice(),
                prompt_logprobs.as_ref(),
                opts,
            );
            pb::GenerateResponse { prompt_info: Some(prompt_info), outputs: None }
        },
        DecodedTextEvent::TextDelta { delta, token_ids, logprobs, finished } => {
            let outputs = to_sequence_output(
                delta.as_str(),
                token_ids.as_slice(),
                logprobs.as_ref(),
                finished.as_ref(),
                opts,
            );
            pb::GenerateResponse { prompt_info: None, outputs: Some(outputs) }
        },
    }
}

/// The status that an error of the engine is answered with, given its report and whether the
/// request was at fault.
pub fn text_error_to_status(is_request_validation_error: bool, report: &str) -> (status: Status)
    ensures
        status@ == if is_request_validation_error {
            invalid_argument(report@)
        } else {
            internal(report@)
        },
{
    if is_request_validation_error {
        Status::invalid_argument(report)
    } else {
        Status::internal(report)
    }
}

/// A request is prepared with its own media, its own adapter and the role of the server, and is
/// turned away first for want of transfer parameters, then for its media, then for anything else
/// that it asks for, and last where the engine has no adapters.
pub proof fn requests_are_prepared_as_they_are(
    prepared: PreparedRequest,
    state: AppState,
    req: pb::GenerateRequest,
    decoded: Seq<Result<DecodedKwargs, String>>,
    stream: bool,
)
    requires
        prepared_set(prepared, state, req, decoded, stream),
        prepare_refusal(state, req, decoded) is None,
    ensures
        prepared.lora_name@ == req.lora_name@,
        prepared.media@.len() == req.media@.len(),
        prepared.text_request.intermediate == stream,
        prepared.text_request.priority == req.priority,
        prepared.role == KvRole::Prefill <==> (state.ready.kv_role matches Some(role) && role@
            == "kv_producer"@),
        prepared.role == KvRole::Decode <==> (state.ready.kv_role matches Some(role) && role@
            == "kv_consumer"@),
        req.lora_name@.len() > 0 ==> state.ready.supports_lora,
        media_items_refusal(req.media@) is None,
        request_refusal(req, decoded, state.served_model_names@) is None,
{
    roles_follow_the_connector(text_view(state.ready.kv_role));
}

/// An adapter is used exactly where all ranks hold the same ones and it was found.
pub proof fn adapters_are_used_where_found(
    lora_name: Seq<char>,
    consistent: bool,
    found: Option<LoraRequest>,
)
    ensures
        lora_refusal(lora_name, consistent, found) is None <==> consistent && found is Some,
        !consistent ==> (lora_refusal(lora_name, consistent, found) matches Some(status)
            && status.code == Code::FailedPrecondition),
        consistent && found is None ==> (lora_refusal(lora_name, consistent, found) matches Some(
            status,
        ) && status.code == Code::NotFound && status.message == "LoRA adapter `"@ + lora_name
            + "` is not loaded"@),
{
}

/// A prompt is told with the number of its tokens, and with the tokens where they are asked for.
pub proof fn prompts_are_told_as_they_are(
    info: pb::PromptInfo,
    prompt_token_ids: Seq<u32>,
    prompt_logprobs: Option<DecodedPromptLogprobs>,
    opts: ResponseOpts,
)
    requires
        prompt_info_set(info, prompt_token_ids, prompt_logprobs, opts),
    ensures
        prompt_token_ids.len() <= 4294967295 ==> info.num_prompt_tokens == prompt_token_ids.len(),
        opts.prompt_token_ids ==> info.token_ids@ == prompt_token_ids,
        !opts.prompt_token_ids ==> info.token_ids@.len() == 0,
        !(opts.prompt_logprobs && prompt_logprobs is Some) ==> info.logprobs@.len() == 0
            && info.ranks@.len() == 0 && info.candidate_tokens@.len() == 0,
        opts.prompt_logprobs && prompt_logprobs is Some ==> info.logprobs@.len()
            == prompt_logprobs->Some_0.scored_positions@.len() + 1,
{
    scores_stand_at_their_positions(
        info.logprobs,
        info.ranks,
        info.candidate_tokens,
        None,
        borrowed(prompt_logprobs),
        opts,
        0,
    );
}

/// A collected generation ends as it was collected.
pub proof fn collected_ends_are_kept(collected: CollectedOutput)
    ensures
        collected_end(collected).usage == collected.usage,
        collected_end(collected).finish_reason == collected.finish_reason,
        collected_end(collected).kv_transfer_params == collected.kv_transfer_params,
        collected_end(collected).routed_experts == collected.routed_experts,
{
}

/// A request is turned away for one of four reasons, looked for in this order: its transfer
/// parameters, its media, the rest of what it asks for, and an adapter where there are none.
pub proof fn requests_are_turned_away_in_order(
    state: AppState,
    req: pb::GenerateRequest,
    decoded: Seq<Result<DecodedKwargs, String>>,
)
    ensures
        ({
            let role = kv_role(text_view(state.ready.kv_role));
            let transfer = disaggregated_refusal(req, role);
            let media = media_items_refusal(req.media@);
            let rest = request_refusal(req, decoded, state.served_model_names@);
            let adapter = req.lora_name@.len() > 0 && !state.ready.supports_lora;
            let refused = prepare_refusal(state, req, decoded);
            &&& transfer is Some ==> refused == transfer
            &&& transfer is None && media is Some ==> refused == media
            &&& transfer is None && media is None && rest is Some ==> refused == rest
            &&& transfer is None && media is None && rest is None && adapter ==> (
            refused matches Some(status) && status.code == Code::FailedPrecondition)
            &&& transfer is None && media is None && rest is None && !adapter ==> refused is None
        }),
{
}

/// The media of a prepared request are those of the request, one for one and in order.
pub proof fn prepared_media_are_those_of_the_request(
    prepared: PreparedRequest,
    state: AppState,
    req: pb::GenerateRequest,
    decoded: Seq<Result<DecodedKwargs, String>>,
    stream: bool,
    i: int,
)
    requires
        prepared_set(prepared, state, req, decoded, stream),
        0 <= i < req.media@.len(),
    ensures
        req.media@[i].source matches Some(pb::MediaSource::Url(url)) ==> (
        prepared.media@[i] matches MediaContentPart::ImageUrl { url: same, .. } && same@ == url@),
        req.media@[i].source matches Some(pb::MediaSource::DataUri(uri)) ==> (
        prepared.media@[i] matches MediaContentPart::ImageUrl { url: same, .. } && same@ == uri@),
        req.media@[i].source matches Some(pb::MediaSource::RawBytes(bytes)) ==> (
        prepared.media@[i] matches MediaContentPart::ImageData { data, .. } && data@ == bytes@),
{
    assert(part_carries(prepared.media@[i], req.media@[i]));
}

} // verus!
