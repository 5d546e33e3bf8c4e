//! Generation requests.

use super::features::{
    by_offset, convert_mm_features, decodable, decodable_tokens, feature_views,
    features_carry_the_request, items_ordered, mm_features_refusal, mm_features_to_decode,
    wanted_all, DecodedKwargs,
};
use super::multimodal::given;
use super::sampling::{
    build_sampling_params, sampling_options_are_those_of_the_request, sampling_refusal,
    sampling_set,
};
use super::xargs::{accepted_xargs_are_bounded, parse_vllm_xargs_json, xargs_refusal};
use crate::engine::{in_name_order, MmFeatureSpec};
use crate::generation::{Prompt, SamplingParams, TextDecodeOptions, TextRequest};
use crate::grpc::pb;
use crate::json::{
    distinct_names, find_member, json_slice_parse, lemma_member_index_found,
    lemma_member_index_push, lemma_member_index_update, lemma_with_member_distinct,
    lemma_with_member_found, lemma_with_member_twice, member_index, member_value, members_of,
    names_once, set_member, with_member, Json, JsonValue,
};
use crate::lists::{listed, listed_texts};
use crate::status::{invalid_argument, not_found, refusal, Code, Status, StatusView};
use crate::text::same_text;
use vstd::prelude::*;

verus! {

/// The part that a server plays where prefill and decode run apart.
#[derive(Clone, Copy, Debug, PartialEq, Eq, Structural)]
pub enum KvRole {
    Aggregated,
    Prefill,
    Decode,
}

pub open spec fn kv_role(kv_role: Option<Seq<char>>) -> KvRole {
    if kv_role == Some("kv_producer"@) {
        KvRole::Prefill
    } else if kv_role == Some("kv_consumer"@) {
        KvRole::Decode
    } else {
        KvRole::Aggregated
    }
}

pub open spec fn text_of(text: Option<&str>) -> Option<Seq<char>> {
    match text {
        Some(text) => Some(text@),
        None => None,
    }
}

pub fn role_from_kv_role(kv_role: Option<&str>) -> (role: KvRole)
    ensures
        role == self::kv_role(text_of(kv_role)),
{
    proof {
        reveal_strlit("kv_producer");
        reveal_strlit("kv_consumer");
    }
    match kv_role {
        Some(name) => {
            if same_text(name, "kv_producer") {
                KvRole::Prefill
            } else if same_text(name, "kv_consumer") {
                KvRole::Decode
            } else {
                KvRole::Aggregated
            }
        },
        None => KvRole::Aggregated,
    }
}

/// Whether a request says where the KV cache of its prompt is to come from.
pub open spec fn has_transfer_params(request: pb::GenerateRequest) -> bool {
    request.kv matches Some(kv) && kv.kv_transfer_params matches Some(fields) && fields@.len() > 0
}

pub open spec fn disaggregated_refusal(request: pb::GenerateRequest, role: KvRole) -> Option<
    StatusView,
> {
    if role == KvRole::Decode && !has_transfer_params(request) {
        Some(invalid_argument("kv.kv_transfer_params is required for decode requests"@))
    } else {
        None
    }
}

pub fn validate_disaggregated_request(
    request: &pb::GenerateRequest,
    role: KvRole,
) -> (result: Result<(), Status>)
    ensures
        refusal(result) == disaggregated_refusal(*request, role),
{
    let has_transfer_params = match &request.kv {
        Some(kv) => match &kv.kv_transfer_params {
            Some(fields) => fields.len() > 0,
            None => false,
        },
        None => false,
    };
    if role == KvRole::Decode && !has_transfer_params {
        return Err(
            Status::invalid_argument("kv.kv_transfer_params is required for decode requests"),
        );
    }
    Ok(())
}

/// The arguments of a request whose KV cache another server is to take over.
pub open spec fn prefill_marked(members: Seq<(Seq<char>, Json)>) -> Seq<(Seq<char>, Json)> {
    let name = "kv_transfer_params"@;
    match member_index(members, name) {
        None => members.push(
            (name, Json::Object(seq![("do_remote_decode"@, Json::Bool(true))])),
        ),
        Some(i) => match members[i].1 {
            Json::Object(fields) => members.update(
                i,
                (
                    name,
                    Json::Object(with_member(fields, "do_remote_decode"@, Json::Bool(true))),
                ),
            ),
            _ => members,
        },
    }
}

/// The engine-specific arguments of a request, of which there may be none.
pub open spec fn xargs_members(params: SamplingParams) -> Seq<(Seq<char>, Json)> {
    match params.vllm_xargs {
        Some(members) => members_of(members@),
        None => Seq::empty(),
    }
}

/// Whether no two engine-specific arguments of a request have the same name.
pub open spec fn names_arguments_once(params: SamplingParams) -> bool {
    distinct_names(xargs_members(params))
}

pub fn mark_prefill_request(request: &mut TextRequest)
    ensures
        names_arguments_once(old(request).sampling_params) ==> names_arguments_once(
            final(request).sampling_params,
        ),
        final(request).sampling_params.vllm_xargs is Some,
        xargs_members(final(request).sampling_params) == prefill_marked(
            xargs_members(old(request).sampling_params),
        ),
        *final(request) == (TextRequest {
            sampling_params: SamplingParams {
                vllm_xargs: final(request).sampling_params.vllm_xargs,
                ..old(request).sampling_params
            },
            ..*old(request)
        }),
{
    let mut members = match request.sampling_params.vllm_xargs.take() {
        Some(members) => members,
        None => Vec::new(),
    };
    let ghost before = members_of(members@);
    assert(before =~= xargs_members(old(request).sampling_params));
    match find_member(&members, "kv_transfer_params") {
        None => {
            let mut fields: Vec<(String, JsonValue)> = Vec::new();
            fields.push(("do_remote_decode".to_string(), JsonValue::Bool(true)));
            assert(JsonValue::Bool(true).tree() == Json::Bool(true));
            assert(members_of(fields@) =~= seq![("do_remote_decode"@, Json::Bool(true))]);
            let params = JsonValue::Object(fields);
            assert(params.tree()->Object_0 =~= members_of(fields@));
            members.push(("kv_transfer_params".to_string(), params));
            assert(members_of(members@) =~= prefill_marked(before));
        },
        Some(i) => {
            let (name, value) = members.remove(i);
            let marked = match value {
                JsonValue::Object(mut fields) => {
                    assert(value.tree()->Object_0 =~= members_of(fields@));
                    set_member(&mut fields, "do_remote_decode", JsonValue::Bool(true));
                    let params = JsonValue::Object(fields);
                    assert(params.tree()->Object_0 =~= members_of(fields@));
                    params
                },
                other => other,
            };
            members.insert(i, (name, marked));
            assert(before[i as int].0 == "kv_transfer_params"@);
            assert(members_of(members@) =~= prefill_marked(before));
        },
    }
    proof {
        if distinct_names(before) {
            marking_keeps_names_distinct(before);
        }
    }
    request.sampling_params.vllm_xargs = Some(members);
}

/// Where the arguments of a request have different names, those of the marked request have; and
/// where no object in them has a name twice, none has afterwards.
pub proof fn marking_keeps_names_distinct(members: Seq<(Seq<char>, Json)>)
    requires
        distinct_names(members),
    ensures
        distinct_names(prefill_marked(members)),
        names_once(Json::Object(members)) ==> names_once(Json::Object(prefill_marked(members))),
{
    let name = "kv_transfer_params"@;
    lemma_member_index_found(members, name);
    match member_index(members, name) {
        None => {
            let value = Json::Object(seq![("do_remote_decode"@, Json::Bool(true))]);
            lemma_with_member_distinct(members, name, value);
            reveal_with_fuel(names_once, 2);
        },
        Some(i) => match members[i].1 {
            Json::Object(fields) => {
                let value = Json::Object(
                    with_member(fields, "do_remote_decode"@, Json::Bool(true)),
                );
                lemma_with_member_distinct(members, name, value);
                if names_once(Json::Object(members)) {
                    assert(names_once(members[i].1));
                    lemma_with_member_distinct(fields, "do_remote_decode"@, Json::Bool(true));
                    assert(names_once(value));
                }
            },
            _ => {},
        },
    }
}

/// Marking a request again changes nothing.
pub proof fn marking_is_idempotent(members: Seq<(Seq<char>, Json)>)
    ensures
        prefill_marked(prefill_marked(members)) == prefill_marked(members),
{
    let name = "kv_transfer_params"@;
    let once = prefill_marked(members);
    match member_index(members, name) {
        None => {
            lemma_member_index_push(members, name, once.last().1);
            let fields = seq![("do_remote_decode"@, Json::Bool(true))];
            let none = Seq::<(Seq<char>, Json)>::empty();
            lemma_member_index_push(none, "do_remote_decode"@, Json::Bool(true));
            assert(none.push(("do_remote_decode"@, Json::Bool(true))) =~= fields);
            assert(fields.update(0, fields[0]) =~= fields);
            assert(prefill_marked(once) =~= once);
        },
        Some(i) => {
            lemma_member_index_found(members, name);
            match members[i].1 {
                Json::Object(fields) => {
                    let value = once[i].1;
                    lemma_member_index_update(members, name, value);
                    lemma_with_member_twice(fields, "do_remote_decode"@, Json::Bool(true));
                    assert(prefill_marked(once) =~= once);
                },
                _ => {},
            }
        },
    }
}

/// A marked request asks for remote decoding, unless its transfer parameters are no object, and
/// all its other arguments are kept.
pub proof fn marking_asks_for_remote_decoding(members: Seq<(Seq<char>, Json)>)
    ensures
        ({
            let name = "kv_transfer_params"@;
            let marked = prefill_marked(members);
            &&& member_value(marked, name) is Some
            &&& member_value(marked, name) matches Some(Json::Object(fields)) ==> member_value(
                fields,
                "do_remote_decode"@,
            ) == Some(Json::Bool(true))
            &&& forall|k: int|
                0 <= k < members.len() && (#[trigger] members[k]).0 != name ==> marked[k]
                    == members[k]
        }),
{
    let name = "kv_transfer_params"@;
    let marked = prefill_marked(members);
    match member_index(members, name) {
        None => {
            lemma_member_index_push(members, name, marked.last().1);
            let fields = seq![("do_remote_decode"@, Json::Bool(true))];
            let none = Seq::<(Seq<char>, Json)>::empty();
            lemma_member_index_push(none, "do_remote_decode"@, Json::Bool(true));
            assert(none.push(("do_remote_decode"@, Json::Bool(true))) =~= fields);
        },
        Some(i) => {
            lemma_member_index_found(members, name);
            match members[i].1 {
                Json::Object(fields) => {
                    lemma_member_index_update(members, name, marked[i].1);
                    lemma_with_member_found(fields, "do_remote_decode"@, Json::Bool(true));
                },
                _ => {},
            }
        },
    }
}

/// Whether `text` is a version 4 UUID, written in lower case with hyphens.
pub open spec fn uuid_text(text: Seq<char>) -> bool {
    &&& text.len() == 36
    &&& forall|i: int|
        0 <= i < 36 ==> if i == 8 || i == 13 || i == 18 || i == 23 {
            (#[trigger] text[i]) == '-'
        } else {
            '0' <= text[i] <= '9' || 'a' <= text[i] <= 'f'
        }
    &&& text[14] == '4'
    &&& text[19] == '8' || text[19] == '9' || text[19] == 'a' || text[19] == 'b'
}

/// Calls `uuid::Uuid::new_v4` and writes the result in lower case with hyphens. Which UUID comes
/// is left to chance.
#[verifier::external_body]
pub(crate) fn new_request_id() -> (id: String)
    ensures
        uuid_text(id@),
{
    uuid::Uuid::new_v4().to_string()
}

pub open spec fn serves(names: Seq<String>, model: Seq<char>) -> bool {
    exists|i: int| 0 <= i < names.len() && (#[trigger] names[i])@ == model
}

pub fn is_served(names: &Vec<String>, model: &str) -> (served: bool)
    ensures
        served == serves(names@, model@),
{
    for i in 0..names.len()
        invariant
            forall|j: int| 0 <= j < i ==> (#[trigger] names@[j])@ != model@,
    {
        if same_text(names[i].as_str(), model) {
            return true;
        }
    }
    false
}

pub open spec fn wanted_prompt(prompt: pb::PromptInput) -> Prompt {
    match prompt {
        pb::PromptInput::Text(text) => Prompt::Text(text),
        pb::PromptInput::TokenIds(ids) => Prompt::TokenIds(ids.ids),
    }
}

/// The refusal of a request that needs no look at its options.
pub open spec fn head_refusal(req: pb::GenerateRequest, served: Seq<String>) -> Option<
    StatusView,
> {
    if req.model@.len() > 0 && !serves(served, req.model@) {
        Some(not_found("model `"@ + req.model@ + "` not found"@))
    } else if req.truncate_prompt_tokens != 0 {
        Some(invalid_argument("truncate_prompt_tokens is not supported"@))
    } else if req.media@.len() > 0 && req.mm_features@.len() > 0 {
        Some(invalid_argument("media and mm_features are mutually exclusive"@))
    } else if req.lora_name@.len() > 0 && (req.media@.len() > 0 || req.mm_features@.len() > 0) {
        Some(
            invalid_argument(
                "native gRPC does not yet advertise tower-LoRA multimodal cache semantics; multimodal requests with LoRA are unsupported"@,
            ),
        )
    } else {
        match req.prompt {
            None => Some(invalid_argument("prompt is required"@)),
            Some(pb::PromptInput::TokenIds(ids)) => if req.routed_experts_prompt_start
                >= ids.ids@.len() {
                Some(
                    invalid_argument(
                        "routed_experts_prompt_start must be less than the prompt length"@,
                    ),
                )
            } else {
                None
            },
            Some(pb::PromptInput::Text(_)) => if req.routed_experts_prompt_start != 0 {
                Some(
                    invalid_argument(
                        "nonzero routed_experts_prompt_start requires a token-ID prompt"@,
                    ),
                )
            } else {
                None
            },
        }
    }
}

pub open spec fn request_refusal(
    req: pb::GenerateRequest,
    decoded: Seq<Result<DecodedKwargs, String>>,
    served: Seq<String>,
) -> Option<StatusView> {
    if head_refusal(req, served) is Some {
        head_refusal(req, served)
    } else if sampling_refusal(req.sampling, req.decoding, req.response) is Some {
        sampling_refusal(req.sampling, req.decoding, req.response)
    } else if req.vllm_xargs_json matches Some(raw) && xargs_refusal(raw@) is Some {
        xargs_refusal(req.vllm_xargs_json->Some_0@)
    } else {
        mm_features_refusal(req.mm_features@, decoded, wanted_prompt(req.prompt->Some_0))
    }
}

/// The engine-specific arguments of a request: those that it gives as JSON, and where its KV
/// cache is to come from or go to.
pub open spec fn wanted_xargs(req: pb::GenerateRequest) -> Option<Seq<(Seq<char>, Json)>> {
    let given = match req.vllm_xargs_json {
        Some(raw) => Some(json_slice_parse(raw@)->Ok_0->Object_0),
        None => None,
    };
    match req.kv {
        Some(pb::KvCacheParameters { kv_transfer_params: Some(fields), .. }) => Some(
            with_member(
                match given {
                    Some(members) => members,
                    None => Seq::empty(),
                },
                "kv_transfer_params"@,
                Json::Object(members_of(fields@)),
            ),
        ),
        _ => given,
    }
}

/// Whether no object in the transfer parameters of a request has a name twice.
pub open spec fn transfer_fields_once(req: pb::GenerateRequest) -> bool {
    req.kv matches Some(pb::KvCacheParameters { kv_transfer_params: Some(fields), .. })
        ==> names_once(Json::Object(members_of(fields@)))
}

pub open spec fn decode_options_set(
    options: TextDecodeOptions,
    stopping: Option<pb::StoppingCriteria>,
) -> bool {
    &&& options.skip_special_tokens
    &&& match stopping {
        Some(s) => {
            &&& options.include_stop_str_in_output == s.include_stop_strings
            &&& listed(options.stop_strings, s.stop_strings@)
            &&& options.min_tokens == s.min_new_tokens
        },
        None => {
            &&& !options.include_stop_str_in_output
            &&& options.stop_strings is None
            &&& options.min_tokens == 0
        },
    }
}

pub open spec fn mm_features_set(
    converted: Option<Vec<MmFeatureSpec>>,
    features: Seq<pb::PreprocessedMultimodalFeature>,
    decoded: Seq<Result<DecodedKwargs, String>>,
) -> bool {
    match converted {
        None => features.len() == 0,
        Some(converted) => features.len() > 0 && items_ordered(converted@) && feature_views(
            converted@,
        ) == by_offset(wanted_all(features, decoded, features.len())),
    }
}

/// Whether `text` is what an accepted request asks for, its id aside.
pub open spec fn text_request_set(
    text: TextRequest,
    req: pb::GenerateRequest,
    decoded: Seq<Result<DecodedKwargs, String>>,
    stream: bool,
) -> bool {
    let params = text.sampling_params;
    &&& text.prompt == wanted_prompt(req.prompt->Some_0)
    &&& mm_features_set(text.mm_features, req.mm_features@, decoded)
    &&& sampling_set(
        params,
        req.temperature,
        req.sampling,
        req.decoding,
        req.stopping,
        req.response,
    )
    &&& params.routed_experts_prompt_start == req.routed_experts_prompt_start
    &&& match params.vllm_xargs {
        Some(members) => wanted_xargs(req) == Some(members_of(members@)),
        None => wanted_xargs(req) is None,
    }
    &&& names_arguments_once(params)
    &&& transfer_fields_once(req) ==> names_once(Json::Object(xargs_members(params)))
    &&& params.skip_reading_prefix_cache == if req.kv matches Some(kv) && kv.bypass_prefix_cache {
        Some(true)
    } else {
        None
    }
    &&& decode_options_set(text.decode_options, req.stopping)
    &&& text.intermediate == stream
    &&& text.priority == req.priority
    &&& text.cache_salt == match req.kv {
        Some(kv) => given(kv.cache_salt),
        None => None,
    }
    &&& text.add_special_tokens
    &&& text.data_parallel_rank is None
    &&& text.reasoning_parser_kwargs is None
    &&& text.lora_request is None
    &&& text.arrival_time is None
}

fn check_head(req: &pb::GenerateRequest, served_model_names: &Vec<String>) -> (result: Result<
    (),
    Status,
>)
    ensures
        refusal(result) == head_refusal(*req, served_model_names@),
{
    if !req.model.as_str().is_empty() && !is_served(served_model_names, req.model.as_str()) {
        let message = "model `".to_string().concat(req.model.as_str()).concat("` not found");
        return Err(Status::not_found(message.as_str()));
    }
    if req.truncate_prompt_tokens != 0 {
        return Err(Status::invalid_argument("truncate_prompt_tokens is not supported"));
    }
    if req.media.len() > 0 && req.mm_features.len() > 0 {
        return Err(Status::invalid_argument("media and mm_features are mutually exclusive"));
    }
    if !req.lora_name.as_str().is_empty() && (req.media.len() > 0 || req.mm_features.len() > 0) {
        return Err(
            Status::invalid_argument(
                "native gRPC does not yet advertise tower-LoRA multimodal cache semantics; multimodal requests with LoRA are unsupported",
            ),
        );
    }
    match &req.prompt {
        None => Err(Status::invalid_argument("prompt is required")),
        Some(pb::PromptInput::TokenIds(ids)) => {
            if req.routed_experts_prompt_start as usize >= ids.ids.len() {
                return Err(
                    Status::invalid_argument(
                        "routed_experts_prompt_start must be less than the prompt length",
                    ),
                );
            }
            Ok(())
        },
        Some(pb::PromptInput::Text(_)) => {
            if req.routed_experts_prompt_start != 0 {
                return Err(
                    Status::invalid_argument(
                        "nonzero routed_experts_prompt_start requires a token-ID prompt",
                    ),
                );
            }
            Ok(())
        },
    }
}

fn decode_options(stopping: &Option<pb::StoppingCriteria>) -> (options: TextDecodeOptions)
    ensures
        decode_options_set(options, *stopping),
{
    match stopping {
        Some(s) => TextDecodeOptions {
            skip_special_tokens: true,
            include_stop_str_in_output: s.include_stop_strings,
            stop_strings: listed_texts(&s.stop_strings),
            min_tokens: s.min_new_tokens,
        },
        None => TextDecodeOptions {
            skip_special_tokens: true,
            include_stop_str_in_output: false,
            stop_strings: None,
            min_tokens: 0,
        },
    }
}

/// How many features of a request, counted from the first, have kwargs that are to be decoded.
pub open spec fn request_decodable(req: pb::GenerateRequest) -> nat {
    match req.prompt {
        Some(prompt) => decodable(req.mm_features@, wanted_prompt(prompt)),
        None => 0,
    }
}

/// The number of features of a request, counted from the first, whose kwargs are to be decoded
/// for its conversion.
pub fn request_features_to_decode(req: &pb::GenerateRequest) -> (count: usize)
    ensures
        count == request_decodable(*req),
        count <= req.mm_features@.len(),
{
    match &req.prompt {
        Some(pb::PromptInput::TokenIds(ids)) => mm_features_to_decode(
            &req.mm_features,
            ids.ids.len(),
        ),
        _ => 0,
    }
}

/// Converts a request; `fresh_id` becomes its id where it has none of its own.
pub fn to_text_request_with_id(
    req: pb::GenerateRequest,
    fresh_id: String,
    decoded: Vec<Result<DecodedKwargs, String>>,
    stream: bool,
    served_model_names: &Vec<String>,
) -> (result: Result<TextRequest, Status>)
    requires
        decoded@.len() >= request_decodable(req),
    ensures
        refusal(result) == request_refusal(req, decoded@, served_model_names@),
        result matches Ok(text) ==> text_request_set(text, req, decoded@, stream)
            && text.request_id == if req.request_id@.len() == 0 {
            fresh_id
        } else {
            req.request_id
        },
{
    match check_head(&req, served_model_names) {
        Ok(()) => {},
        Err(status) => {
            return Err(status);
        },
    }
    let mut sampling_params = match build_sampling_params(
        req.temperature,
        req.sampling.as_ref(),
        req.decoding.as_ref(),
        req.stopping.as_ref(),
        req.response.as_ref(),
    ) {
        Ok(params) => params,
        Err(status) => {
            return Err(status);
        },
    };
    sampling_params.routed_experts_prompt_start = req.routed_experts_prompt_start;
    let mut xargs: Option<Vec<(String, JsonValue)>> = None;
    if let Some(raw) = &req.vllm_xargs_json {
        match parse_vllm_xargs_json(raw.as_slice()) {
            Ok(members) => {
                xargs = Some(members);
            },
            Err(status) => {
                return Err(status);
            },
        }
    }
    let mut cache_salt: Option<String> = None;
    if let Some(kv) = req.kv {
        if let Some(fields) = kv.kv_transfer_params {
            let mut members = match xargs {
                Some(members) => members,
                None => Vec::new(),
            };
            let ghost given = members_of(members@);
            let params = JsonValue::Object(fields);
            assert(params.tree()->Object_0 =~= members_of(fields@));
            set_member(&mut members, "kv_transfer_params", params);
            assert(req.vllm_xargs_json is None ==> given =~= Seq::empty());
            proof {
                assert(names_once(Json::Object(given)));
                lemma_with_member_distinct(given, "kv_transfer_params"@, params.tree());
                assert(params.tree() == Json::Object(members_of(fields@)));
            }
            xargs = Some(members);
        }
        if kv.bypass_prefix_cache {
            sampling_params.skip_reading_prefix_cache = Some(true);
        }
        if !kv.cache_salt.as_str().is_empty() {
            cache_salt = Some(kv.cache_salt);
        }
    }
    sampling_params.vllm_xargs = xargs;
    let decode_options = decode_options(&req.stopping);
    let prompt = match req.prompt {
        Some(pb::PromptInput::Text(text)) => Prompt::Text(text),
        Some(pb::PromptInput::TokenIds(ids)) => Prompt::TokenIds(ids.ids),
        None => {
            return Err(Status::invalid_argument("prompt is required"));
        },
    };
    let mm_features = match convert_mm_features(&req.mm_features, decoded, &prompt) {
        Ok(features) => features,
        Err(status) => {
            return Err(status);
        },
    };
    let request_id = if req.request_id.as_str().is_empty() {
        fresh_id
    } else {
        req.request_id
    };
    Ok(
        TextRequest {
            request_id,
            prompt,
            mm_features,
            sampling_params,
            decode_options,
            intermediate: stream,
            priority: req.priority,
            cache_salt,
            add_special_tokens: true,
            data_parallel_rank: None,
            reasoning_parser_kwargs: None,
            lora_request: None,
            arrival_time: None,
        },
    )
}

/// Converts a request. `decoded` holds what was decoded from the kwargs of its multimodal
/// features, for at least as many of them as `request_features_to_decode` tells. A request
/// without an id gets a fresh one.
pub fn to_text_request(
    req: pb::GenerateRequest,
    decoded: Vec<Result<DecodedKwargs, String>>,
    stream: bool,
    served_model_names: &Vec<String>,
) -> (result: Result<TextRequest, Status>)
    requires
        decoded@.len() >= request_decodable(req),
    ensures
        refusal(result) == request_refusal(req, decoded@, served_model_names@),
        result matches Ok(text) ==> text_request_set(text, req, decoded@, stream) && if
            req.request_id@.len() == 0 {
            uuid_text(text.request_id@)
        } else {
            text.request_id == req.request_id
        },
{
    let fresh_id = if req.request_id.as_str().is_empty() {
        new_request_id()
    } else {
        String::new()
    };
    to_text_request_with_id(req, fresh_id, decoded, stream, served_model_names)
}

// Laws.

/// A producer of KV caches prefills, a consumer of them decodes, and every other server does
/// both.
pub proof fn roles_follow_the_connector(name: Option<Seq<char>>)
    ensures
        kv_role(name) == KvRole::Prefill <==> name == Some("kv_producer"@),
        kv_role(name) == KvRole::Decode <==> name == Some("kv_consumer"@),
{
    reveal_strlit("kv_producer");
    reveal_strlit("kv_consumer");
    assert("kv_producer"@[3] == 'p' && "kv_consumer"@[3] == 'c');
}

/// Only a server that decodes for others turns a request away for want of transfer parameters,
/// and it does so exactly where there are none or they are empty.
pub proof fn decoding_needs_transfer_params(req: pb::GenerateRequest, role: KvRole)
    ensures
        disaggregated_refusal(req, role) is Some <==> role == KvRole::Decode && !(
        req.kv matches Some(kv) && kv.kv_transfer_params matches Some(fields) && fields@.len()
            > 0),
        disaggregated_refusal(req, role) matches Some(status) ==> status.code
            == Code::InvalidArgument,
{
}

/// A request is turned away before its options are looked at exactly where its model is not
/// served, its prompt is to be cut, media come with features, an adapter comes with either, it
/// has no prompt, or the experts' routes start behind the prompt or in a text.
pub proof fn heads_are_refused_for_these_reasons(req: pb::GenerateRequest, served: Seq<String>)
    ensures
        head_refusal(req, served) is Some <==> {
            ||| req.model@.len() > 0 && forall|i: int|
                0 <= i < served.len() ==> (#[trigger] served[i])@ != req.model@
            ||| req.truncate_prompt_tokens != 0
            ||| req.media@.len() > 0 && req.mm_features@.len() > 0
            ||| req.lora_name@.len() > 0 && req.media@.len() + req.mm_features@.len() > 0
            ||| req.prompt is None
            ||| req.prompt matches Some(pb::PromptInput::TokenIds(ids))
                && req.routed_experts_prompt_start >= ids.ids@.len()
            ||| req.prompt matches Some(pb::PromptInput::Text(_))
                && req.routed_experts_prompt_start > 0
        },
        head_refusal(req, served) matches Some(status) ==> (status.code == Code::NotFound
            || status.code == Code::InvalidArgument),
        (head_refusal(req, served) matches Some(status) && status.code == Code::NotFound) <==> (
        req.model@.len() > 0 && forall|i: int|
            0 <= i < served.len() ==> (#[trigger] served[i])@ != req.model@),
{
}

/// What an accepted request says reaches the engine under its own name: the prompt, the limits,
/// the penalties, what it stops at, its priority, its salt and how its caches are used.
pub proof fn text_requests_carry_the_request(
    text: TextRequest,
    req: pb::GenerateRequest,
    decoded: Seq<Result<DecodedKwargs, String>>,
    stream: bool,
    served: Seq<String>,
)
    requires
        text_request_set(text, req, decoded, stream),
        request_refusal(req, decoded, served) is None,
    ensures
        req.prompt matches Some(pb::PromptInput::Text(prompt)) ==> (
        text.prompt matches Prompt::Text(given) && given@ == prompt@),
        req.prompt matches Some(pb::PromptInput::TokenIds(ids)) ==> (
        text.prompt matches Prompt::TokenIds(given) && given@ == ids.ids@),
        text.intermediate == stream,
        text.priority == req.priority,
        text.add_special_tokens,
        text.lora_request is None,
        text.data_parallel_rank is None,
        text.reasoning_parser_kwargs is None,
        text.arrival_time is None,
        text.sampling_params.routed_experts_prompt_start == req.routed_experts_prompt_start,
        req.temperature is Some ==> text.sampling_params.temperature == req.temperature,
        req.kv is None ==> text.cache_salt is None
            && text.sampling_params.skip_reading_prefix_cache is None,
        req.kv matches Some(kv) ==> {
            &&& kv.cache_salt@.len() > 0 ==> (text.cache_salt matches Some(salt) && salt@
                == kv.cache_salt@)
            &&& kv.cache_salt@.len() == 0 ==> text.cache_salt is None
            &&& kv.bypass_prefix_cache ==> text.sampling_params.skip_reading_prefix_cache == Some(
                true,
            )
            &&& !kv.bypass_prefix_cache ==> text.sampling_params.skip_reading_prefix_cache is None
        },
        req.stopping matches Some(s) ==> {
            &&& s.max_new_tokens != 0 ==> text.sampling_params.max_tokens == Some(s.max_new_tokens)
            &&& s.max_new_tokens == 0 ==> text.sampling_params.max_tokens is None
            &&& s.min_new_tokens != 0 ==> text.sampling_params.min_tokens == Some(s.min_new_tokens)
            &&& s.min_new_tokens == 0 ==> text.sampling_params.min_tokens is None
            &&& text.sampling_params.ignore_eos == s.ignore_eos
            &&& text.decode_options.min_tokens == s.min_new_tokens
            &&& text.decode_options.include_stop_str_in_output == s.include_stop_strings
            &&& text.decode_options.stop_strings is None <==> s.stop_strings@.len() == 0
            &&& text.decode_options.stop_strings matches Some(strings) ==> strings@
                == s.stop_strings@
        },
        req.stopping is None ==> {
            &&& text.sampling_params.max_tokens is None
            &&& text.sampling_params.min_tokens is None
            &&& text.decode_options.min_tokens == 0
            &&& !text.decode_options.include_stop_str_in_output
            &&& text.decode_options.stop_strings is None
        },
        text.decode_options.skip_special_tokens,
        req.decoding matches Some(d) ==> {
            &&& text.sampling_params.presence_penalty == d.presence_penalty
            &&& text.sampling_params.frequency_penalty == d.frequency_penalty
            &&& text.sampling_params.repetition_penalty == d.repetition_penalty
        },
        req.sampling matches Some(s) ==> {
            &&& text.sampling_params.top_p == s.top_p
            &&& text.sampling_params.min_p == s.min_p
            &&& text.sampling_params.seed == s.seed
        },
        text.mm_features is None <==> req.mm_features@.len() == 0,
{
    sampling_options_are_those_of_the_request(
        text.sampling_params,
        req.temperature,
        req.sampling,
        req.decoding,
        req.stopping,
        req.response,
    );
}

/// The engine-specific arguments of a request are those of its JSON, and its transfer parameters
/// under their reserved name; nothing else is added, and without either there are none.
pub proof fn arguments_are_those_of_the_request(
    text: TextRequest,
    req: pb::GenerateRequest,
    decoded: Seq<Result<DecodedKwargs, String>>,
    stream: bool,
    name: Seq<char>,
)
    requires
        text_request_set(text, req, decoded, stream),
        req.vllm_xargs_json matches Some(raw) ==> xargs_refusal(raw@) is None,
    ensures
        ({
            let transfer = req.kv matches Some(kv) && kv.kv_transfer_params is Some;
            let given = req.vllm_xargs_json is Some;
            let value = member_value(xargs_members(text.sampling_params), name);
            &&& text.sampling_params.vllm_xargs is Some <==> transfer || given
            &&& name == "kv_transfer_params"@ ==> value == if transfer {
                Some(Json::Object(members_of(req.kv->Some_0.kv_transfer_params->Some_0@)))
            } else {
                None
            }
            &&& name != "kv_transfer_params"@ ==> value == if given {
                member_value(json_slice_parse(req.vllm_xargs_json->Some_0@)->Ok_0->Object_0, name)
            } else {
                None
            }
        }),
{
    let reserved = "kv_transfer_params"@;
    let given = match req.vllm_xargs_json {
        Some(raw) => json_slice_parse(raw@)->Ok_0->Object_0,
        None => Seq::empty(),
    };
    if let Some(raw) = req.vllm_xargs_json {
        accepted_xargs_are_bounded(json_slice_parse(raw@));
    }
    assert(member_index(given, reserved) is None);
    if let Some(kv) = req.kv {
        if let Some(fields) = kv.kv_transfer_params {
            let params = Json::Object(members_of(fields@));
            lemma_with_member_found(given, reserved, params);
            assert(xargs_members(text.sampling_params) == given.push((reserved, params)));
            assert(given.push((reserved, params)).drop_last() =~= given);
            lemma_member_index_found(given, name);
        }
    }
}

/// No two arguments of a request have the same name, and where its transfer parameters hold no
/// name twice, nothing among its arguments does.
pub proof fn arguments_are_named_once(
    text: TextRequest,
    req: pb::GenerateRequest,
    decoded: Seq<Result<DecodedKwargs, String>>,
    stream: bool,
    i: int,
    j: int,
)
    requires
        text_request_set(text, req, decoded, stream),
    ensures
        0 <= i < j < xargs_members(text.sampling_params).len() ==> xargs_members(
            text.sampling_params,
        )[i].0 != xargs_members(text.sampling_params)[j].0,
        (req.kv matches Some(kv) ==> kv.kv_transfer_params matches Some(fields) ==> names_once(
            Json::Object(members_of(fields@)),
        )) ==> names_once(Json::Object(xargs_members(text.sampling_params))),
{
}

/// A request is refused for its head, then for how it is to be sampled, then for its arguments
/// and then for its features, and for nothing else.
pub proof fn requests_are_refused_in_order(
    req: pb::GenerateRequest,
    decoded: Seq<Result<DecodedKwargs, String>>,
    served: Seq<String>,
)
    ensures
        ({
            let head = head_refusal(req, served);
            let sampling = sampling_refusal(req.sampling, req.decoding, req.response);
            let given = req.vllm_xargs_json is Some;
            let xargs = xargs_refusal(req.vllm_xargs_json->Some_0@);
            let refused = request_refusal(req, decoded, served);
            &&& head is Some ==> refused == head
            &&& head is None && sampling is Some ==> refused == sampling
            &&& head is None && sampling is None && given && xargs is Some ==> refused == xargs
            &&& head is None && sampling is None && !(given && xargs is Some) ==> refused
                == mm_features_refusal(
                req.mm_features@,
                decoded,
                wanted_prompt(req.prompt->Some_0),
            )
        }),
{
}

/// A request for text carries each feature of its request, with what was decoded for it, and
/// none where there are none.
pub proof fn text_requests_carry_their_features(
    text: TextRequest,
    req: pb::GenerateRequest,
    decoded: Seq<Result<DecodedKwargs, String>>,
    stream: bool,
    k: int,
)
    requires
        text_request_set(text, req, decoded, stream),
    ensures
        text.mm_features is None <==> req.mm_features@.len() == 0,
        0 <= k < req.mm_features@.len() ==> (text.mm_features matches Some(converted) && exists|
            i: int,
        |
            0 <= i < converted@.len() && {
                let feature = #[trigger] converted@[i];
                let given = req.mm_features@[k];
                &&& feature.modality@ == given.modality@
                &&& feature.mm_position.offset == given.position->Some_0.offset
                &&& feature.mm_position.length == given.position->Some_0.length
                &&& feature.data matches Some(item) && item@ == decoded[k]->Ok_0.item@
                    && in_name_order(item@)
            }),
{
    if 0 <= k < req.mm_features@.len() {
        let converted = text.mm_features->Some_0@;
        features_carry_the_request(converted, req.mm_features@, decoded, k);
    }
}

/// The features of a request are decoded for a prompt of token ids, and for no other.
pub proof fn features_are_decoded_for_token_ids(req: pb::GenerateRequest)
    ensures
        (req.prompt matches Some(pb::PromptInput::TokenIds(ids)) ==> request_decodable(req)
            == decodable_tokens(req.mm_features@, ids.ids@.len())),
        !(req.prompt matches Some(pb::PromptInput::TokenIds(_))) ==> request_decodable(req) == 0,
{
}

} // verus!
