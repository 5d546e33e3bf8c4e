//! What the OpenEngine service answers about the engine, and the decisions of its operations.

use super::pb;
use crate::engine::EngineCoreReadyResponse;
use crate::grpc::admission::AdmissionState;
use crate::grpc::convert::request::{
    is_served, kv_role, role_from_kv_role, roles_follow_the_connector, serves, KvRole,
};
use crate::grpc::engine_rpc::pb as private;
use crate::grpc::engine_rpc::standing::ServiceStanding;
use crate::lists::copied_texts;
use crate::numbers::{at_most_32, at_most_u32};
use crate::state::AppState;
use crate::status::{
    invalid_argument, not_found, refusal, unimplemented, Code, Status, StatusView,
};
use crate::text::{no_text, or_empty, text_or_empty, text_view};
use vstd::prelude::*;

verus! {

pub const SCHEMA_REVISION: u32 = 1;

/// How long a drain waits before it looks again.
pub const DRAIN_POLL_MILLIS: u64 = 25;

// Roles.

/// The role that a server plays, given the name that the engine has for it.
pub open spec fn wanted_private_role(name: Option<Seq<char>>) -> private::EngineRole {
    match kv_role(name) {
        KvRole::Prefill => private::EngineRole::Prefill,
        KvRole::Decode => private::EngineRole::Decode,
        KvRole::Aggregated => private::EngineRole::Aggregated,
    }
}

pub fn private_role(state: &AppState) -> (role: private::EngineRole)
    ensures
        role == wanted_private_role(text_view(state.ready.kv_role)),
{
    let role = match &state.ready.kv_role {
        Some(name) => role_from_kv_role(Some(name.as_str())),
        None => role_from_kv_role(None),
    };
    match role {
        KvRole::Prefill => private::EngineRole::Prefill,
        KvRole::Decode => private::EngineRole::Decode,
        KvRole::Aggregated => private::EngineRole::Aggregated,
    }
}

pub open spec fn wanted_role(role: private::EngineRole) -> pb::EngineRole {
    match role {
        private::EngineRole::Prefill => pb::EngineRole::Prefill,
        private::EngineRole::Decode => pb::EngineRole::Decode,
        private::EngineRole::Aggregated => pb::EngineRole::Aggregated,
        private::EngineRole::Unspecified => pb::EngineRole::Unspecified,
    }
}

pub fn canonical_role(role: private::EngineRole) -> (canonical: pb::EngineRole)
    ensures
        canonical == wanted_role(role),
{
    match role {
        private::EngineRole::Prefill => pb::EngineRole::Prefill,
        private::EngineRole::Decode => pb::EngineRole::Decode,
        private::EngineRole::Aggregated => pb::EngineRole::Aggregated,
        private::EngineRole::Unspecified => pb::EngineRole::Unspecified,
    }
}

/// No two roles become one.
pub proof fn roles_are_kept_apart(role: private::EngineRole, other: private::EngineRole)
    ensures
        (wanted_role(role) == wanted_role(other)) == (role == other),
{
}

// The KV cache.

/// The smallest number of blocks that some rank has.
pub open spec fn smallest_capacity(ranks: Seq<EngineCoreReadyResponse>) -> u64
    decreases ranks.len(),
{
    if ranks.len() == 0 {
        0
    } else if ranks.len() == 1 {
        ranks[0].num_gpu_blocks
    } else {
        let before = smallest_capacity(ranks.drop_last());
        if ranks.last().num_gpu_blocks < before {
            ranks.last().num_gpu_blocks
        } else {
            before
        }
    }
}

/// The number of KV blocks that every connected rank has.
pub fn per_rank_kv_blocks(ranks: &Vec<EngineCoreReadyResponse>) -> (blocks: u64)
    ensures
        blocks == smallest_capacity(ranks@),
{
    if ranks.len() == 0 {
        return 0;
    }
    let mut blocks: u64 = ranks[0].num_gpu_blocks;
    assert(ranks@.take(1)[0] == ranks@[0]);
    for i in 1..ranks.len()
        invariant
            1 <= ranks@.len(),
            blocks == smallest_capacity(ranks@.take(i as int)),
    {
        assert(ranks@.take(i + 1).drop_last() =~= ranks@.take(i as int));
        assert(ranks@.take(i + 1).last() == ranks@[i as int]);
        if ranks[i].num_gpu_blocks < blocks {
            blocks = ranks[i].num_gpu_blocks;
        }
    }
    assert(ranks@.take(ranks@.len() as int) =~= ranks@);
    blocks
}

/// No rank has fewer blocks than every rank is said to have, and one has no more.
pub proof fn smallest_capacity_is_a_minimum(ranks: Seq<EngineCoreReadyResponse>)
    requires
        ranks.len() > 0,
    ensures
        forall|i: int|
            0 <= i < ranks.len() ==> smallest_capacity(ranks) <= (
            #[trigger] ranks[i]).num_gpu_blocks,
        exists|i: int|
            0 <= i < ranks.len() && smallest_capacity(ranks) == (
            #[trigger] ranks[i]).num_gpu_blocks,
    decreases ranks.len(),
{
    if ranks.len() == 1 {
        assert(smallest_capacity(ranks) == ranks[0].num_gpu_blocks);
    } else {
        let shorter = ranks.drop_last();
        smallest_capacity_is_a_minimum(shorter);
        assert forall|i: int| 0 <= i < ranks.len() implies smallest_capacity(ranks) <= (
        #[trigger] ranks[i]).num_gpu_blocks by {
            if i < ranks.len() - 1 {
                assert(shorter[i] == ranks[i]);
            }
        }
        let k = choose|i: int|
            0 <= i < shorter.len() && smallest_capacity(shorter) == (
            #[trigger] shorter[i]).num_gpu_blocks;
        if ranks.last().num_gpu_blocks < smallest_capacity(shorter) {
            assert(smallest_capacity(ranks) == ranks[ranks.len() - 1].num_gpu_blocks);
        } else {
            assert(ranks[k] == shorter[k]);
        }
    }
}

pub open spec fn wanted_endpoint(endpoint: private::KvEndpoint) -> pb::KvEndpoint {
    pb::KvEndpoint {
        host: endpoint.host,
        port: endpoint.port,
        protocol: endpoint.protocol,
    }
}

pub open spec fn connector_set(
    info: pb::KvConnectorInfo,
    connector: private::KvConnectorInfo,
) -> bool {
    &&& info.enabled == Some(connector.enabled)
    &&& info.transfer_backend == connector.transfer_backend
    &&& info.local_endpoints@ == Seq::new(
        connector.local_endpoints@.len(),
        |i: int| wanted_endpoint(connector.local_endpoints@[i]),
    )
    &&& info.supported_protocols == connector.supported_protocols
    &&& info.supports_remote_prefill is None
    &&& info.supports_decode_pull is None
    &&& info.supports_abort_cleanup == Some(true)
    &&& info.supports_drain == Some(true)
    &&& info.schema_version == Some(connector.schema_version)
}

fn convert_endpoints(endpoints: Vec<private::KvEndpoint>) -> (converted: Vec<pb::KvEndpoint>)
    ensures
        converted@ == Seq::new(endpoints@.len(), |i: int| wanted_endpoint(endpoints@[i])),
{
    let ghost all = endpoints@;
    let mut converted: Vec<pb::KvEndpoint> = Vec::new();
    for endpoint in iter: endpoints
        invariant
            iter.seq() == all,
            converted@ == Seq::new(iter.index() as nat, |i: int| wanted_endpoint(all[i])),
    {
        converted.push(
            pb::KvEndpoint {
                host: endpoint.host,
                port: endpoint.port,
                protocol: endpoint.protocol,
            },
        );
        assert(converted@ =~= Seq::new(
            (iter.index() + 1) as nat,
            |i: int| wanted_endpoint(all[i]),
        ));
    }
    converted
}

pub fn canonical_kv_connector(connector: private::KvConnectorInfo) -> (info: pb::KvConnectorInfo)
    ensures
        connector_set(info, connector),
{
    pb::KvConnectorInfo {
        enabled: Some(connector.enabled),
        transfer_backend: connector.transfer_backend,
        local_endpoints: convert_endpoints(connector.local_endpoints),
        supported_protocols: connector.supported_protocols,
        supports_remote_prefill: None,
        supports_decode_pull: None,
        supports_abort_cleanup: Some(true),
        supports_drain: Some(true),
        schema_version: Some(connector.schema_version),
    }
}

// What the engine is.

pub open spec fn engine_info_set(
    info: pb::EngineInfo,
    state: AppState,
    parallelism: private::ParallelismInfo,
    connector: private::KvConnectorInfo,
) -> bool {
    &&& info.engine_name@ == "vllm"@
    &&& info.engine_version == state.ready.vllm_version
    &&& info.role == wanted_role(wanted_private_role(text_view(state.ready.kv_role)))
    &&& info.instance_id@ == or_empty(text_view(state.ready.kv_engine_id))
    &&& info.supported_models@ == state.served_model_names@
    &&& info.parallelism == Some(
        pb::ParallelismInfo {
            tensor_parallel_size: Some(parallelism.tensor_parallel_size),
            pipeline_parallel_size: Some(parallelism.pipeline_parallel_size),
            data_parallel_size: Some(parallelism.data_parallel_size),
            data_parallel_rank: Some(parallelism.data_parallel_rank),
            data_parallel_start_rank: Some(parallelism.data_parallel_start_rank),
        },
    )
    &&& info.kv_connector matches Some(kv) && connector_set(kv, connector)
    &&& info.schema_revision == SCHEMA_REVISION
    &&& info.minimum_client_revision == SCHEMA_REVISION
    &&& info.schema_release@ == "openengine@7093bf087fcca367bd2b9b4fc233fb434d3c1c31"@
}

pub fn get_engine_info(
    state: &AppState,
    parallelism: private::ParallelismInfo,
    connector: private::KvConnectorInfo,
) -> (info: pb::EngineInfo)
    ensures
        engine_info_set(info, *state, parallelism, connector),
{
    pb::EngineInfo {
        engine_name: "vllm".to_string(),
        engine_version: state.ready.vllm_version.clone(),
        role: canonical_role(private_role(state)),
        instance_id: text_or_empty(&state.ready.kv_engine_id),
        supported_models: copied_texts(&state.served_model_names),
        parallelism: Some(
            pb::ParallelismInfo {
                tensor_parallel_size: Some(parallelism.tensor_parallel_size),
                pipeline_parallel_size: Some(parallelism.pipeline_parallel_size),
                data_parallel_size: Some(parallelism.data_parallel_size),
                data_parallel_rank: Some(parallelism.data_parallel_rank),
                data_parallel_start_rank: Some(parallelism.data_parallel_start_rank),
            },
        ),
        kv_connector: Some(canonical_kv_connector(connector)),
        schema_revision: SCHEMA_REVISION,
        minimum_client_revision: SCHEMA_REVISION,
        schema_release: "openengine@7093bf087fcca367bd2b9b4fc233fb434d3c1c31".to_string(),
    }
}

// What the model can do.

/// The candidates that can be asked for: all of them only where there is no limit.
pub open spec fn wanted_modes(max_logprobs: i32, by_token_id: bool) -> Seq<
    pb::CandidateTokenSelectionMode,
> {
    let listed = if by_token_id {
        seq![pb::CandidateTokenSelectionMode::TopN, pb::CandidateTokenSelectionMode::TokenIds]
    } else {
        seq![pb::CandidateTokenSelectionMode::TopN]
    };
    if max_logprobs == -1 {
        listed.push(pb::CandidateTokenSelectionMode::All)
    } else {
        listed
    }
}

pub open spec fn capabilities_set(
    capabilities: pb::LogprobCapabilities,
    max_logprobs: i32,
    by_token_id: bool,
) -> bool {
    &&& capabilities.supported == Some(true)
    &&& capabilities.candidate_selection_modes@ == wanted_modes(max_logprobs, by_token_id)
    &&& capabilities.max_top_n == if max_logprobs >= 0 {
        Some(max_logprobs as u32)
    } else {
        None
    }
}

fn max_top_n(max_logprobs: i32) -> (max: Option<u32>)
    ensures
        max == if max_logprobs >= 0 {
            Some(max_logprobs as u32)
        } else {
            None
        },
{
    if max_logprobs >= 0 {
        Some(max_logprobs as u32)
    } else {
        None
    }
}

pub fn output_logprob_capabilities(max_logprobs: i32) -> (capabilities: pb::LogprobCapabilities)
    ensures
        capabilities_set(capabilities, max_logprobs, true),
{
    let mut modes: Vec<pb::CandidateTokenSelectionMode> = vec![
        pb::CandidateTokenSelectionMode::TopN,
        pb::CandidateTokenSelectionMode::TokenIds,
    ];
    if max_logprobs == -1 {
        modes.push(pb::CandidateTokenSelectionMode::All);
    }
    assert(modes@ =~= wanted_modes(max_logprobs, true));
    pb::LogprobCapabilities {
        supported: Some(true),
        candidate_selection_modes: modes,
        max_top_n: max_top_n(max_logprobs),
    }
}

pub fn prompt_logprob_capabilities(max_logprobs: i32) -> (capabilities: pb::LogprobCapabilities)
    ensures
        capabilities_set(capabilities, max_logprobs, false),
{
    let mut modes: Vec<pb::CandidateTokenSelectionMode> = vec![
        pb::CandidateTokenSelectionMode::TopN,
    ];
    if max_logprobs == -1 {
        modes.push(pb::CandidateTokenSelectionMode::All);
    }
    assert(modes@ =~= wanted_modes(max_logprobs, false));
    pb::LogprobCapabilities {
        supported: Some(true),
        candidate_selection_modes: modes,
        max_top_n: max_top_n(max_logprobs),
    }
}

pub open spec fn guided_modes() -> Seq<pb::GuidedDecodingMode> {
    seq![
        pb::GuidedDecodingMode::JsonSchema,
        pb::GuidedDecodingMode::Regex,
        pb::GuidedDecodingMode::EbnfGrammar,
        pb::GuidedDecodingMode::StructuralTag,
        pb::GuidedDecodingMode::Choice,
        pb::GuidedDecodingMode::JsonObject,
    ]
}

pub open spec fn generation_set(generation: pb::GenerationCapabilities, max_logprobs: i32) -> bool {
    &&& generation.prompt_logprobs matches Some(prompt) && capabilities_set(
        prompt,
        max_logprobs,
        false,
    )
    &&& generation.output_logprobs matches Some(output) && capabilities_set(
        output,
        max_logprobs,
        true,
    )
    &&& generation.guided_decoding matches Some(guided) && guided.supported == Some(true)
        && guided.modes@ == guided_modes()
    &&& generation.max_num_sequences == Some(1u32)
    &&& generation.supports_priority == Some(true)
    &&& generation.supports_stop_in_output == Some(true)
    &&& generation.supports_cache_salt == Some(true)
    &&& generation.supports_prefix_cache_bypass == Some(true)
}

fn generation_capabilities(max_logprobs: i32) -> (generation: pb::GenerationCapabilities)
    ensures
        generation_set(generation, max_logprobs),
{
    let modes: Vec<pb::GuidedDecodingMode> = vec![
        pb::GuidedDecodingMode::JsonSchema,
        pb::GuidedDecodingMode::Regex,
        pb::GuidedDecodingMode::EbnfGrammar,
        pb::GuidedDecodingMode::StructuralTag,
        pb::GuidedDecodingMode::Choice,
        pb::GuidedDecodingMode::JsonObject,
    ];
    assert(modes@ =~= guided_modes());
    pb::GenerationCapabilities {
        prompt_logprobs: Some(prompt_logprob_capabilities(max_logprobs)),
        output_logprobs: Some(output_logprob_capabilities(max_logprobs)),
        guided_decoding: Some(pb::GuidedDecodingCapabilities { supported: Some(true), modes }),
        max_num_sequences: Some(1),
        supports_priority: Some(true),
        supports_stop_in_output: Some(true),
        supports_cache_salt: Some(true),
        supports_prefix_cache_bypass: Some(true),
    }
}

pub open spec fn model_refusal(state: AppState, model: Seq<char>) -> Option<StatusView> {
    if model.len() > 0 && !serves(state.served_model_names@, model) {
        Some(not_found("model `"@ + model + "` not found"@))
    } else {
        None
    }
}

pub open spec fn model_info_set(info: pb::ModelInfo, state: AppState) -> bool {
    &&& info.model_id == state.model_id
    &&& info.served_model_name == state.served_model_names@[0]
    &&& info.served_model_aliases@ == state.served_model_names@.skip(1)
    &&& info.max_context_length == Some(state.max_model_len)
    &&& info.max_output_tokens is None
    &&& info.kv_block_size == Some(at_most_32(state.ready.kv_event_block_size))
    &&& info.total_kv_blocks == Some(smallest_capacity(state.ready_responses@))
    &&& info.max_running_requests == Some(state.ready.max_num_seqs)
    &&& info.max_batched_tokens == Some(state.ready.max_num_batched_tokens)
    &&& info.tokenizer_modes@.len() == 0
    &&& info.supports_text_input == Some(true)
    &&& info.supports_token_ids_input == Some(true)
    &&& info.generation matches Some(generation) && generation_set(generation, state.max_logprobs)
    &&& info.supports_lora == Some(state.ready.supports_lora)
    &&& info.supports_multimodal == Some(state.supports_multimodal)
    &&& info.reasoning_parser@ == or_empty(text_view(state.reasoning_parser))
    &&& info.tool_call_parser@ == or_empty(text_view(state.tool_call_parser))
}

pub fn get_model_info(state: &AppState, model: &str) -> (result: Result<pb::ModelInfo, Status>)
    requires
        state.well_formed(),
    ensures
        refusal(result) == model_refusal(*state, model@),
        result matches Ok(info) ==> model_info_set(info, *state),
{
    if !model.is_empty() && !is_served(&state.served_model_names, model) {
        let message = "model `".to_string().concat(model).concat("` not found");
        return Err(Status::not_found(message.as_str()));
    }
    Ok(
        pb::ModelInfo {
            model_id: state.model_id.clone(),
            served_model_name: state.primary_model_name().clone(),
            served_model_aliases: state.model_aliases(),
            max_context_length: Some(state.max_model_len),
            max_output_tokens: None,
            kv_block_size: Some(at_most_u32(state.ready.kv_event_block_size)),
            total_kv_blocks: Some(per_rank_kv_blocks(&state.ready_responses)),
            max_running_requests: Some(state.ready.max_num_seqs),
            max_batched_tokens: Some(state.ready.max_num_batched_tokens),
            tokenizer_modes: Vec::new(),
            supports_text_input: Some(true),
            supports_token_ids_input: Some(true),
            generation: Some(generation_capabilities(state.max_logprobs)),
            supports_lora: Some(state.ready.supports_lora),
            supports_multimodal: Some(state.supports_multimodal),
            reasoning_parser: text_or_empty(&state.reasoning_parser),
            tool_call_parser: text_or_empty(&state.tool_call_parser),
        },
    )
}

// The load of the engine.

/// The time in nanoseconds, if it is known and 64 bits hold it.
pub open spec fn wanted_timestamp(nanos: Option<u128>) -> Option<u64> {
    match nanos {
        Some(nanos) => if nanos <= u64::MAX {
            Some(nanos as u64)
        } else {
            None
        },
        None => None,
    }
}

pub open spec fn load_info_set(
    info: pb::LoadInfo,
    state: AppState,
    in_flight: u64,
    nanos: Option<u128>,
) -> bool {
    &&& info.instance_id@ == or_empty(text_view(state.ready.kv_engine_id))
    &&& info.timestamp_unix_nanos == wanted_timestamp(nanos)
    &&& info.running_requests == Some(at_most_32(in_flight))
    &&& info.queued_requests is None
    &&& info.active_kv_sessions is None
    &&& info.used_kv_blocks is None
    &&& info.total_kv_blocks == Some(smallest_capacity(state.ready_responses@))
    &&& info.running_tokens is None
    &&& info.waiting_tokens is None
    &&& info.prefill_batch_size is None
    &&& info.decode_batch_size is None
}

/// The load of the engine at a time, given in nanoseconds since 1970 where the clock gives one.
pub fn get_load(state: &AppState, in_flight: u64, nanos: Option<u128>) -> (info: pb::LoadInfo)
    ensures
        load_info_set(info, *state, in_flight, nanos),
{
    let timestamp_unix_nanos: Option<u64> = match nanos {
        Some(nanos) => {
            if nanos <= u64::MAX as u128 {
                Some(nanos as u64)
            } else {
                None
            }
        },
        None => None,
    };
    pb::LoadInfo {
        instance_id: text_or_empty(&state.ready.kv_engine_id),
        timestamp_unix_nanos,
        running_requests: Some(at_most_u32(in_flight)),
        queued_requests: None,
        active_kv_sessions: None,
        used_kv_blocks: None,
        total_kv_blocks: Some(per_rank_kv_blocks(&state.ready_responses)),
        running_tokens: None,
        waiting_tokens: None,
        prefill_batch_size: None,
        decode_batch_size: None,
    }
}

// Health.

/// A role as it came over the wire, where a number may stand for none.
#[derive(Clone, Copy, Debug, PartialEq, Eq, Structural)]
pub enum WireRole {
    Known(pb::EngineRole),
    Unknown(i32),
}

pub open spec fn check_is(
    check: pb::HealthCheck,
    name: Seq<char>,
    state: pb::HealthState,
    message: Seq<char>,
) -> bool {
    check.name@ == name && check.state == state && check.message@ == message
}

/// The answer of a service whose weights are in doubt, which needs no look at the engine.
pub fn health_in_doubt(standing: &ServiceStanding) -> (response: Option<pb::HealthResponse>)
    ensures
        response is Some == standing.rl_indeterminate,
        response matches Some(response) ==> response.state == pb::HealthState::NotReady
            && response.checks@.len() == 1 && check_is(
            response.checks@[0],
            "prime_rl_weight_state"@,
            pb::HealthState::NotReady,
            "engine weight state is indeterminate and requires restart"@,
        ),
{
    if !standing.is_rl_indeterminate() {
        return None;
    }
    let check = pb::HealthCheck {
        name: "prime_rl_weight_state".to_string(),
        state: pb::HealthState::NotReady,
        message: "engine weight state is indeterminate and requires restart".to_string(),
    };
    Some(pb::HealthResponse { state: pb::HealthState::NotReady, checks: vec![check] })
}

/// Whether another role is asked for than the engine has.
pub open spec fn role_differs(requested: WireRole, own: pb::EngineRole) -> bool {
    requested != WireRole::Known(pb::EngineRole::Unspecified) && requested != WireRole::Known(own)
}

pub open spec fn carried_check(check: private::HealthCheck) -> pb::HealthCheck {
    pb::HealthCheck {
        name: check.name,
        state: pb::HealthState::Other(check.state),
        message: check.message,
    }
}

/// Whether `response` tells the health that the engine service found, and that the role is
/// another one where it is.
pub open spec fn health_set(
    response: pb::HealthResponse,
    found: private::HealthResponse,
    differs: bool,
) -> bool {
    let carried = Seq::new(found.checks@.len(), |i: int| carried_check(found.checks@[i]));
    if differs {
        &&& response.state == pb::HealthState::NotReady
        &&& response.checks@.len() == carried.len() + 1
        &&& response.checks@.drop_last() == carried
        &&& check_is(
            response.checks@.last(),
            "role"@,
            pb::HealthState::NotReady,
            "engine role does not match requested role"@,
        )
    } else {
        &&& response.state == pb::HealthState::Other(found.state)
        &&& response.checks@ == carried
    }
}

fn carry_checks(checks: Vec<private::HealthCheck>) -> (carried: Vec<pb::HealthCheck>)
    ensures
        carried@ == Seq::new(checks@.len(), |i: int| carried_check(checks@[i])),
{
    let ghost all = checks@;
    let mut carried: Vec<pb::HealthCheck> = Vec::new();
    for check in iter: checks
        invariant
            iter.seq() == all,
            carried@ == Seq::new(iter.index() as nat, |i: int| carried_check(all[i])),
    {
        carried.push(
            pb::HealthCheck {
                name: check.name,
                state: pb::HealthState::Other(check.state),
                message: check.message,
            },
        );
        assert(carried@ =~= Seq::new((iter.index() + 1) as nat, |i: int| carried_check(all[i])));
    }
    carried
}

/// Takes what the engine service found of its health.
pub fn health(found: private::HealthResponse, requested: WireRole, own: pb::EngineRole) -> (
    response: pb::HealthResponse)
    ensures
        health_set(response, found, role_differs(requested, own)),
{
    let mut checks = carry_checks(found.checks);
    let differs = match requested {
        WireRole::Known(pb::EngineRole::Unspecified) => false,
        WireRole::Known(role) => role != own,
        WireRole::Unknown(_) => true,
    };
    if differs {
        let ghost carried = checks@;
        checks.push(
            pb::HealthCheck {
                name: "role".to_string(),
                state: pb::HealthState::NotReady,
                message: "engine role does not match requested role".to_string(),
            },
        );
        assert(checks@.drop_last() =~= carried);
        pb::HealthResponse { state: pb::HealthState::NotReady, checks }
    } else {
        pb::HealthResponse { state: pb::HealthState::Other(found.state), checks }
    }
}

// Aborting.

pub open spec fn abort_refusal(target: Option<pb::AbortTarget>) -> Option<StatusView> {
    match target {
        None => Some(invalid_argument("abort target is required"@)),
        Some(pb::AbortTarget::AllRequests(_)) => Some(
            unimplemented("abort all is not supported"@),
        ),
        Some(_) => None,
    }
}

/// The id of the request to abort, where one is named.
pub open spec fn abort_id(target: Option<pb::AbortTarget>) -> Option<String> {
    match target {
        Some(pb::AbortTarget::RequestId(id)) => Some(id),
        Some(pb::AbortTarget::KvSession(session)) => Some(session.session_id),
        _ => None,
    }
}

pub fn abort(target: Option<pb::AbortTarget>) -> (result: Result<String, Status>)
    ensures
        refusal(result) == abort_refusal(target),
        result matches Ok(id) ==> abort_id(target) == Some(id),
{
    match target {
        None => Err(Status::invalid_argument("abort target is required")),
        Some(pb::AbortTarget::RequestId(id)) => Ok(id),
        Some(pb::AbortTarget::KvSession(session)) => Ok(session.session_id),
        Some(pb::AbortTarget::AllRequests(_)) => Err(
            Status::unimplemented("abort all is not supported"),
        ),
    }
}

pub open spec fn wanted_abort_status(status: private::AbortStatus) -> pb::AbortStatus {
    match status {
        private::AbortStatus::AlreadyFinished => pb::AbortStatus::AlreadyFinished,
        private::AbortStatus::NotFound => pb::AbortStatus::AlreadyFinished,
        _ => pb::AbortStatus::Aborted,
    }
}

/// Takes what the engine service answered.
pub fn abort_answer(status: private::AbortStatus, message: String) -> (response: pb::AbortResponse)
    ensures
        response == (pb::AbortResponse { status: wanted_abort_status(status), message }),
{
    let status = match status {
        private::AbortStatus::AlreadyFinished => pb::AbortStatus::AlreadyFinished,
        private::AbortStatus::NotFound => pb::AbortStatus::AlreadyFinished,
        _ => pb::AbortStatus::Aborted,
    };
    pb::AbortResponse { status, message }
}

// Draining.

pub open spec fn drain_state_set(
    response: pb::DrainResponse,
    state: pb::DrainState,
    in_flight: u64,
) -> bool {
    &&& response.event == Some(pb::DrainEvent::State(state))
    &&& response.in_flight_requests == Some(at_most_32(in_flight))
    &&& response.open_kv_sessions is None
    &&& response.message@ == Seq::<char>::empty()
}

/// Whether `response` tells that a drain took too long.
pub open spec fn drain_overdue(
    response: pb::DrainResponse,
    in_flight: u64,
    abort_after_deadline: bool,
) -> bool {
    &&& response.event matches Some(pb::DrainEvent::Error(error)) && error.code
        == pb::ErrorCode::Overloaded && error.message@ == if abort_after_deadline {
        "drain deadline elapsed; abort-all is not supported"@
    } else {
        "drain deadline elapsed"@
    } && error.retryable
    &&& response.in_flight_requests == Some(at_most_32(in_flight))
    &&& response.open_kv_sessions is None
    &&& response.message@ == Seq::<char>::empty()
}

fn drain_state(state: pb::DrainState, in_flight: u64) -> (response: pb::DrainResponse)
    ensures
        drain_state_set(response, state, in_flight),
{
    pb::DrainResponse {
        event: Some(pb::DrainEvent::State(state)),
        in_flight_requests: Some(at_most_u32(in_flight)),
        open_kv_sessions: None,
        message: no_text(),
    }
}

/// Starts a drain.
pub fn begin_drain(standing: &mut ServiceStanding, request: &pb::DrainRequest) -> (started:
    pb::DrainResponse)
    ensures
        *final(standing) == (ServiceStanding {
            admission: AdmissionState {
                draining: old(standing).admission.draining || request.stop_accepting_new_requests,
                ..old(standing).admission
            },
            ..*old(standing)
        }),
        drain_state_set(started, pb::DrainState::Started, old(standing).admission.in_flight),
{
    if request.stop_accepting_new_requests {
        standing.begin_drain();
    }
    drain_state(pb::DrainState::Started, standing.in_flight())
}

/// What a drain does next: it ends, or it looks again after a while.
#[derive(Debug, PartialEq, Eq)]
pub enum DrainStep {
    End(pb::DrainResponse),
    Wait,
}

/// Looks at a drain: how many requests are running, and whether the deadline elapsed.
pub fn drain_step(in_flight: u64, deadline_elapsed: bool, abort_after_deadline: bool) -> (step:
    DrainStep)
    ensures
        match step {
            DrainStep::End(response) => if in_flight == 0 {
                drain_state_set(response, pb::DrainState::Complete, 0)
            } else {
                deadline_elapsed && drain_overdue(response, in_flight, abort_after_deadline)
            },
            DrainStep::Wait => in_flight > 0 && !deadline_elapsed,
        },
{
    if in_flight == 0 {
        return DrainStep::End(drain_state(pb::DrainState::Complete, 0));
    }
    if deadline_elapsed {
        let message = if abort_after_deadline {
            "drain deadline elapsed; abort-all is not supported"
        } else {
            "drain deadline elapsed"
        };
        return DrainStep::End(
            pb::DrainResponse {
                event: Some(
                    pb::DrainEvent::Error(
                        pb::EngineError {
                            code: pb::ErrorCode::Overloaded,
                            message: message.to_string(),
                            retryable: true,
                        },
                    ),
                ),
                in_flight_requests: Some(at_most_u32(in_flight)),
                open_kv_sessions: None,
                message: no_text(),
            },
        );
    }
    DrainStep::Wait
}

// Adapters.

pub open spec fn wanted_private_lora(adapter: pb::LoraAdapter) -> private::LoraAdapter {
    private::LoraAdapter {
        lora_id: adapter.lora_id,
        lora_name: adapter.lora_name,
        source_path: adapter.source_path,
    }
}

pub open spec fn wanted_lora(adapter: private::LoraAdapter) -> pb::LoraAdapter {
    pb::LoraAdapter {
        lora_id: adapter.lora_id,
        lora_name: adapter.lora_name,
        source_path: adapter.source_path,
    }
}

pub fn private_lora(adapter: pb::LoraAdapter) -> (converted: private::LoraAdapter)
    ensures
        converted == wanted_private_lora(adapter),
{
    private::LoraAdapter {
        lora_id: adapter.lora_id,
        lora_name: adapter.lora_name,
        source_path: adapter.source_path,
    }
}

pub fn canonical_lora(adapter: private::LoraAdapter) -> (converted: pb::LoraAdapter)
    ensures
        converted == wanted_lora(adapter),
{
    pb::LoraAdapter {
        lora_id: adapter.lora_id,
        lora_name: adapter.lora_name,
        source_path: adapter.source_path,
    }
}

pub fn canonical_loras(adapters: Vec<private::LoraAdapter>) -> (converted: Vec<pb::LoraAdapter>)
    ensures
        converted@ == Seq::new(adapters@.len(), |i: int| wanted_lora(adapters@[i])),
{
    let ghost all = adapters@;
    let mut converted: Vec<pb::LoraAdapter> = Vec::new();
    for adapter in iter: adapters
        invariant
            iter.seq() == all,
            converted@ == Seq::new(iter.index() as nat, |i: int| wanted_lora(all[i])),
    {
        converted.push(canonical_lora(adapter));
        assert(converted@ =~= Seq::new((iter.index() + 1) as nat, |i: int| wanted_lora(all[i])));
    }
    converted
}

/// An adapter comes back from the engine service as it was sent there.
pub proof fn adapters_survive_the_round_trip(adapter: pb::LoraAdapter)
    ensures
        wanted_lora(wanted_private_lora(adapter)) == adapter,
{
}

// Event sources.

pub open spec fn wanted_source(source: private::KvEventSource) -> pb::KvEventSource {
    pb::KvEventSource {
        transport: source.transport,
        endpoint_addr: match source.endpoint_addr {
            Some(endpoint) => Some(wanted_endpoint(endpoint)),
            None => None,
        },
        topic: source.topic,
        replay_endpoint: source.replay_endpoint,
        data_parallel_rank: Some(source.data_parallel_rank),
        encoding: source.encoding,
        schema_version: Some(source.schema_version),
        buffer_steps: Some(source.buffer_steps),
        hwm: Some(source.hwm),
        max_queue_size: Some(source.max_queue_size),
    }
}

/// Whether a rank is asked for; without a list, all are.
pub open spec fn rank_wanted(requested: Seq<u32>, rank: u32) -> bool {
    requested.len() == 0 || requested.contains(rank)
}

/// The sources of the ranks that are asked for, in order.
pub open spec fn wanted_sources(
    sources: Seq<private::KvEventSource>,
    requested: Seq<u32>,
) -> Seq<pb::KvEventSource>
    decreases sources.len(),
{
    if sources.len() == 0 {
        Seq::empty()
    } else {
        let before = wanted_sources(sources.drop_last(), requested);
        if rank_wanted(requested, sources.last().data_parallel_rank) {
            before.push(wanted_source(sources.last()))
        } else {
            before
        }
    }
}

fn is_rank_wanted(requested: &Vec<u32>, rank: u32) -> (wanted: bool)
    ensures
        wanted == rank_wanted(requested@, rank),
{
    if requested.len() == 0 {
        return true;
    }
    for i in 0..requested.len()
        invariant
            requested@.len() > 0,
            forall|j: int| 0 <= j < i ==> requested@[j] != rank,
    {
        if requested[i] == rank {
            assert(requested@.contains(rank));
            return true;
        }
    }
    false
}

fn convert_source(source: private::KvEventSource) -> (converted: pb::KvEventSource)
    ensures
        converted == wanted_source(source),
{
    let endpoint_addr = match source.endpoint_addr {
        Some(endpoint) => Some(
            pb::KvEndpoint {
                host: endpoint.host,
                port: endpoint.port,
                protocol: endpoint.protocol,
            },
        ),
        None => None,
    };
    pb::KvEventSource {
        transport: source.transport,
        endpoint_addr,
        topic: source.topic,
        replay_endpoint: source.replay_endpoint,
        data_parallel_rank: Some(source.data_parallel_rank),
        encoding: source.encoding,
        schema_version: Some(source.schema_version),
        buffer_steps: Some(source.buffer_steps),
        hwm: Some(source.hwm),
        max_queue_size: Some(source.max_queue_size),
    }
}

pub fn get_kv_event_sources(
    sources: Vec<private::KvEventSource>,
    requested: &Vec<u32>,
) -> (found: Vec<pb::KvEventSource>)
    ensures
        found@ == wanted_sources(sources@, requested@),
{
    let ghost all = sources@;
    let mut found: Vec<pb::KvEventSource> = Vec::new();
    assert(all.take(0) =~= Seq::empty());
    for source in iter: sources
        invariant
            iter.seq() == all,
            found@ == wanted_sources(all.take(iter.index() as int), requested@),
    {
        assert(all.take(iter.index() + 1).drop_last() =~= all.take(iter.index() as int));
        assert(all.take(iter.index() + 1).last() == source);
        if is_rank_wanted(requested, source.data_parallel_rank) {
            found.push(convert_source(source));
        }
    }
    assert(all.take(all.len() as int) =~= all);
    found
}

// Streams that are not offered.

pub fn subscribe_kv_events<T>() -> (result: Result<T, Status>)
    ensures
        refusal(result) == Some(
            unimplemented("vLLM publishes KV events through the advertised ZMQ sources"@),
        ),
{
    Err(Status::unimplemented("vLLM publishes KV events through the advertised ZMQ sources"))
}

pub fn subscribe_runtime_events<T>() -> (result: Result<T, Status>)
    ensures
        refusal(result) == Some(unimplemented("runtime event streaming is not implemented"@)),
{
    Err(Status::unimplemented("runtime event streaming is not implemented"))
}

// Laws.

/// A producer of KV caches is told as prefilling, a consumer as decoding, any other engine as
/// doing both.
pub proof fn roles_are_told_as_they_are(name: Option<Seq<char>>)
    ensures
        wanted_role(wanted_private_role(name)) == pb::EngineRole::Prefill <==> name == Some(
            "kv_producer"@,
        ),
        wanted_role(wanted_private_role(name)) == pb::EngineRole::Decode <==> name == Some(
            "kv_consumer"@,
        ),
        wanted_role(wanted_private_role(name)) != pb::EngineRole::Unspecified,
{
    roles_follow_the_connector(name);
}

/// The engine is described by its own words: version, id, models and sizes, each in its place,
/// and its connector with all endpoints.
pub proof fn engines_are_described_as_they_are(
    info: pb::EngineInfo,
    state: AppState,
    parallelism: private::ParallelismInfo,
    connector: private::KvConnectorInfo,
    i: int,
)
    requires
        engine_info_set(info, state, parallelism, connector),
    ensures
        info.engine_name@ == "vllm"@,
        info.role == pb::EngineRole::Prefill <==> (state.ready.kv_role matches Some(role) && role@
            == "kv_producer"@),
        info.role == pb::EngineRole::Decode <==> (state.ready.kv_role matches Some(role) && role@
            == "kv_consumer"@),
        info.role != pb::EngineRole::Unspecified,
        info.engine_version@ == state.ready.vllm_version@,
        info.supported_models@ == state.served_model_names@,
        state.ready.kv_engine_id is None ==> info.instance_id@.len() == 0,
        state.ready.kv_engine_id matches Some(id) ==> info.instance_id@ == id@,
        info.parallelism matches Some(told) && told.tensor_parallel_size == Some(
            parallelism.tensor_parallel_size,
        ) && told.pipeline_parallel_size == Some(parallelism.pipeline_parallel_size)
            && told.data_parallel_size == Some(parallelism.data_parallel_size)
            && told.data_parallel_rank == Some(parallelism.data_parallel_rank)
            && told.data_parallel_start_rank == Some(parallelism.data_parallel_start_rank),
        info.schema_revision == 1,
        info.minimum_client_revision == 1,
        info.schema_release@ == "openengine@7093bf087fcca367bd2b9b4fc233fb434d3c1c31"@,
        info.kv_connector matches Some(kv) && {
            &&& kv.enabled == Some(connector.enabled)
            &&& kv.transfer_backend@ == connector.transfer_backend@
            &&& kv.supported_protocols@ == connector.supported_protocols@
            &&& kv.schema_version == Some(connector.schema_version)
            &&& kv.supports_abort_cleanup == Some(true) && kv.supports_drain == Some(true)
            &&& kv.supports_remote_prefill is None && kv.supports_decode_pull is None
            &&& kv.local_endpoints@.len() == connector.local_endpoints@.len()
            &&& 0 <= i < connector.local_endpoints@.len() ==> kv.local_endpoints@[i].host@
                == connector.local_endpoints@[i].host@ && kv.local_endpoints@[i].port
                == connector.local_endpoints@[i].port && kv.local_endpoints@[i].protocol@
                == connector.local_endpoints@[i].protocol@
        },
{
    roles_are_told_as_they_are(text_view(state.ready.kv_role));
}

/// A model is described under its first name, with all further ones as aliases, with the limits
/// of the engine, each in its place, and with what can be asked of it. Candidates can be selected
/// by token for the output alone, and all of them only where scores are not limited.
pub proof fn models_are_described_as_they_are(
    info: pb::ModelInfo,
    state: AppState,
    mode: pb::GuidedDecodingMode,
    i: int,
)
    requires
        model_info_set(info, state),
        state.served_model_names@.len() > 0,
    ensures
        info.model_id@ == state.model_id@,
        info.served_model_name@ == state.served_model_names@[0]@,
        info.served_model_aliases@.len() == state.served_model_names@.len() - 1,
        0 <= i < info.served_model_aliases@.len() ==> info.served_model_aliases@[i]
            == state.served_model_names@[i + 1],
        info.max_context_length == Some(state.max_model_len),
        info.max_output_tokens is None,
        info.tokenizer_modes@.len() == 0,
        info.total_kv_blocks == Some(smallest_capacity(state.ready_responses@)),
        info.kv_block_size matches Some(size) && (state.ready.kv_event_block_size <= 4294967295
            ==> size == state.ready.kv_event_block_size) && (state.ready.kv_event_block_size
            > 4294967295 ==> size == 4294967295),
        info.max_running_requests == Some(state.ready.max_num_seqs),
        info.max_batched_tokens == Some(state.ready.max_num_batched_tokens),
        info.supports_lora == Some(state.ready.supports_lora),
        info.supports_multimodal == Some(state.supports_multimodal),
        state.reasoning_parser matches Some(name) ==> info.reasoning_parser@ == name@,
        state.reasoning_parser is None ==> info.reasoning_parser@.len() == 0,
        state.tool_call_parser matches Some(name) ==> info.tool_call_parser@ == name@,
        state.tool_call_parser is None ==> info.tool_call_parser@.len() == 0,
        info.supports_text_input == Some(true) && info.supports_token_ids_input == Some(true),
        info.generation matches Some(generation) && {
            let prompt = generation.prompt_logprobs->Some_0;
            let output = generation.output_logprobs->Some_0;
            let all = pb::CandidateTokenSelectionMode::All;
            let by_token = pb::CandidateTokenSelectionMode::TokenIds;
            let top = pb::CandidateTokenSelectionMode::TopN;
            &&& generation.max_num_sequences == Some(1u32)
            &&& generation.prompt_logprobs is Some && generation.output_logprobs is Some
            &&& prompt.candidate_selection_modes@.contains(top)
                && output.candidate_selection_modes@.contains(top)
            &&& output.candidate_selection_modes@.contains(by_token)
            &&& !prompt.candidate_selection_modes@.contains(by_token)
            &&& prompt.candidate_selection_modes@.contains(all) <==> state.max_logprobs == -1
            &&& output.candidate_selection_modes@.contains(all) <==> state.max_logprobs == -1
            &&& state.max_logprobs < 0 ==> prompt.max_top_n is None && output.max_top_n is None
            &&& state.max_logprobs >= 0 ==> (prompt.max_top_n matches Some(n) && n
                == state.max_logprobs) && (output.max_top_n matches Some(n) && n
                == state.max_logprobs)
            &&& prompt.supported == Some(true) && output.supported == Some(true)
            &&& generation.supports_priority == Some(true)
            &&& generation.supports_stop_in_output == Some(true)
            &&& generation.supports_cache_salt == Some(true)
            &&& generation.supports_prefix_cache_bypass == Some(true)
            &&& generation.guided_decoding matches Some(guided) && guided.supported == Some(true)
                && guided.modes@.len() == 6 && guided.modes@.contains(mode)
        },
{
    let top = pb::CandidateTokenSelectionMode::TopN;
    let by_token = pb::CandidateTokenSelectionMode::TokenIds;
    let all = pb::CandidateTokenSelectionMode::All;
    let prompt = wanted_modes(state.max_logprobs, false);
    let output = wanted_modes(state.max_logprobs, true);
    assert(prompt[0] == top && output[0] == top && output[1] == by_token);
    assert(state.max_logprobs == -1 ==> prompt[1] == all && output[2] == all);
    let guided = guided_modes();
    assert(guided[0] is JsonSchema && guided[1] is Regex && guided[2] is EbnfGrammar && guided[3]
        is StructuralTag && guided[4] is Choice && guided[5] is JsonObject);
}

/// A model that is not served is not found; without a name, the served one is.
pub proof fn models_are_found_by_name(state: AppState, model: Seq<char>)
    ensures
        model_refusal(state, model) is Some <==> model.len() > 0 && forall|i: int|
            0 <= i < state.served_model_names@.len() ==> (#[trigger] state.served_model_names@[i])@
                != model,
        model_refusal(state, model) matches Some(status) ==> status.code == Code::NotFound,
{
}

/// The load tells the requests that run, the blocks that every rank has, and the time where it
/// can be written. What is not measured is left out.
pub proof fn loads_are_told_as_they_are(
    info: pb::LoadInfo,
    state: AppState,
    in_flight: u64,
    nanos: Option<u128>,
)
    requires
        load_info_set(info, state, in_flight, nanos),
    ensures
        in_flight <= 4294967295 ==> (info.running_requests matches Some(n) && n == in_flight),
        in_flight > 4294967295 ==> (info.running_requests matches Some(n) && n == 4294967295),
        nanos is None ==> info.timestamp_unix_nanos is None,
        nanos matches Some(n) ==> n <= 18446744073709551615 ==> (
        info.timestamp_unix_nanos matches Some(told) && told == n),
        nanos matches Some(n) ==> n > 18446744073709551615 ==> info.timestamp_unix_nanos is None,
        state.ready.kv_engine_id matches Some(id) ==> info.instance_id@ == id@,
        info.total_kv_blocks == Some(smallest_capacity(state.ready_responses@)),
        state.ready.kv_engine_id is None ==> info.instance_id@.len() == 0,
        info.queued_requests is None && info.used_kv_blocks is None && info.running_tokens is None,
        info.active_kv_sessions is None && info.waiting_tokens is None,
        info.prefill_batch_size is None && info.decode_batch_size is None,
{
}

/// Health is what the engine service found, check by check, unless another role was asked for:
/// then the service is not ready, and one more check says why. Any role may be asked for by
/// leaving it open.
pub proof fn health_is_told_as_found(
    response: pb::HealthResponse,
    found: private::HealthResponse,
    requested: WireRole,
    own: pb::EngineRole,
    i: int,
)
    requires
        health_set(response, found, role_differs(requested, own)),
    ensures
        ({
            let differs = requested != WireRole::Known(pb::EngineRole::Unspecified) && requested
                != WireRole::Known(own);
            let checks = found.checks@.len();
            &&& differs ==> response.state == pb::HealthState::NotReady && response.checks@.len()
                == checks + 1 && response.checks@[checks as int].name@ == "role"@
                && response.checks@[checks as int].state == pb::HealthState::NotReady
                && response.checks@[checks as int].message@
                == "engine role does not match requested role"@
            &&& !differs ==> response.state == pb::HealthState::Other(found.state)
                && response.checks@.len() == checks
            &&& 0 <= i < checks ==> response.checks@[i].name@ == found.checks@[i].name@
                && response.checks@[i].message@ == found.checks@[i].message@
                && response.checks@[i].state == pb::HealthState::Other(found.checks@[i].state)
        }),
{
    if role_differs(requested, own) && 0 <= i < found.checks@.len() {
        assert(response.checks@.drop_last()[i] == response.checks@[i]);
    }
}

/// One request is aborted, by its own id or by that of its session, and never all of them. One
/// that is over or unknown is told as finished.
pub proof fn aborts_name_one_request(
    target: Option<pb::AbortTarget>,
    status: private::AbortStatus,
)
    ensures
        abort_refusal(target) is None <==> abort_id(target) is Some,
        target matches Some(pb::AbortTarget::RequestId(id)) ==> abort_id(target) == Some(id),
        target matches Some(pb::AbortTarget::KvSession(session)) ==> abort_id(target) == Some(
            session.session_id,
        ),
        target matches Some(pb::AbortTarget::AllRequests(_)) ==> (abort_refusal(
            target,
        ) matches Some(refused) && refused.code == Code::Unimplemented),
        target is None ==> (abort_refusal(target) matches Some(refused) && refused.code
            == Code::InvalidArgument),
        wanted_abort_status(status) == pb::AbortStatus::AlreadyFinished <==> status
            == private::AbortStatus::AlreadyFinished || status == private::AbortStatus::NotFound,
{
}

/// The answers to a drain tell the state that it is in and the requests that run. One that took
/// too long is an error that may be tried again. A drain is looked at 40 times a second.
pub proof fn drains_tell_their_state(
    response: pb::DrainResponse,
    state: pb::DrainState,
    in_flight: u64,
    abort_after_deadline: bool,
)
    ensures
        DRAIN_POLL_MILLIS == 25,
        drain_state_set(response, state, in_flight) ==> response.event == Some(
            pb::DrainEvent::State(state),
        ) && response.message@.len() == 0 && response.open_kv_sessions is None && (
        response.in_flight_requests matches Some(n) && (in_flight <= 4294967295 ==> n
            == in_flight)),
        drain_overdue(response, in_flight, abort_after_deadline) ==> (
        response.event matches Some(pb::DrainEvent::Error(error)) && error.code
            == pb::ErrorCode::Overloaded && error.retryable && error.message@ == if
            abort_after_deadline {
            "drain deadline elapsed; abort-all is not supported"@
        } else {
            "drain deadline elapsed"@
        }) && (response.in_flight_requests matches Some(n) && (in_flight <= 4294967295 ==> n
            == in_flight)) && response.open_kv_sessions is None && response.message@.len() == 0,
{
}

/// Adapters keep their number, their name and their path in both directions.
pub proof fn adapters_keep_their_fields(adapter: pb::LoraAdapter, own: private::LoraAdapter)
    ensures
        wanted_private_lora(adapter).lora_id == adapter.lora_id,
        wanted_private_lora(adapter).lora_name@ == adapter.lora_name@,
        wanted_private_lora(adapter).source_path@ == adapter.source_path@,
        wanted_lora(own).lora_id == own.lora_id,
        wanted_lora(own).lora_name@ == own.lora_name@,
        wanted_lora(own).source_path@ == own.source_path@,
{
}

proof fn lemma_sources_filter(
    sources: Seq<private::KvEventSource>,
    requested: Seq<u32>,
    asked: spec_fn(private::KvEventSource) -> bool,
)
    requires
        forall|source: private::KvEventSource| #[trigger] asked(source) == rank_wanted(
            requested,
            source.data_parallel_rank,
        ),
    ensures
        ({
            let kept = sources.filter(asked);
            let told = wanted_sources(sources, requested);
            &&& told.len() == kept.len()
            &&& forall|i: int| 0 <= i < kept.len() ==> #[trigger] told[i] == wanted_source(kept[i])
        }),
    decreases sources.len(),
{
    reveal(Seq::filter);
    if sources.len() > 0 {
        lemma_sources_filter(sources.drop_last(), requested, asked);
        let before = wanted_sources(sources.drop_last(), requested);
        let told = wanted_sources(sources, requested);
        let kept = sources.filter(asked);
        assert(asked(sources.last()) == rank_wanted(requested, sources.last().data_parallel_rank));
        assert forall|i: int| 0 <= i < kept.len() implies #[trigger] told[i] == wanted_source(
            kept[i],
        ) by {
            if i < before.len() {
                assert(told[i] == before[i]);
            }
        }
    }
}

/// The sources of events are those of the ranks that are asked for, or of all where none is, in
/// their order and with all that they say.
pub proof fn sources_are_those_asked_for(
    sources: Seq<private::KvEventSource>,
    requested: Seq<u32>,
    asked: spec_fn(private::KvEventSource) -> bool,
    i: int,
)
    requires
        forall|source: private::KvEventSource| #[trigger] asked(source) == (requested.len() == 0
            || exists|j: int| 0 <= j < requested.len() && requested[j]
            == source.data_parallel_rank),
    ensures
        ({
            let kept = sources.filter(asked);
            let told = wanted_sources(sources, requested);
            &&& told.len() == kept.len()
            &&& 0 <= i < kept.len() ==> {
                &&& told[i].transport@ == kept[i].transport@
                &&& told[i].topic@ == kept[i].topic@
                &&& told[i].replay_endpoint@ == kept[i].replay_endpoint@
                &&& told[i].data_parallel_rank == Some(kept[i].data_parallel_rank)
                &&& told[i].encoding@ == kept[i].encoding@
                &&& told[i].schema_version == Some(kept[i].schema_version)
                &&& told[i].buffer_steps == Some(kept[i].buffer_steps)
                &&& told[i].hwm == Some(kept[i].hwm)
                &&& told[i].max_queue_size == Some(kept[i].max_queue_size)
                &&& kept[i].endpoint_addr is None <==> told[i].endpoint_addr is None
                &&& kept[i].endpoint_addr matches Some(endpoint) ==> (
                told[i].endpoint_addr matches Some(same) && same.host@ == endpoint.host@
                    && same.port == endpoint.port && same.protocol@ == endpoint.protocol@)
            }
        }),
{
    assert forall|source: private::KvEventSource| #[trigger] asked(source) == rank_wanted(
        requested,
        source.data_parallel_rank,
    ) by {}
    lemma_sources_filter(sources, requested, asked);
}

/// Without a rank there is no block to tell of.
pub proof fn no_rank_has_no_blocks()
    ensures
        smallest_capacity(Seq::empty()) == 0,
{
}

} // verus!
