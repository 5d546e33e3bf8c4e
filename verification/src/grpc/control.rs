//! The control service.

use super::admission::{drained, entered, place_refusal, AdmissionGuard, AdmissionState};
use super::kv_events::{events_fit, kv_event_sources, publishing, sources_set};
use super::pb;
use crate::numbers::{at_most_32, at_most_u32};
use crate::state::AppState;
use crate::status::{failed_precondition, internal, refusal, Code, Status, StatusView};
use crate::text::{no_text, or_empty, text_or_empty, text_view};
use vstd::prelude::*;

verus! {

/// The control service, over the state that it shares with the inference service. What it needs
/// of the admission state, which both share as well, it is handed.
#[derive(Debug, PartialEq, Eq)]
pub struct ControlServiceImpl {
    pub state: AppState,
    pub lora_allowed_path_prefixes: Option<Vec<Vec<u8>>>,
    pub runtime_lora_updating_enabled: bool,
}

pub open spec fn wanted_parallelism(state: AppState) -> pb::ParallelismInfo {
    pb::ParallelismInfo {
        tensor_parallel_size: state.ready.tensor_parallel_size,
        pipeline_parallel_size: state.ready.pipeline_parallel_size,
        data_parallel_size: at_most_32(state.ready.data_parallel_size),
        data_parallel_rank: state.ready.data_parallel_rank,
        decode_context_parallel_size: state.ready.decode_context_parallel_size,
        data_parallel_start_rank: state.data_parallel_start_rank,
        managed_data_parallel_size: state.managed_data_parallel_size,
    }
}

/// What the service can do beyond its first version.
pub open spec fn capability_texts() -> Seq<Seq<char>> {
    seq!["generate.sampling.v2"@, "generate.preprocessed_mm.v1"@, "generate.routed_experts.v1"@]
}

pub open spec fn texts_of(texts: Seq<String>) -> Seq<Seq<char>> {
    Seq::new(texts.len(), |i: int| texts[i]@)
}

pub open spec fn server_info_set(info: pb::ServerInfo, state: AppState) -> bool {
    &&& info.engine_version == state.ready.vllm_version
    &&& info.api_version@ == "vllm"@
    &&& info.instance_id == state.ready.instance_id
    &&& info.parallelism == Some(wanted_parallelism(state))
    &&& info.max_model_len == state.max_model_len
    &&& info.kv_block_size == at_most_32(state.ready.block_size)
    &&& info.total_kv_blocks == state.total_num_gpu_blocks
    &&& info.max_running_requests == state.ready.max_num_seqs
    &&& info.max_batched_tokens == state.ready.max_num_batched_tokens
    &&& info.max_loras == state.ready.max_loras
    &&& texts_of(info.capabilities@) == capability_texts()
}

pub open spec fn model_info_set(info: pb::ModelInfo, state: AppState) -> bool {
    &&& info.model_id == state.model_id
    &&& info.served_model_name == state.served_model_names@[0]
    &&& info.served_model_aliases@ == state.served_model_names@.skip(1)
    &&& info.tokenizer_modes@.len() == 0
    &&& info.supports_text_input
    &&& info.supports_token_ids_input
    &&& info.supports_lora == state.ready.supports_lora
    &&& info.supports_multimodal == state.supports_multimodal
    &&& info.reasoning_parser@ == or_empty(text_view(state.reasoning_parser))
    &&& info.tool_call_parser@ == or_empty(text_view(state.tool_call_parser))
}

/// What is to be done to abort requests.
#[derive(Debug, PartialEq, Eq)]
pub enum AbortStep {
    Answer,
    Abort(Vec<String>),
}

pub open spec fn wanted_drain_state(in_flight: u64) -> pb::DrainState {
    if in_flight == 0 {
        pb::DrainState::Complete
    } else {
        pb::DrainState::InProgress
    }
}

/// The refusal of a change to the loaded adapters.
pub open spec fn lora_update_refusal(enabled: bool, admission: AdmissionState) -> Option<
    StatusView,
> {
    if !enabled {
        Some(failed_precondition("runtime LoRA updating is disabled"@))
    } else {
        place_refusal(admission)
    }
}

impl ControlServiceImpl {
    pub fn new(
        state: AppState,
        lora_allowed_path_prefixes: Option<Vec<Vec<u8>>>,
        runtime_lora_updating_enabled: bool,
    ) -> (service: ControlServiceImpl)
        ensures
            service == (ControlServiceImpl {
                state,
                lora_allowed_path_prefixes,
                runtime_lora_updating_enabled,
            }),
    {
        ControlServiceImpl { state, lora_allowed_path_prefixes, runtime_lora_updating_enabled }
    }

    pub fn parallelism_info(&self) -> (info: pb::ParallelismInfo)
        ensures
            info == wanted_parallelism(self.state),
    {
        let ready = &self.state.ready;
        pb::ParallelismInfo {
            tensor_parallel_size: ready.tensor_parallel_size,
            pipeline_parallel_size: ready.pipeline_parallel_size,
            data_parallel_size: at_most_u32(ready.data_parallel_size),
            data_parallel_rank: ready.data_parallel_rank,
            decode_context_parallel_size: ready.decode_context_parallel_size,
            data_parallel_start_rank: self.state.data_parallel_start_rank,
            managed_data_parallel_size: self.state.managed_data_parallel_size,
        }
    }

    pub fn get_server_info(&self) -> (info: pb::ServerInfo)
        ensures
            server_info_set(info, self.state),
    {
        let ready = &self.state.ready;
        let capabilities: Vec<String> = vec![
            "generate.sampling.v2".to_string(),
            "generate.preprocessed_mm.v1".to_string(),
            "generate.routed_experts.v1".to_string(),
        ];
        assert(texts_of(capabilities@) =~= capability_texts());
        pb::ServerInfo {
            engine_version: ready.vllm_version.clone(),
            api_version: "vllm".to_string(),
            instance_id: ready.instance_id.clone(),
            parallelism: Some(self.parallelism_info()),
            max_model_len: self.state.max_model_len,
            kv_block_size: at_most_u32(ready.block_size),
            total_kv_blocks: self.state.total_num_gpu_blocks,
            max_running_requests: ready.max_num_seqs,
            max_batched_tokens: ready.max_num_batched_tokens,
            max_loras: ready.max_loras,
            capabilities,
        }
    }

    pub fn get_model_info(&self) -> (info: pb::ModelInfo)
        requires
            self.state.well_formed(),
        ensures
            model_info_set(info, self.state),
    {
        pb::ModelInfo {
            model_id: self.state.model_id.clone(),
            served_model_name: self.state.primary_model_name().clone(),
            served_model_aliases: self.state.model_aliases(),
            tokenizer_modes: Vec::new(),
            supports_text_input: true,
            supports_token_ids_input: true,
            supports_lora: self.state.ready.supports_lora,
            supports_multimodal: self.state.supports_multimodal,
            reasoning_parser: text_or_empty(&self.state.reasoning_parser),
            tool_call_parser: text_or_empty(&self.state.tool_call_parser),
        }
    }

    /// Whether there is anything to abort.
    pub fn abort(&self, request_ids: Vec<String>) -> (step: AbortStep)
        ensures
            step == if request_ids@.len() == 0 {
                AbortStep::Answer
            } else {
                AbortStep::Abort(request_ids)
            },
    {
        if request_ids.len() == 0 {
            AbortStep::Answer
        } else {
            AbortStep::Abort(request_ids)
        }
    }

    /// Takes what the abort came to: nothing, or the report of its error.
    pub fn abort_answer(&self, outcome: Result<(), String>) -> (result: Result<(), Status>)
        ensures
            match outcome {
                Ok(_) => result is Ok,
                Err(report) => refusal(result) == Some(internal(report@)),
            },
    {
        match outcome {
            Ok(()) => Ok(()),
            Err(report) => Err(Status::internal(report.as_str())),
        }
    }

    /// Stops taking on requests, on all services that share `admission`, and tells how many are
    /// still running.
    pub fn drain(&self, admission: &mut AdmissionState) -> (response: pb::DrainResponse)
        ensures
            *final(admission) == drained(*old(admission)),
            response.in_flight_requests == at_most_32(old(admission).in_flight),
            response.state == wanted_drain_state(old(admission).in_flight),
            response.message@ == Seq::<char>::empty(),
    {
        admission.begin_drain();
        let in_flight: u32 = at_most_u32(admission.in_flight());
        let state = if in_flight == 0 {
            pb::DrainState::Complete
        } else {
            pb::DrainState::InProgress
        };
        pb::DrainResponse { state, in_flight_requests: in_flight, message: no_text() }
    }

    /// Takes a place for a change to the loaded adapters.
    pub fn admit_lora_update(&self, admission: &mut AdmissionState) -> (result: Result<
        AdmissionGuard,
        Status,
    >)
        ensures
            refusal(result) == lora_update_refusal(
                self.runtime_lora_updating_enabled,
                *old(admission),
            ),
            *final(admission) == if result is Ok {
                entered(*old(admission))
            } else {
                *old(admission)
            },
    {
        if !self.runtime_lora_updating_enabled {
            return Err(Status::failed_precondition("runtime LoRA updating is disabled"));
        }
        admission.take_place()
    }

    /// Where the ranks of the engine publish their events. `advertised` is the address that the
    /// machine is known by.
    pub fn get_kv_event_sources(&self, advertised: &str) -> (sources: Vec<pb::KvEventSource>)
        requires
            forall|i: int|
                0 <= i < self.state.ready_responses@.len() ==> events_fit(
                    #[trigger] self.state.ready_responses@[i],
                ),
        ensures
            sources_set(
                sources@,
                publishing(self.state.ready_responses@, advertised@),
                advertised@,
            ),
    {
        kv_event_sources(&self.state.ready_responses, advertised)
    }
}

/// A drain is reported as complete only where no request is running.
pub proof fn reported_drain_is_complete(in_flight: u64)
    ensures
        (wanted_drain_state(in_flight) == pb::DrainState::Complete) == (in_flight == 0),
        (at_most_32(in_flight) == 0) == (in_flight == 0),
{
}

/// A server is described by what its engine says, each number in its place and those that may be
/// too large for 32 bits as far as they go.
pub proof fn servers_are_described_as_they_are(info: pb::ServerInfo, state: AppState)
    requires
        server_info_set(info, state),
    ensures
        info.engine_version@ == state.ready.vllm_version@,
        info.api_version@ == "vllm"@,
        info.instance_id@ == state.ready.instance_id@,
        info.max_model_len == state.max_model_len,
        info.total_kv_blocks == state.total_num_gpu_blocks,
        info.max_running_requests == state.ready.max_num_seqs,
        info.max_batched_tokens == state.ready.max_num_batched_tokens,
        info.max_loras == state.ready.max_loras,
        state.ready.block_size <= 4294967295 ==> info.kv_block_size == state.ready.block_size,
        state.ready.block_size > 4294967295 ==> info.kv_block_size == 4294967295,
        info.parallelism matches Some(told) && {
            &&& told.tensor_parallel_size == state.ready.tensor_parallel_size
            &&& told.pipeline_parallel_size == state.ready.pipeline_parallel_size
            &&& state.ready.data_parallel_size <= 4294967295 ==> told.data_parallel_size
                == state.ready.data_parallel_size
            &&& state.ready.data_parallel_size > 4294967295 ==> told.data_parallel_size
                == 4294967295
            &&& told.data_parallel_rank == state.ready.data_parallel_rank
            &&& told.decode_context_parallel_size == state.ready.decode_context_parallel_size
            &&& told.data_parallel_start_rank == state.data_parallel_start_rank
            &&& told.managed_data_parallel_size == state.managed_data_parallel_size
        },
        info.capabilities@.len() == 3,
        info.capabilities@[0]@ == "generate.sampling.v2"@,
        info.capabilities@[1]@ == "generate.preprocessed_mm.v1"@,
        info.capabilities@[2]@ == "generate.routed_experts.v1"@,
{
    let told = texts_of(info.capabilities@);
    assert(told.len() == info.capabilities@.len());
    assert(told[0] == info.capabilities@[0]@ && told[1] == info.capabilities@[1]@ && told[2]
        == info.capabilities@[2]@);
}

/// A model is described under its first name, with all further ones as aliases and with what the
/// engine says of it.
pub proof fn models_are_described_as_they_are(info: pb::ModelInfo, state: AppState, i: int)
    requires
        model_info_set(info, state),
        state.served_model_names@.len() > 0,
    ensures
        info.model_id@ == state.model_id@,
        info.served_model_name@ == state.served_model_names@[0]@,
        info.served_model_aliases@.len() == state.served_model_names@.len() - 1,
        0 <= i < info.served_model_aliases@.len() ==> info.served_model_aliases@[i]
            == state.served_model_names@[i + 1],
        info.tokenizer_modes@.len() == 0,
        info.supports_text_input && info.supports_token_ids_input,
        info.supports_lora == state.ready.supports_lora,
        info.supports_multimodal == state.supports_multimodal,
        state.reasoning_parser matches Some(name) ==> info.reasoning_parser@ == name@,
        state.reasoning_parser is None ==> info.reasoning_parser@.len() == 0,
        state.tool_call_parser matches Some(name) ==> info.tool_call_parser@ == name@,
        state.tool_call_parser is None ==> info.tool_call_parser@.len() == 0,
{
}

/// Adapters are changed only where that is switched on and the services do not drain.
pub proof fn adapters_are_changed_while_allowed(enabled: bool, admission: AdmissionState)
    ensures
        lora_update_refusal(enabled, admission) is None <==> enabled && !admission.draining,
        !enabled ==> (lora_update_refusal(enabled, admission) matches Some(status) && status.code
            == Code::FailedPrecondition),
        enabled && admission.draining ==> (lora_update_refusal(enabled, admission) matches Some(
            status,
        ) && status.code == Code::Unavailable),
{
}

} // verus!
