use engine_gateway::engine::{EngineCoreReadyResponse, MmFeatureSpec, PlaceholderRange};
use engine_gateway::generation::{
    DecodedTextEvent, FinishReason, LoraRequest, Prompt, TokenUsage,
};
use engine_gateway::grpc::admission::AdmissionState;
use engine_gateway::grpc::control::{AbortStep, ControlServiceImpl};
use engine_gateway::grpc::convert::response::ResponseOpts;
use engine_gateway::grpc::inference::{
    stream_response, text_error_to_status, unary_response, CollectedOutput, InferenceServiceImpl,
    PreparedMedia,
};
use engine_gateway::grpc::kv_events::{
    endpoint_port_fits, kv_endpoint_from_zmq, kv_event_source, offset_endpoint_port,
};
use engine_gateway::grpc::pb;
use engine_gateway::json::JsonValue;
use engine_gateway::state::AppState;
use engine_gateway::status::Code;

fn ready() -> EngineCoreReadyResponse {
    EngineCoreReadyResponse {
        vllm_version: "1.2.3".to_string(),
        instance_id: "instance".to_string(),
        tensor_parallel_size: 2,
        pipeline_parallel_size: 1,
        data_parallel_size: 1 << 40,
        data_parallel_rank: 1,
        decode_context_parallel_size: 1,
        block_size: 16,
        kv_event_block_size: 16,
        num_gpu_blocks: 100,
        max_num_seqs: 8,
        max_num_batched_tokens: 2048,
        max_loras: 1,
        supports_lora: true,
        kv_role: None,
        kv_engine_id: None,
        kv_events_publisher: Some("zmq".to_string()),
        kv_events_endpoint: Some("tcp://*:5557".to_string()),
        kv_events_topic: Some("kv".to_string()),
    }
}

fn state() -> AppState {
    AppState {
        served_model_names: vec!["test-model".to_string(), "alias".to_string()],
        model_id: "org/test-model".to_string(),
        ready: ready(),
        ready_responses: vec![ready()],
        data_parallel_start_rank: 0,
        managed_data_parallel_size: 1,
        max_model_len: 4096,
        total_num_gpu_blocks: 100,
        max_logprobs: 20,
        supports_multimodal: true,
        reasoning_parser: Some("r1".to_string()),
        tool_call_parser: None,
    }
}

fn control(enabled: bool) -> ControlServiceImpl {
    ControlServiceImpl::new(state(), None, enabled)
}

fn request() -> pb::GenerateRequest {
    pb::GenerateRequest {
        request_id: "req".to_string(),
        prompt: Some(pb::PromptInput::TokenIds(pb::TokenIds { ids: vec![1, 2] })),
        ..Default::default()
    }
}

#[test]
fn draining_services_take_on_nothing() {
    let mut admission = AdmissionState::default();
    let guard = admission.try_admit().unwrap();
    assert_eq!(admission.in_flight(), 1);
    admission.begin_drain();
    assert!(admission.is_draining());
    assert!(admission.try_admit().is_none());
    assert_eq!(admission.in_flight(), 1);
    admission.release(guard);
    assert_eq!(admission.in_flight(), 0);
}

#[test]
fn drain_reports_what_is_running() {
    let service = control(true);
    let mut admission = AdmissionState::default();
    let guard = admission.try_admit().unwrap();
    let response = service.drain(&mut admission);
    assert_eq!(response.state, pb::DrainState::InProgress);
    assert_eq!(response.in_flight_requests, 1);
    admission.release(guard);
    assert_eq!(service.drain(&mut admission).state, pb::DrainState::Complete);
}

#[test]
fn a_drain_of_the_control_service_reaches_the_inference_service() {
    let mut admission = AdmissionState::default();
    let inference = InferenceServiceImpl::new(state());
    assert!(inference.take_place(&mut admission).is_ok());
    control(true).drain(&mut admission);
    let error = inference.take_place(&mut admission).unwrap_err();
    assert_eq!(
        (error.code, error.message.as_str()),
        (Code::Unavailable, "gRPC service is draining")
    );
    assert_eq!(admission.in_flight(), 1);
}

#[test]
fn load_requires_runtime_lora_updating() {
    let mut admission = AdmissionState::default();
    let error = control(false).admit_lora_update(&mut admission).unwrap_err();
    assert_eq!(error.code, Code::FailedPrecondition);
    assert_eq!(admission, AdmissionState::default());
    let service = control(true);
    assert!(service.admit_lora_update(&mut admission).is_ok());
    assert_eq!(admission.in_flight, 1);
    service.drain(&mut admission);
    let error = service.admit_lora_update(&mut admission).unwrap_err();
    assert_eq!(
        (error.code, error.message.as_str()),
        (Code::Unavailable, "gRPC service is draining")
    );
}

#[test]
fn server_and_model_are_described() {
    let service = control(true);
    let server = service.get_server_info();
    assert_eq!(server.api_version, "vllm");
    assert_eq!(server.engine_version, "1.2.3");
    assert_eq!(server.parallelism.unwrap().data_parallel_size, u32::MAX);
    assert_eq!(
        server.capabilities,
        vec![
            "generate.sampling.v2",
            "generate.preprocessed_mm.v1",
            "generate.routed_experts.v1",
        ]
    );
    let model = service.get_model_info();
    assert_eq!(model.served_model_name, "test-model");
    assert_eq!(model.served_model_aliases, vec!["alias"]);
    assert_eq!(model.reasoning_parser, "r1");
    assert_eq!(model.tool_call_parser, "");
    assert!(model.supports_multimodal);
}

#[test]
fn aborting_nothing_is_answered_at_once() {
    let service = control(true);
    assert_eq!(service.abort(Vec::new()), AbortStep::Answer);
    assert_eq!(
        service.abort(vec!["r".to_string()]),
        AbortStep::Abort(vec!["r".to_string()])
    );
    assert!(service.abort_answer(Ok(())).is_ok());
    assert_eq!(
        service.abort_answer(Err("lost".to_string())).unwrap_err().message,
        "lost"
    );
}

#[test]
fn ranks_publish_at_their_own_endpoints() {
    assert_eq!(offset_endpoint_port("tcp://*:5557", 0), "tcp://*:5557");
    assert_eq!(offset_endpoint_port("tcp://*:5557", 3), "tcp://*:5560");
    assert_eq!(offset_endpoint_port("inproc://cache", 2), "inproc://cache_dp2");
    assert_eq!(offset_endpoint_port("ipc:///tmp/kv", 2), "ipc:///tmp/kv");
    assert_eq!(offset_endpoint_port("tcp://host:x", 2), "tcp://host:x");
    assert_eq!(offset_endpoint_port("", 2), "");
    assert!(endpoint_port_fits("tcp://*:4294967290", 5));
    assert!(!endpoint_port_fits("tcp://*:4294967290", 6));
    assert!(endpoint_port_fits("inproc://tcp:4294967295", 6));
}

#[test]
fn zmq_endpoints_are_read() {
    let endpoint = |text: &str| {
        kv_endpoint_from_zmq(text, "10.0.0.7").map(|endpoint| (endpoint.host, endpoint.port))
    };
    assert_eq!(endpoint("tcp://*:5557"), Some(("10.0.0.7".to_string(), 5557)));
    assert_eq!(endpoint("tcp://0.0.0.0:+7"), Some(("10.0.0.7".to_string(), 7)));
    assert_eq!(endpoint("tcp://[::]:1"), Some(("10.0.0.7".to_string(), 1)));
    assert_eq!(endpoint(":1"), Some(("10.0.0.7".to_string(), 1)));
    assert_eq!(endpoint("tcp://[fe80::1]:9"), Some(("fe80::1".to_string(), 9)));
    assert_eq!(endpoint("host:80"), Some(("host".to_string(), 80)));
    assert_eq!(endpoint("tcp://host"), None);
    assert_eq!(endpoint("host:99999999999"), None);
}

#[test]
fn only_zmq_publishers_are_sources() {
    let sources = control(true).get_kv_event_sources("10.0.0.7");
    assert_eq!(sources.len(), 1);
    let address = sources[0].endpoint_addr.as_ref().unwrap();
    assert_eq!((address.host.as_str(), address.port), ("10.0.0.7", 5558));
    assert_eq!(address.protocol, "tcp");
    assert_eq!(sources[0].topic, "kv");
    assert_eq!(sources[0].data_parallel_rank, Some(1));
    let mut quiet = ready();
    quiet.kv_events_publisher = Some("null".to_string());
    quiet.kv_events_endpoint = Some("tcp://*:4294967295".to_string());
    assert_eq!(kv_event_source(&quiet, "h"), None);
}

#[test]
fn requests_are_prepared_step_by_step() {
    let service = InferenceServiceImpl::new(state());
    let named = pb::GenerateRequest { lora_name: "a".to_string(), ..request() };
    let prepared = service.begin_request(named, Vec::new(), true).unwrap();
    assert!(prepared.names_adapter());
    let adapter = LoraRequest {
        lora_name: "a".to_string(),
        lora_int_id: 1,
        lora_path: "/a".to_string(),
    };
    let prepared = prepared.adapter_resolved(true, Some(adapter.clone())).unwrap();
    assert!(!prepared.carries_media().unwrap());
    let text = prepared.finish_request();
    assert_eq!(text.lora_request, Some(adapter));
    assert_eq!(text.request_id, "req");
    assert!(text.intermediate);
}

#[test]
fn adapters_have_to_be_there() {
    let mut service = InferenceServiceImpl::new(state());
    let named = || pb::GenerateRequest { lora_name: "a".to_string(), ..request() };
    let prepared = service.begin_request(named(), Vec::new(), false).unwrap();
    assert_eq!(
        prepared.adapter_resolved(false, None).unwrap_err().message,
        "LoRA state differs across engine ranks; restart the engine"
    );
    let prepared = service.begin_request(named(), Vec::new(), false).unwrap();
    assert_eq!(
        prepared.adapter_resolved(true, None).unwrap_err().message,
        "LoRA adapter `a` is not loaded"
    );
    service.state.ready.supports_lora = false;
    assert_eq!(
        service.begin_request(named(), Vec::new(), false).unwrap_err().message,
        "engine was not started with LoRA enabled"
    );
}

#[test]
fn media_need_a_prompt_in_tokens() {
    let service = InferenceServiceImpl::new(state());
    let item = || pb::MediaItem {
        source: Some(pb::MediaSource::Url("https://example.test/a.png".into())),
        ..Default::default()
    };
    let text = pb::GenerateRequest {
        prompt: Some(pb::PromptInput::Text("hi".to_string())),
        media: vec![item()],
        ..request()
    };
    let prepared =
        service.begin_request_with_id(text, "id".to_string(), Vec::new(), false).unwrap();
    assert_eq!(
        prepared.carries_media().unwrap_err().message,
        "multimodal gRPC requests must provide token_ids input"
    );
    let tokens = || pb::GenerateRequest { media: vec![item()], ..request() };
    let prepared = service.begin_request(tokens(), Vec::new(), false).unwrap();
    assert!(prepared.carries_media().unwrap());
    let features = || MmFeatureSpec {
        data: None,
        modality: "image".to_string(),
        identifier: "i".to_string(),
        mm_position: PlaceholderRange { offset: 0, length: 1, is_embed: None },
        mm_hash: None,
    };
    let media = PreparedMedia { token_ids: vec![9, 1, 2], mm_features: Some(vec![features()]) };
    let text = prepared.media_prepared(Ok(media)).unwrap().finish_request();
    assert_eq!(text.prompt, Prompt::TokenIds(vec![9, 1, 2]));
    assert_eq!(text.mm_features, Some(vec![features()]));
    let prepared = service.begin_request(tokens(), Vec::new(), false).unwrap();
    assert_eq!(
        prepared.media_prepared(Err("no".to_string())).unwrap_err().code,
        Code::Internal
    );
}

#[test]
fn servers_that_prefill_mark_their_requests() {
    let mut service = InferenceServiceImpl::new(state());
    service.state.ready.kv_role = Some("kv_producer".to_string());
    let text = service.begin_request(request(), Vec::new(), false).unwrap().finish_request();
    assert_eq!(
        text.sampling_params.vllm_xargs,
        Some(vec![(
            "kv_transfer_params".to_string(),
            JsonValue::Object(vec![("do_remote_decode".to_string(), JsonValue::Bool(true))])
        )])
    );
    service.state.ready.kv_role = Some("kv_consumer".to_string());
    assert_eq!(
        service.begin_request(request(), Vec::new(), false).unwrap_err().code,
        Code::InvalidArgument
    );
}

#[test]
fn outputs_are_assembled() {
    let opts = ResponseOpts {
        output_text: true,
        output_token_ids: true,
        prompt_token_ids: true,
        ..Default::default()
    };
    let response = unary_response(
        CollectedOutput {
            prompt_token_ids: vec![1, 2],
            prompt_logprobs: None,
            text: "out".to_string(),
            token_ids: vec![3],
            logprobs: None,
            usage: TokenUsage {
                prompt_token_count: 2,
                output_token_count: 1,
                cached_token_count: 0,
            },
            finish_reason: FinishReason::Length,
            kv_transfer_params: None,
            routed_experts: None,
        },
        &opts,
    );
    assert_eq!(response.prompt_info.unwrap().token_ids, vec![1, 2]);
    let output = response.outputs.unwrap();
    assert_eq!(output.text, "out");
    assert_eq!(output.finish_info.unwrap().num_output_tokens, 1);

    let start = stream_response(
        DecodedTextEvent::Start { prompt_token_ids: vec![1], prompt_logprobs: None },
        &opts,
    );
    assert!(start.prompt_info.is_some() && start.outputs.is_none());
    let delta = stream_response(
        DecodedTextEvent::TextDelta {
            delta: "x".to_string(),
            token_ids: vec![4],
            logprobs: None,
            finished: None,
        },
        &opts,
    );
    assert!(delta.prompt_info.is_none());
    assert_eq!(delta.outputs.unwrap().token_ids, vec![4]);
}

#[test]
fn errors_of_the_engine_are_the_callers_or_its_own() {
    assert_eq!(text_error_to_status(true, "bad").code, Code::InvalidArgument);
    let status = text_error_to_status(false, "down");
    assert_eq!((status.code, status.message.as_str()), (Code::Internal, "down"));
}
