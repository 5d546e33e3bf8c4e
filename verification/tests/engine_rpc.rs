use engine_gateway::generation::{DecodedTextEvent, FinishReason, Finished, TokenUsage};
use engine_gateway::grpc::engine_rpc::convert::request::{to_text_request, to_text_request_with_id};
use engine_gateway::grpc::engine_rpc::convert::response::{error_response, event_to_responses};
use engine_gateway::grpc::engine_rpc::{pb, EngineServiceImpl};
use engine_gateway::numbers::{Float32, Float64};
use engine_gateway::status::{Code, Status};

fn f(value: f32) -> Float32 {
    Float32 { bits: value.to_bits(), widened: (value as f64).to_bits() }
}

fn d(value: f64) -> Float64 {
    Float64 { bits: value.to_bits(), narrowed: f(value as f32) }
}

fn names() -> Vec<String> {
    vec!["test-model".to_string()]
}

fn base_request() -> pb::GenerateRequest {
    pb::GenerateRequest {
        request_id: "req".to_string(),
        model: "test-model".to_string(),
        input: Some(pb::Input::Prompt("hi".to_string())),
        ..Default::default()
    }
}

fn finished(reason: FinishReason) -> Finished {
    Finished {
        usage: TokenUsage { prompt_token_count: 3, output_token_count: 2, cached_token_count: 0 },
        finish_reason: reason,
        kv_transfer_params: None,
        routed_experts: None,
    }
}

#[test]
fn request_conversion_preserves_sampling_stop_and_priority() {
    let request = pb::GenerateRequest {
        sampling: Some(pb::SamplingParams {
            temperature: Some(d(0.7)),
            top_p: Some(d(0.9)),
            top_k: Some(50),
            seed: Some(-7),
            min_tokens: Some(2),
            ..Default::default()
        }),
        stop: vec![
            pb::StopCondition { condition: Some(pb::Condition::StopText("END".to_string())) },
            pb::StopCondition { condition: Some(pb::Condition::StopTokenId(7)) },
        ],
        priority: Some(-3),
        ..base_request()
    };
    let text = to_text_request(request, &names()).unwrap();
    assert_eq!(text.sampling_params.temperature, Some(f(0.7)));
    assert_eq!(text.sampling_params.seed, Some(-7));
    assert_eq!(text.sampling_params.stop_token_ids, Some(vec![7]));
    assert_eq!(text.decode_options.stop_strings, Some(vec!["END".to_string()]));
    assert_eq!(text.decode_options.min_tokens, 2);
    assert_eq!(text.priority, -3);
    assert_eq!(text.data_parallel_rank, None);
    assert_eq!(text.arrival_time, None);
}

#[test]
fn request_conversion_rejects_missing_input_and_wrong_model() {
    let missing = pb::GenerateRequest { input: None, ..base_request() };
    assert_eq!(
        to_text_request(missing, &names()).unwrap_err().code,
        Code::InvalidArgument
    );
    let wrong = pb::GenerateRequest { model: "other".to_string(), ..base_request() };
    assert_eq!(to_text_request(wrong, &names()).unwrap_err().code, Code::NotFound);
}

#[test]
fn request_conversion_rejects_fields_owned_by_later_stack_layers() {
    for request in [
        pb::GenerateRequest { lora_name: "adapter".to_string(), ..base_request() },
        pb::GenerateRequest { kv_session: Some(pb::KvSessionRef::default()), ..base_request() },
        pb::GenerateRequest { data_parallel_rank: Some(0), ..base_request() },
    ] {
        assert_eq!(
            to_text_request(request, &names()).unwrap_err().code,
            Code::Unimplemented
        );
    }
}

#[test]
fn terminal_event_maps_finish_reason_and_usage() {
    let responses = event_to_responses(
        DecodedTextEvent::TextDelta {
            delta: "done".to_string(),
            token_ids: vec![5],
            logprobs: None,
            finished: Some(finished(FinishReason::Length)),
        },
        "req",
    );
    assert_eq!(responses.len(), 2);
    let terminal = responses.last().unwrap();
    let Some(pb::Event::Finished(event)) = &terminal.event else {
        panic!("expected finished event");
    };
    assert_eq!(event.reason, pb::FinishReason::Length);
    let usage = terminal.usage.as_ref().unwrap();
    assert_eq!(
        (usage.prompt_tokens, usage.completion_tokens, usage.total_tokens),
        (3, 2, 5)
    );
}

#[test]
fn error_response_is_structured_and_terminal() {
    let response = error_response("req", "engine failed".to_string());
    let Some(pb::Event::Error(error)) = response.event else {
        panic!("expected error event");
    };
    assert_eq!(error.code, pb::ErrorCode::Internal);
    assert_eq!(error.message, "engine failed");
    assert!(response.usage.is_none());
}

#[test]
fn top_k_takes_minus_one_zero_and_positive_numbers() {
    let top_k = |value: i32| {
        to_text_request(
            pb::GenerateRequest {
                sampling: Some(pb::SamplingParams { top_k: Some(value), ..Default::default() }),
                ..base_request()
            },
            &names(),
        )
    };
    assert_eq!(top_k(-1).unwrap().sampling_params.top_k, Some(0));
    assert_eq!(top_k(0).unwrap().sampling_params.top_k, Some(0));
    assert_eq!(top_k(9).unwrap().sampling_params.top_k, Some(9));
    assert_eq!(
        top_k(-2).unwrap_err().message,
        "top_k must be -1, 0, or a positive integer; got -2"
    );
}

#[test]
fn a_condition_must_say_what_to_stop_at() {
    let request = pb::GenerateRequest {
        stop: vec![pb::StopCondition { condition: None }],
        ..base_request()
    };
    assert_eq!(
        to_text_request(request, &names()).unwrap_err().message,
        "stop condition must set stop_text or stop_token_id"
    );
}

#[test]
fn engine_requests_without_an_id_get_a_fresh_one() {
    let request = || pb::GenerateRequest { request_id: String::new(), ..base_request() };
    assert_eq!(to_text_request(request(), &names()).unwrap().request_id.len(), 36);
    assert_eq!(
        to_text_request_with_id(request(), "mine".to_string(), &names()).unwrap().request_id,
        "mine"
    );
}

#[test]
fn events_without_output_or_end_are_not_answered() {
    assert_eq!(
        event_to_responses(
            DecodedTextEvent::Start { prompt_token_ids: vec![1], prompt_logprobs: None },
            "req"
        ),
        Vec::new()
    );
    let reasons = [
        (FinishReason::Stop(None), pb::FinishReason::Stop),
        (FinishReason::Repetition(None), pb::FinishReason::Stop),
        (FinishReason::Abort, pb::FinishReason::Cancelled),
        (FinishReason::Error, pb::FinishReason::Error),
    ];
    for (reason, expected) in reasons {
        let responses = event_to_responses(
            DecodedTextEvent::TextDelta {
                delta: String::new(),
                token_ids: Vec::new(),
                logprobs: None,
                finished: Some(finished(reason)),
            },
            "req",
        );
        assert_eq!(responses.len(), 1);
        let Some(pb::Event::Finished(event)) = &responses[0].event else {
            panic!("expected finished event");
        };
        assert_eq!(event.reason, expected);
    }
}

fn assert_unimplemented(result: Result<(), Status>, method: &str) {
    let status = result.unwrap_err();
    assert_eq!(status.code, Code::Unimplemented);
    assert_eq!(
        status.message,
        format!("engine RPC method `{method}` is not implemented")
    );
}

#[test]
fn every_engine_rpc_method_is_unimplemented() {
    let service = EngineServiceImpl::new();
    assert_unimplemented(service.generate(), "Generate");
    assert_unimplemented(service.get_engine_info(), "GetEngineInfo");
    assert_unimplemented(service.get_model_info(), "GetModelInfo");
    assert_unimplemented(service.health(), "Health");
    assert_unimplemented(service.abort(), "Abort");
    assert_unimplemented(service.drain(), "Drain");
    assert_unimplemented(service.load_lora(), "LoadLora");
    assert_unimplemented(service.unload_lora(), "UnloadLora");
    assert_unimplemented(service.list_loras(), "ListLoras");
    assert_unimplemented(service.get_kv_connector_info(), "GetKvConnectorInfo");
    assert_unimplemented(service.get_kv_event_sources(), "GetKvEventSources");
}
