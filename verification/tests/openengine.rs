use engine_gateway::engine::{
    EngineCoreReadyResponse, StructuredOutputBackend, StructuredOutputConstraint,
};
use engine_gateway::generation::{
    DecodedLogprobs, DecodedPositionLogprobs, DecodedPromptLogprobs, DecodedTextEvent,
    DecodedTokenLogprob, FinishReason, Finished, Prompt, SamplingParams, StopReason,
    TextDecodeOptions, TextRequest, TokenUsage,
};
use engine_gateway::grpc::admission::AdmissionState;
use engine_gateway::grpc::engine_rpc::convert::request::to_text_request;
use engine_gateway::grpc::engine_rpc::openengine::pb;
use engine_gateway::grpc::engine_rpc::openengine::request::{
    apply_extensions, guide_schema, to_private_request, to_private_request_with_id,
};
use engine_gateway::grpc::engine_rpc::openengine::response::{error_response, event_to_responses};
use engine_gateway::grpc::engine_rpc::openengine::service::{
    abort, abort_answer, begin_drain, canonical_lora, canonical_loras, canonical_role, drain_step,
    get_engine_info, get_kv_event_sources, get_load, get_model_info, health, health_in_doubt,
    output_logprob_capabilities, per_rank_kv_blocks, private_lora, private_role,
    prompt_logprob_capabilities, subscribe_kv_events, subscribe_runtime_events, DrainStep,
    WireRole,
};
use engine_gateway::grpc::engine_rpc::pb as private;
use engine_gateway::grpc::engine_rpc::standing::ServiceStanding;
use engine_gateway::json::JsonValue;
use engine_gateway::numbers::{Float32, Float64};
use engine_gateway::state::AppState;
use engine_gateway::status::Code;

fn f(value: f32) -> Float32 {
    Float32 { bits: value.to_bits(), widened: (value as f64).to_bits() }
}

fn d(value: f64) -> Float64 {
    Float64 { bits: value.to_bits(), narrowed: f(value as f32) }
}

fn ready() -> EngineCoreReadyResponse {
    EngineCoreReadyResponse {
        vllm_version: "1.2.3".to_string(),
        instance_id: "instance".to_string(),
        tensor_parallel_size: 2,
        pipeline_parallel_size: 1,
        data_parallel_size: 4,
        data_parallel_rank: 0,
        decode_context_parallel_size: 1,
        block_size: 16,
        kv_event_block_size: 16,
        num_gpu_blocks: 100,
        max_num_seqs: 8,
        max_num_batched_tokens: 2048,
        max_loras: 1,
        supports_lora: false,
        kv_role: None,
        kv_engine_id: Some("engine-1".to_string()),
        kv_events_publisher: None,
        kv_events_endpoint: None,
        kv_events_topic: None,
    }
}

fn state() -> AppState {
    AppState {
        served_model_names: vec!["test-model".to_string(), "alias".to_string()],
        model_id: "org/test-model".to_string(),
        ready: ready(),
        ready_responses: vec![ready()],
        data_parallel_start_rank: 0,
        managed_data_parallel_size: 1,
        max_model_len: 4096,
        total_num_gpu_blocks: 100,
        max_logprobs: 20,
        supports_multimodal: false,
        reasoning_parser: None,
        tool_call_parser: Some("hermes".to_string()),
    }
}

fn text_request() -> TextRequest {
    TextRequest {
        request_id: "req".to_string(),
        prompt: Prompt::Text("hi".to_string()),
        mm_features: None,
        sampling_params: SamplingParams::default(),
        decode_options: TextDecodeOptions {
            skip_special_tokens: true,
            include_stop_str_in_output: false,
            stop_strings: None,
            min_tokens: 0,
        },
        intermediate: true,
        priority: 0,
        cache_salt: None,
        add_special_tokens: true,
        data_parallel_rank: None,
        reasoning_parser_kwargs: None,
        lora_request: None,
        arrival_time: None,
    }
}

fn entry(token_id: u32, token: &str, logprob: f32, rank: u32) -> DecodedTokenLogprob {
    DecodedTokenLogprob { token_id, token: token.to_string(), logprob: f(logprob), rank }
}

fn finished(reason: FinishReason, params: Option<JsonValue>) -> Finished {
    Finished {
        usage: TokenUsage { prompt_token_count: 3, output_token_count: 2, cached_token_count: 1 },
        finish_reason: reason,
        kv_transfer_params: params,
        routed_experts: None,
    }
}

fn end(finished: Finished, role: private::EngineRole) -> pb::GenerateResponse {
    let mut responses = event_to_responses(
        DecodedTextEvent::TextDelta {
            delta: String::new(),
            token_ids: Vec::new(),
            logprobs: None,
            finished: Some(finished),
        },
        "req",
        role,
        Some("nixl"),
        3,
    );
    assert_eq!(responses.len(), 1);
    responses.remove(0)
}

#[test]
fn canonical_request_maps_nested_sampling_stopping_response_and_kv() {
    let request = pb::GenerateRequest {
        request_id: "req-canonical".to_string(),
        model: "test-model".to_string(),
        input: Some(pb::Input::TokenIds(pb::TokenIds { ids: vec![1, 2, 3] })),
        sampling: Some(pb::SamplingParams {
            temperature: Some(d(0.7)),
            top_p: Some(d(0.9)),
            seed: Some(17),
            num_sequences: Some(1),
            ..Default::default()
        }),
        stopping: Some(pb::StoppingOptions {
            max_tokens: Some(32),
            min_tokens: Some(2),
            conditions: vec![pb::StopCondition {
                condition: Some(pb::Condition::StopText("done".to_string())),
            }],
            ignore_eos: Some(true),
            include_stop_in_output: Some(true),
        }),
        response: Some(pb::ResponseOptions {
            return_output_logprobs: Some(true),
            output_candidates: Some(pb::CandidateTokenSelection {
                selection: Some(pb::Selection::TopN(3)),
            }),
            return_prompt_logprobs: Some(true),
            prompt_candidates: Some(pb::CandidateTokenSelection {
                selection: Some(pb::Selection::TopN(2)),
            }),
            prompt_logprob_start: Some(0),
            skip_special_tokens: Some(false),
        }),
        kv: Some(pb::KvOptions {
            session: None,
            data_parallel_rank: Some(3),
            bypass_prefix_cache: Some(true),
            cache_salt: Some("tenant-a".to_string()),
        }),
        guided: Some(pb::GuidedDecoding {
            guide: Some(pb::Guide::Regex("[0-9]+".to_string())),
            backend: "xgrammar".to_string(),
        }),
        priority: Some(7),
        ..Default::default()
    };

    let (private, extensions) = to_private_request(request).unwrap();
    let sampling = private.sampling.as_ref().unwrap();
    assert_eq!(sampling.max_tokens, Some(32));
    assert_eq!(sampling.min_tokens, Some(2));
    assert!(sampling.ignore_eos);
    assert_eq!(sampling.seed, Some(17));
    assert_eq!(private.stop.len(), 1);
    assert_eq!(private.data_parallel_rank, Some(3));
    assert_eq!(private.priority, Some(7));

    let mut text_request = text_request();
    apply_extensions(&mut text_request, extensions);
    assert_eq!(text_request.sampling_params.logprobs, Some(3));
    assert_eq!(text_request.sampling_params.prompt_logprobs, Some(2));
    assert_eq!(text_request.sampling_params.skip_reading_prefix_cache, Some(true));
    let structured = text_request.sampling_params.structured_outputs.as_ref();
    assert!(structured.is_some());
    assert_eq!(structured.unwrap().backend, Some(StructuredOutputBackend::Xgrammar));
    assert!(text_request.decode_options.include_stop_str_in_output);
    assert!(!text_request.decode_options.skip_special_tokens);
    assert_eq!(text_request.cache_salt.as_deref(), Some("tenant-a"));
}

#[test]
fn canonical_stopping_options_apply_without_explicit_sampling() {
    let request = pb::GenerateRequest {
        stopping: Some(pb::StoppingOptions {
            max_tokens: Some(9),
            min_tokens: Some(2),
            ignore_eos: Some(true),
            ..Default::default()
        }),
        ..Default::default()
    };

    let (private, _) = to_private_request(request).unwrap();
    let sampling = private.sampling.expect("stopping fields must create private sampling params");
    assert_eq!(sampling.max_tokens, Some(9));
    assert_eq!(sampling.min_tokens, Some(2));
    assert!(sampling.ignore_eos);
    assert_eq!(private.request_id.len(), 36);
}

#[test]
fn nothing_asked_for_means_no_sampling_options() {
    let request = pb::GenerateRequest {
        stopping: Some(pb::StoppingOptions::default()),
        ..Default::default()
    };
    let (private, _) = to_private_request_with_id(request, "mine".to_string()).unwrap();
    assert_eq!(private.sampling, None);
    assert_eq!(private.request_id, "mine");
    assert!(private.stream);
}

#[test]
fn canonical_requests_are_checked() {
    let message = |request: pb::GenerateRequest| to_private_request(request).unwrap_err().message;
    let sampling = |sampling: pb::SamplingParams| pb::GenerateRequest {
        sampling: Some(sampling),
        ..Default::default()
    };
    assert_eq!(
        message(sampling(pb::SamplingParams { num_sequences: Some(2), ..Default::default() })),
        "the vLLM Rust OpenEngine server currently supports num_sequences=1"
    );
    assert_eq!(
        message(sampling(pb::SamplingParams { seed: Some(1 << 63), ..Default::default() })),
        "sampling.seed exceeds i64::MAX"
    );
    let response = |response: pb::ResponseOptions| pb::GenerateRequest {
        response: Some(response),
        ..Default::default()
    };
    let selected = |selection: pb::Selection| {
        Some(pb::CandidateTokenSelection { selection: Some(selection) })
    };
    assert_eq!(
        message(response(pb::ResponseOptions {
            prompt_logprob_start: Some(1),
            ..Default::default()
        })),
        "prompt_logprob_start values other than zero are not supported"
    );
    assert_eq!(
        message(response(pb::ResponseOptions {
            return_output_logprobs: Some(false),
            output_candidates: selected(pb::Selection::TopN(1)),
            ..Default::default()
        })),
        "candidate selection cannot be set when logprobs are disabled"
    );
    assert_eq!(
        message(response(pb::ResponseOptions {
            output_candidates: selected(pb::Selection::TopN(1 << 31)),
            ..Default::default()
        })),
        "logprob top_n exceeds i32::MAX"
    );
    assert_eq!(
        message(response(pb::ResponseOptions {
            prompt_candidates: selected(pb::Selection::TokenIds(pb::TokenIds::default())),
            ..Default::default()
        })),
        "prompt token-id candidate selection is not supported"
    );
    let guided = |guide: Option<pb::Guide>, backend: &str| pb::GenerateRequest {
        guided: Some(pb::GuidedDecoding { guide, backend: backend.to_string() }),
        ..Default::default()
    };
    assert_eq!(message(guided(None, "")), "guided decoding must set exactly one guide");
    assert_eq!(
        message(guided(Some(pb::Guide::JsonObject(true)), "magic")),
        "unsupported guided decoding backend `magic`"
    );
    assert!(message(guided(Some(pb::Guide::JsonSchema("{".to_string())), ""))
        .starts_with("guided JSON schema is invalid: "));
}

#[test]
fn candidates_select_scores() {
    let scores = |enabled: Option<bool>, selection: Option<pb::Selection>| {
        let request = pb::GenerateRequest {
            response: Some(pb::ResponseOptions {
                return_output_logprobs: enabled,
                output_candidates: Some(pb::CandidateTokenSelection { selection }),
                ..Default::default()
            }),
            ..Default::default()
        };
        let (_, extensions) = to_private_request(request).unwrap();
        (extensions.logprobs, extensions.logprob_token_ids)
    };
    assert_eq!(scores(None, None), (None, None));
    assert_eq!(scores(Some(false), None), (None, None));
    assert_eq!(scores(Some(true), None), (Some(0), None));
    assert_eq!(scores(None, Some(pb::Selection::All(true))), (Some(-1), None));
    assert_eq!(
        scores(None, Some(pb::Selection::TokenIds(pb::TokenIds { ids: vec![4, 5] }))),
        (None, Some(vec![4, 5]))
    );
}

#[test]
fn guides_become_constraints() {
    let constraint = |guide: pb::Guide| {
        let request = pb::GenerateRequest {
            guided: Some(pb::GuidedDecoding { guide: Some(guide), backend: String::new() }),
            ..Default::default()
        };
        let (_, extensions) = to_private_request(request).unwrap();
        let structured = extensions.structured_outputs.unwrap();
        assert_eq!(structured.backend, Some(StructuredOutputBackend::Guidance));
        structured.constraint
    };
    assert_eq!(
        constraint(pb::Guide::JsonSchema("true".to_string())),
        StructuredOutputConstraint::Json(JsonValue::Bool(true))
    );
    assert_eq!(
        constraint(pb::Guide::Choice(pb::StringChoices { choices: vec!["a".to_string()] })),
        StructuredOutputConstraint::Choice(vec!["a".to_string()])
    );
    assert_eq!(
        constraint(pb::Guide::JsonObject(false)),
        StructuredOutputConstraint::JsonObject
    );
    assert_eq!(
        guide_schema(Err("oops".to_string())).unwrap_err().message,
        "guided JSON schema is invalid: oops"
    );
}

#[test]
fn canonical_token_event_preserves_selected_and_candidate_logprobs() {
    let event = DecodedTextEvent::TextDelta {
        delta: "x".to_string(),
        token_ids: vec![120],
        logprobs: Some(DecodedLogprobs {
            positions: vec![DecodedPositionLogprobs {
                entries: vec![entry(120, "x", -0.25, 1), entry(121, "y", -1.5, 2)],
            }],
        }),
        finished: None,
    };

    let responses =
        event_to_responses(event, "req-logprobs", private::EngineRole::Aggregated, None, 0);
    let Some(pb::Event::Token(output)) = responses[0].event.as_ref() else {
        panic!("expected token output");
    };
    assert_eq!(output.output_index, Some(0));
    assert_eq!(output.tokens.len(), 1);
    assert_eq!(output.tokens[0].token_id, 120);
    assert_eq!(output.tokens[0].logprob, Some(d(-0.25)));
    assert_eq!(output.tokens[0].candidates.len(), 2);
}

#[test]
fn canonical_single_token_without_logprobs_uses_decoded_delta() {
    let event = DecodedTextEvent::TextDelta {
        delta: "x".to_string(),
        token_ids: vec![120],
        logprobs: None,
        finished: None,
    };
    let responses =
        event_to_responses(event, "req-no-logprobs", private::EngineRole::Aggregated, None, 0);
    let Some(pb::Event::Token(output)) = responses[0].event.as_ref() else {
        panic!("expected token output");
    };
    assert_eq!(output.tokens[0].token, "x");
}

#[test]
fn canonical_prompt_event_marks_first_token_unscored() {
    let event = DecodedTextEvent::Start {
        prompt_token_ids: vec![112, 120],
        prompt_logprobs: Some(DecodedPromptLogprobs {
            first_token_id: 112,
            first_token: "p".to_string(),
            scored_positions: vec![DecodedPositionLogprobs {
                entries: vec![entry(120, "x", -0.4, 1)],
            }],
        }),
    };

    let responses =
        event_to_responses(event, "req-prompt", private::EngineRole::Aggregated, None, 0);
    let Some(pb::Event::Prompt(output)) = responses[0].event.as_ref() else {
        panic!("expected prompt output");
    };
    assert_eq!(output.tokens.len(), 2);
    assert_eq!(output.tokens[0].logprob, None);
    assert!(output.tokens[1]
        .logprob
        .is_some_and(|value| (f64::from_bits(value.bits) - -0.4).abs() < 1e-6));
}

#[test]
fn the_end_of_a_generation_tells_what_it_stopped_at() {
    let response = end(
        finished(FinishReason::Stop(Some(StopReason::Text("END".to_string()))), None),
        private::EngineRole::Aggregated,
    );
    let Some(pb::Event::Finished(event)) = response.event else {
        panic!("expected finished event");
    };
    assert_eq!(event.reason, pb::FinishReason::Stop);
    assert_eq!(event.stop_match, Some(pb::StopMatch::StopText("END".to_string())));
    assert_eq!(
        response.usage,
        Some(pb::Usage {
            prompt_tokens: 3,
            completion_tokens: 2,
            total_tokens: 5,
            cached_prompt_tokens: Some(1),
            reasoning_tokens: None,
        })
    );
    let failed = end(finished(FinishReason::Error, None), private::EngineRole::Decode);
    let Some(pb::Event::Error(error)) = failed.event else {
        panic!("expected error event");
    };
    assert_eq!(error.code, pb::ErrorCode::Internal);
    assert_eq!(error.message, "engine reported an internal generation error");
    assert!(error.retryable);
}

#[test]
fn a_prefill_hands_over_its_session_or_fails() {
    let params = JsonValue::Object(vec![("block".to_string(), JsonValue::Bool(true))]);
    let response = end(finished(FinishReason::Length, Some(params)), private::EngineRole::Prefill);
    let Some(pb::Event::PrefillReady(ready)) = response.event else {
        panic!("expected a session");
    };
    assert_eq!(
        ready.kv_session,
        Some(pb::KvSessionRef {
            session_id: "req".to_string(),
            transfer_backend: "nixl".to_string(),
            endpoints: Vec::new(),
            dp_rank: 3,
            attributes_struct: Some(vec![("block".to_string(), JsonValue::Bool(true))]),
        })
    );
    let message = |reason: FinishReason, params: Option<JsonValue>| {
        let response = end(finished(reason, params), private::EngineRole::Prefill);
        let Some(pb::Event::Error(error)) = response.event else {
            panic!("expected error event");
        };
        assert_eq!(error.code, pb::ErrorCode::KvTransferFailed);
        assert!(!error.retryable);
        error.message
    };
    assert_eq!(message(FinishReason::Abort, None), "prefill did not complete successfully");
    assert_eq!(
        message(FinishReason::Length, None),
        "prefill completed without KV transfer metadata"
    );
    assert_eq!(
        message(FinishReason::Length, Some(JsonValue::Object(Vec::new()))),
        "prefill returned invalid KV transfer metadata"
    );
    assert_eq!(
        message(FinishReason::Length, Some(JsonValue::Null)),
        "prefill returned invalid KV transfer metadata"
    );
}

#[test]
fn failed_generations_end_with_an_error() {
    let response = error_response("req", "boom".to_string());
    let Some(pb::Event::Error(error)) = response.event else {
        panic!("expected error event");
    };
    assert_eq!(error.message, "boom");
    assert!(error.retryable);
    assert_eq!(response.usage, None);
}

#[test]
fn canonical_openengine_discovers_and_generates() {
    let state = state();
    let engine = get_engine_info(
        &state,
        private::ParallelismInfo {
            tensor_parallel_size: 2,
            pipeline_parallel_size: 1,
            data_parallel_size: 4,
            data_parallel_rank: 0,
            data_parallel_start_rank: 0,
        },
        private::KvConnectorInfo {
            enabled: true,
            transfer_backend: "nixl".to_string(),
            local_endpoints: vec![private::KvEndpoint {
                host: "h".to_string(),
                port: 5,
                protocol: "tcp".to_string(),
            }],
            supported_protocols: vec!["tcp".to_string()],
            schema_version: 1,
        },
    );
    assert_eq!(engine.schema_revision, 1);
    assert_eq!(engine.minimum_client_revision, 1);
    assert!(!engine.schema_release.is_empty());
    assert_eq!(engine.supported_models, vec!["test-model", "alias"]);
    assert_eq!(engine.role, pb::EngineRole::Aggregated);
    let connector = engine.kv_connector.unwrap();
    assert_eq!(connector.local_endpoints[0].port, 5);
    assert_eq!(connector.supports_drain, Some(true));

    let model = get_model_info(&state, "test-model").unwrap();
    assert!(model.max_context_length.is_some_and(|length| length > 0));
    assert_eq!(model.served_model_aliases, vec!["alias"]);
    assert_eq!(model.tool_call_parser, "hermes");
    assert_eq!(model.reasoning_parser, "");
    let generation = model.generation.unwrap();
    assert!(generation.output_logprobs.as_ref().unwrap().supported.unwrap());
    let output_logprobs = generation.output_logprobs.unwrap();
    assert_eq!(output_logprobs.max_top_n, Some(20));
    assert!(output_logprobs
        .candidate_selection_modes
        .contains(&pb::CandidateTokenSelectionMode::TokenIds));
    assert!(!output_logprobs
        .candidate_selection_modes
        .contains(&pb::CandidateTokenSelectionMode::All));
    let prompt_logprobs = generation.prompt_logprobs.unwrap();
    assert_eq!(prompt_logprobs.max_top_n, Some(20));
    assert!(!prompt_logprobs
        .candidate_selection_modes
        .contains(&pb::CandidateTokenSelectionMode::TokenIds));
    assert_eq!(get_model_info(&state, "other").unwrap_err().code, Code::NotFound);

    let request = pb::GenerateRequest {
        request_id: "openengine-req".to_string(),
        model: "test-model".to_string(),
        input: Some(pb::Input::Prompt("hello".to_string())),
        stopping: Some(pb::StoppingOptions { max_tokens: Some(3), ..Default::default() }),
        response: Some(pb::ResponseOptions {
            return_output_logprobs: Some(true),
            output_candidates: Some(pb::CandidateTokenSelection {
                selection: Some(pb::Selection::TopN(2)),
            }),
            ..Default::default()
        }),
        kv: Some(pb::KvOptions {
            cache_salt: Some("tenant-a".to_string()),
            ..Default::default()
        }),
        priority: Some(7),
        ..Default::default()
    };
    let (private, extensions) = to_private_request(request).unwrap();
    let mut text = to_text_request(private, &state.served_model_names).unwrap();
    apply_extensions(&mut text, extensions);
    assert_eq!(text.sampling_params.logprobs, Some(2));
    assert_eq!(text.cache_salt.as_deref(), Some("tenant-a"));
    assert_eq!(text.priority, 7);

    let mut token_ids = Vec::new();
    let mut ended = false;
    for (i, byte) in b"hi!".iter().enumerate() {
        let event = DecodedTextEvent::TextDelta {
            delta: (*byte as char).to_string(),
            token_ids: vec![*byte as u32],
            logprobs: None,
            finished: if i == 2 { Some(finished(FinishReason::Length, None)) } else { None },
        };
        for response in event_to_responses(
            event,
            "openengine-req",
            private::EngineRole::Aggregated,
            None,
            0,
        ) {
            match response.event {
                Some(pb::Event::Token(output)) => {
                    token_ids.extend(output.tokens.into_iter().map(|token| token.token_id));
                }
                Some(pb::Event::Finished(_)) => ended = true,
                Some(pb::Event::Error(error)) => {
                    panic!("unexpected OpenEngine error: {}", error.message)
                }
                _ => {}
            }
        }
    }
    assert_eq!(token_ids, vec![b'h' as u32, b'i' as u32, b'!' as u32]);
    assert!(ended);
}

#[test]
fn per_rank_kv_blocks_uses_connected_engine_capacity() {
    let mut rank = ready();
    rank.num_gpu_blocks = 1_000;
    rank.data_parallel_size = 4;
    assert_eq!(per_rank_kv_blocks(&vec![rank.clone()]), 1_000);

    let mut smaller = rank.clone();
    smaller.num_gpu_blocks = 900;
    assert_eq!(per_rank_kv_blocks(&vec![rank, smaller]), 900);
    assert_eq!(per_rank_kv_blocks(&Vec::new()), 0);
}

#[test]
fn unlimited_scores_can_be_asked_for_in_full() {
    let output = output_logprob_capabilities(-1);
    assert_eq!(
        output.candidate_selection_modes,
        vec![
            pb::CandidateTokenSelectionMode::TopN,
            pb::CandidateTokenSelectionMode::TokenIds,
            pb::CandidateTokenSelectionMode::All,
        ]
    );
    assert_eq!(output.max_top_n, None);
    let prompt = prompt_logprob_capabilities(-1);
    assert_eq!(prompt.candidate_selection_modes.len(), 2);
}

#[test]
fn roles_are_those_of_the_connector() {
    let mut state = state();
    assert_eq!(private_role(&state), private::EngineRole::Aggregated);
    state.ready.kv_role = Some("kv_producer".to_string());
    assert_eq!(private_role(&state), private::EngineRole::Prefill);
    state.ready.kv_role = Some("kv_consumer".to_string());
    assert_eq!(canonical_role(private_role(&state)), pb::EngineRole::Decode);
    assert_eq!(
        canonical_role(private::EngineRole::Unspecified),
        pb::EngineRole::Unspecified
    );
}

#[test]
fn the_load_is_clamped_to_its_fields() {
    let info = get_load(&state(), 1 << 40, Some(1 << 100));
    assert_eq!(info.running_requests, Some(u32::MAX));
    assert_eq!(info.timestamp_unix_nanos, None);
    assert_eq!(info.total_kv_blocks, Some(100));
    assert_eq!(info.instance_id, "engine-1");
    assert_eq!(get_load(&state(), 5, Some(77)).timestamp_unix_nanos, Some(77));
}

#[test]
fn health_tells_of_another_role() {
    let found = || private::HealthResponse {
        state: 1,
        checks: vec![private::HealthCheck {
            name: "engine".to_string(),
            state: 1,
            message: String::new(),
        }],
    };
    let same = health(
        found(),
        WireRole::Known(pb::EngineRole::Decode),
        pb::EngineRole::Decode,
    );
    assert_eq!(same.state, pb::HealthState::Other(1));
    assert_eq!(same.checks.len(), 1);
    let unasked = health(
        found(),
        WireRole::Known(pb::EngineRole::Unspecified),
        pb::EngineRole::Decode,
    );
    assert_eq!(unasked, same);
    for requested in [WireRole::Known(pb::EngineRole::Prefill), WireRole::Unknown(9)] {
        let other = health(found(), requested, pb::EngineRole::Decode);
        assert_eq!(other.state, pb::HealthState::NotReady);
        assert_eq!(other.checks[1].name, "role");
    }
    assert_eq!(health_in_doubt(&ServiceStanding::default()), None);
}

#[test]
fn aborts_need_one_request() {
    assert_eq!(abort(None).unwrap_err().code, Code::InvalidArgument);
    assert_eq!(
        abort(Some(pb::AbortTarget::AllRequests(true))).unwrap_err().code,
        Code::Unimplemented
    );
    assert_eq!(abort(Some(pb::AbortTarget::RequestId("r".to_string()))).unwrap(), "r");
    let session = pb::KvSessionRef { session_id: "s".to_string(), ..Default::default() };
    assert_eq!(abort(Some(pb::AbortTarget::KvSession(session))).unwrap(), "s");
    assert_eq!(
        abort_answer(private::AbortStatus::NotFound, "m".to_string()),
        pb::AbortResponse { status: pb::AbortStatus::AlreadyFinished, message: "m".to_string() }
    );
    assert_eq!(
        abort_answer(private::AbortStatus::Aborted, String::new()).status,
        pb::AbortStatus::Aborted
    );
}

#[test]
fn drains_end_when_idle_or_overdue() {
    let mut standing = ServiceStanding {
        admission: AdmissionState { draining: false, in_flight: 2 },
        rl_indeterminate: false,
    };
    let request = pb::DrainRequest {
        stop_accepting_new_requests: true,
        deadline_ms: Some(10),
        abort_after_deadline: false,
    };
    let started = begin_drain(&mut standing, &request);
    assert_eq!(started.event, Some(pb::DrainEvent::State(pb::DrainState::Started)));
    assert_eq!(started.in_flight_requests, Some(2));
    assert!(standing.is_draining());
    assert_eq!(drain_step(2, false, false), DrainStep::Wait);
    let DrainStep::End(complete) = drain_step(0, true, false) else {
        panic!("expected an end");
    };
    assert_eq!(complete.event, Some(pb::DrainEvent::State(pb::DrainState::Complete)));
    for (abort_after, message) in [
        (false, "drain deadline elapsed"),
        (true, "drain deadline elapsed; abort-all is not supported"),
    ] {
        let DrainStep::End(overdue) = drain_step(2, true, abort_after) else {
            panic!("expected an end");
        };
        let Some(pb::DrainEvent::Error(error)) = overdue.event else {
            panic!("expected an error");
        };
        assert_eq!(error.code, pb::ErrorCode::Overloaded);
        assert_eq!(error.message, message);
    }
}

#[test]
fn adapters_keep_their_fields() {
    let adapter = pb::LoraAdapter {
        lora_id: 4,
        lora_name: "a".to_string(),
        source_path: "/p".to_string(),
    };
    assert_eq!(canonical_lora(private_lora(adapter.clone())), adapter);
    assert_eq!(canonical_loras(vec![private_lora(adapter.clone())]), vec![adapter]);
}

#[test]
fn event_sources_are_filtered_by_rank() {
    let source = |rank: u32| private::KvEventSource {
        transport: "zmq".to_string(),
        endpoint_addr: None,
        topic: String::new(),
        replay_endpoint: String::new(),
        data_parallel_rank: rank,
        encoding: "msgpack".to_string(),
        schema_version: 1,
        buffer_steps: 0,
        hwm: 0,
        max_queue_size: 0,
    };
    let ranks = |requested: Vec<u32>| {
        get_kv_event_sources(vec![source(0), source(1), source(2)], &requested)
            .into_iter()
            .map(|source| source.data_parallel_rank.unwrap())
            .collect::<Vec<_>>()
    };
    assert_eq!(ranks(Vec::new()), vec![0, 1, 2]);
    assert_eq!(ranks(vec![2, 0]), vec![0, 2]);
}

#[test]
fn event_streams_are_not_offered() {
    assert_eq!(subscribe_kv_events::<()>().unwrap_err().code, Code::Unimplemented);
    assert_eq!(
        subscribe_runtime_events::<()>().unwrap_err().message,
        "runtime event streaming is not implemented"
    );
}
