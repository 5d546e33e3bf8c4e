use engine_gateway::engine::StructuredOutputConstraint;
use engine_gateway::generation::Prompt;
use engine_gateway::grpc::convert::multimodal::media_parts_from_request;
use engine_gateway::grpc::convert::request::{
    mark_prefill_request, role_from_kv_role, to_text_request, to_text_request_with_id,
    validate_disaggregated_request, KvRole,
};
use engine_gateway::grpc::convert::sampling::{build_sampling_params, json_constraint};
use engine_gateway::grpc::convert::xargs::{parse_vllm_xargs_json, xargs_from_parsed};
use engine_gateway::engine::MediaContentPart;
use engine_gateway::grpc::pb;
use engine_gateway::json::{JsonNumber, JsonValue};
use engine_gateway::numbers::Float32;
use engine_gateway::status::Code;

fn f(value: f32) -> Float32 {
    Float32 { bits: value.to_bits(), widened: (value as f64).to_bits() }
}

fn names() -> Vec<String> {
    vec!["test-model".to_string()]
}

fn base_request() -> pb::GenerateRequest {
    pb::GenerateRequest {
        request_id: "req".to_string(),
        model: "test-model".to_string(),
        prompt: Some(pb::PromptInput::Text("hi".to_string())),
        ..Default::default()
    }
}

fn token_prompt(ids: Vec<u32>) -> Option<pb::PromptInput> {
    Some(pb::PromptInput::TokenIds(pb::TokenIds { ids }))
}

fn member<'a>(members: &'a Vec<(String, JsonValue)>, name: &str) -> &'a JsonValue {
    &members.iter().find(|member| member.0 == name).unwrap().1
}

#[test]
fn media_requires_a_source() {
    let error = media_parts_from_request(&vec![pb::MediaItem {
        modality: pb::WireModality::Known(pb::Modality::Image),
        ..Default::default()
    }])
    .unwrap_err();
    assert_eq!(error.code, Code::InvalidArgument);
}

#[test]
fn media_rejects_unsupported_modalities() {
    let error = media_parts_from_request(&vec![pb::MediaItem {
        modality: pb::WireModality::Known(pb::Modality::Audio),
        source: Some(pb::MediaSource::Url("https://example.test/a.wav".into())),
        ..Default::default()
    }])
    .unwrap_err();
    assert_eq!(error.code, Code::Unimplemented);
    assert_eq!(
        error.message,
        "media modality Audio is not supported by the gRPC service"
    );
}

#[test]
fn further_modalities_are_refused_by_their_name() {
    let error = media_parts_from_request(&vec![pb::MediaItem {
        modality: pb::WireModality::Known(pb::Modality::Other("Video".into())),
        source: Some(pb::MediaSource::Url("https://example.test/a.mp4".into())),
        ..Default::default()
    }])
    .unwrap_err();
    assert_eq!(error.code, Code::Unimplemented);
    assert_eq!(
        error.message,
        "media modality Video is not supported by the gRPC service"
    );
}

#[test]
fn media_of_an_unknown_modality_is_refused_by_its_number() {
    let error = media_parts_from_request(&vec![pb::MediaItem {
        modality: pb::WireModality::Unknown(-17),
        source: Some(pb::MediaSource::Url("https://example.test/a".into())),
        ..Default::default()
    }])
    .unwrap_err();
    assert_eq!(error.code, Code::InvalidArgument);
    assert_eq!(error.message, "unknown media modality -17");
}

#[test]
fn media_parts_carry_what_the_items_give() {
    let parts = media_parts_from_request(&vec![
        pb::MediaItem {
            source: Some(pb::MediaSource::DataUri("data:image/png;base64,AA==".into())),
            uuid: "u-1".to_string(),
            ..Default::default()
        },
        pb::MediaItem {
            modality: pb::WireModality::Known(pb::Modality::Image),
            source: Some(pb::MediaSource::RawBytes(vec![1, 2, 3])),
            mime_type: "image/png".to_string(),
            ..Default::default()
        },
    ])
    .unwrap();
    assert_eq!(
        parts,
        vec![
            MediaContentPart::ImageUrl {
                url: "data:image/png;base64,AA==".to_string(),
                detail: None,
                uuid: Some("u-1".to_string()),
            },
            MediaContentPart::ImageData {
                data: vec![1, 2, 3],
                mime_type: Some("image/png".to_string()),
                uuid: None,
                detail: None,
            },
        ]
    );
}

#[test]
fn decode_requires_kv_transfer_params() {
    let error = validate_disaggregated_request(&base_request(), KvRole::Decode).unwrap_err();
    assert_eq!(error.code, Code::InvalidArgument);
}

#[test]
fn decode_accepts_kv_transfer_params_and_other_roles_need_none() {
    let request = pb::GenerateRequest {
        kv: Some(pb::KvCacheParameters {
            kv_transfer_params: Some(vec![("peer".to_string(), JsonValue::Bool(true))]),
            ..Default::default()
        }),
        ..base_request()
    };
    assert!(validate_disaggregated_request(&request, KvRole::Decode).is_ok());
    assert!(validate_disaggregated_request(&base_request(), KvRole::Prefill).is_ok());
    assert!(validate_disaggregated_request(&base_request(), KvRole::Aggregated).is_ok());
    let empty = pb::GenerateRequest {
        kv: Some(pb::KvCacheParameters {
            kv_transfer_params: Some(Vec::new()),
            ..Default::default()
        }),
        ..base_request()
    };
    assert!(validate_disaggregated_request(&empty, KvRole::Decode).is_err());
}

#[test]
fn roles_follow_the_connector() {
    assert_eq!(role_from_kv_role(Some("kv_producer")), KvRole::Prefill);
    assert_eq!(role_from_kv_role(Some("kv_consumer")), KvRole::Decode);
    assert_eq!(role_from_kv_role(Some("kv_both")), KvRole::Aggregated);
    assert_eq!(role_from_kv_role(None), KvRole::Aggregated);
}

#[test]
fn prefill_marks_remote_decode() {
    let mut text = to_text_request(base_request(), Vec::new(), false, &names()).unwrap();
    mark_prefill_request(&mut text);
    let xargs = text.sampling_params.vllm_xargs.as_ref().unwrap();
    let JsonValue::Object(params) = member(xargs, "kv_transfer_params") else {
        panic!("expected an object");
    };
    assert_eq!(member(params, "do_remote_decode"), &JsonValue::Bool(true));
}

#[test]
fn marking_twice_is_marking_once() {
    let mut text = to_text_request(base_request(), Vec::new(), false, &names()).unwrap();
    mark_prefill_request(&mut text);
    let mut again = to_text_request(base_request(), Vec::new(), false, &names()).unwrap();
    mark_prefill_request(&mut again);
    mark_prefill_request(&mut again);
    assert_eq!(text, again);
}

#[test]
fn marking_keeps_the_other_transfer_params() {
    let request = pb::GenerateRequest {
        kv: Some(pb::KvCacheParameters {
            kv_transfer_params: Some(vec![("peer".to_string(), JsonValue::String("a".into()))]),
            ..Default::default()
        }),
        vllm_xargs_json: Some(br#"{"first":true}"#.to_vec()),
        ..base_request()
    };
    let mut text = to_text_request(request, Vec::new(), false, &names()).unwrap();
    mark_prefill_request(&mut text);
    assert_eq!(
        text.sampling_params.vllm_xargs,
        Some(vec![
            ("first".to_string(), JsonValue::Bool(true)),
            (
                "kv_transfer_params".to_string(),
                JsonValue::Object(vec![
                    ("peer".to_string(), JsonValue::String("a".into())),
                    ("do_remote_decode".to_string(), JsonValue::Bool(true)),
                ])
            ),
        ])
    );
}

#[test]
fn temperature_propagates_from_top_level_request_field() {
    let req = pb::GenerateRequest { temperature: Some(f(0.7)), ..base_request() };
    let text = to_text_request(req, Vec::new(), false, &names()).expect("convert ok");
    assert_eq!(text.sampling_params.temperature, Some(f(0.7)));
}

#[test]
fn unset_temperature_defaults_to_greedy() {
    let text = to_text_request(base_request(), Vec::new(), false, &names()).expect("convert ok");
    assert_eq!(text.sampling_params.temperature, Some(f(0.0)));
}

#[test]
fn absent_seed_is_none() {
    let req = pb::GenerateRequest {
        sampling: Some(pb::RandomSampling { seed: None, ..Default::default() }),
        ..base_request()
    };
    let text = to_text_request(req, Vec::new(), false, &names()).expect("convert ok");
    assert_eq!(text.sampling_params.seed, None);
}

#[test]
fn routed_experts_prompt_start_reaches_text_sampling_params() {
    let req = pb::GenerateRequest {
        prompt: token_prompt(vec![1, 2]),
        routed_experts_prompt_start: 1,
        ..base_request()
    };
    let text = to_text_request(req, Vec::new(), false, &names()).unwrap();
    assert_eq!(text.sampling_params.routed_experts_prompt_start, 1);
}

#[test]
fn routed_experts_prompt_start_rejects_unverifiable_or_out_of_range_values() {
    let text_prompt = pb::GenerateRequest { routed_experts_prompt_start: 1, ..base_request() };
    assert!(to_text_request(text_prompt, Vec::new(), false, &names()).is_err());

    let token_prompt = pb::GenerateRequest {
        prompt: token_prompt(vec![1, 2]),
        routed_experts_prompt_start: 2,
        ..base_request()
    };
    assert!(to_text_request(token_prompt, Vec::new(), false, &names()).is_err());
}

#[test]
fn zero_seed_is_valid() {
    let req = pb::GenerateRequest {
        sampling: Some(pb::RandomSampling { seed: Some(0), ..Default::default() }),
        ..base_request()
    };
    let text = to_text_request(req, Vec::new(), false, &names()).expect("convert ok");
    assert_eq!(text.sampling_params.seed, Some(0));
}

#[test]
fn bypass_prefix_cache_maps_to_skip_reading_prefix_cache() {
    let req = pb::GenerateRequest {
        kv: Some(pb::KvCacheParameters { bypass_prefix_cache: true, ..Default::default() }),
        ..base_request()
    };
    let text = to_text_request(req, Vec::new(), false, &names()).expect("convert ok");
    assert_eq!(text.sampling_params.skip_reading_prefix_cache, Some(true));
}

#[test]
fn bypass_prefix_cache_false_leaves_field_unset() {
    let req = pb::GenerateRequest {
        kv: Some(pb::KvCacheParameters { bypass_prefix_cache: false, ..Default::default() }),
        ..base_request()
    };
    let text = to_text_request(req, Vec::new(), false, &names()).expect("convert ok");
    assert_eq!(text.sampling_params.skip_reading_prefix_cache, None);
    assert!(matches!(text.prompt, Prompt::Text(s) if s == "hi"));
}

#[test]
fn extended_sampling_fields_reach_text_request_losslessly() {
    let req = pb::GenerateRequest {
        prompt: token_prompt(vec![1, 2, 3]),
        sampling: Some(pb::RandomSampling {
            top_k: Some(-1),
            top_p: Some(f(0.0)),
            min_p: Some(f(0.0)),
            ..Default::default()
        }),
        decoding: Some(pb::DecodingParameters {
            presence_penalty: Some(f(0.0)),
            frequency_penalty: Some(f(0.0)),
            repetition_penalty: Some(f(0.0)),
            logit_bias: [(7, f(-1.25))].into_iter().collect(),
            allowed_token_ids: vec![7, 8],
            bad_words: vec!["blocked".to_string()],
            structured_output: Some(pb::StructuredOutput::Regex("[a-z]+".to_string())),
            structured_output_disable_any_whitespace: true,
            structured_output_disable_additional_properties: true,
            structured_output_whitespace_pattern: Some("\\s*".to_string()),
        }),
        stopping: Some(pb::StoppingCriteria {
            thinking_token_budget: Some(64),
            ..Default::default()
        }),
        response: Some(pb::ResponseOptions {
            output_logprobs: true,
            output_candidates: Some(pb::CandidateTokens {
                select: Some(pb::CandidateSelect::TokenIds(pb::TokenIds { ids: vec![7, 8] })),
            }),
            ..Default::default()
        }),
        vllm_xargs_json: Some(br#"{"custom_integer":9007199254740993}"#.to_vec()),
        ..base_request()
    };

    let text = to_text_request(req, Vec::new(), false, &names()).unwrap();

    assert_eq!(text.sampling_params.top_k, Some(0));
    assert_eq!(text.sampling_params.top_p, Some(f(0.0)));
    assert_eq!(text.sampling_params.min_p, Some(f(0.0)));
    assert_eq!(text.sampling_params.presence_penalty, Some(f(0.0)));
    assert_eq!(text.sampling_params.frequency_penalty, Some(f(0.0)));
    assert_eq!(text.sampling_params.repetition_penalty, Some(f(0.0)));
    assert_eq!(text.sampling_params.thinking_token_budget, Some(64));
    assert_eq!(text.sampling_params.logit_bias.as_ref().unwrap()[&7], f(-1.25));
    assert_eq!(text.sampling_params.allowed_token_ids, Some(vec![7, 8]));
    assert_eq!(text.sampling_params.bad_words, Some(vec!["blocked".to_string()]));
    assert_eq!(text.sampling_params.logprobs, Some(2));
    assert_eq!(text.sampling_params.logprob_token_ids, Some(vec![7, 8]));
    let structured = text.sampling_params.structured_outputs.unwrap();
    assert_eq!(
        structured.constraint,
        StructuredOutputConstraint::Regex("[a-z]+".to_string())
    );
    assert!(structured.options.disable_any_whitespace);
    assert!(structured.options.disable_additional_properties);
    assert_eq!(structured.options.whitespace_pattern.as_deref(), Some("\\s*"));
    let xargs = text.sampling_params.vllm_xargs.as_ref().unwrap();
    let JsonValue::Number(number) = member(xargs, "custom_integer") else {
        panic!("expected a number");
    };
    assert_eq!(number.unsigned, Some(9_007_199_254_740_993_u64));
}

#[test]
fn vllm_xargs_reject_reserved_kv_control() {
    let req = pb::GenerateRequest {
        vllm_xargs_json: Some(br#"{"kv_transfer_params":{}}"#.to_vec()),
        ..base_request()
    };
    let error = to_text_request(req, Vec::new(), false, &names()).unwrap_err();
    assert_eq!(error.code, Code::InvalidArgument);
}

#[test]
fn xargs_are_parsed_in_full() {
    let xargs = parse_vllm_xargs_json(br#"{"a":[null,-1,"x",{"b":2.5}]}"#).unwrap();
    assert_eq!(xargs.len(), 1);
    assert_eq!(xargs[0].0, "a");
    let JsonValue::Array(items) = &xargs[0].1 else {
        panic!("expected an array");
    };
    assert_eq!(items[0], JsonValue::Null);
    assert_eq!(
        items[1],
        JsonValue::Number(JsonNumber {
            unsigned: None,
            signed: Some(-1),
            double_bits: Some((-1.0f64).to_bits()),
        })
    );
    assert_eq!(items[2], JsonValue::String("x".to_string()));
    assert_eq!(
        items[3],
        JsonValue::Object(vec![(
            "b".to_string(),
            JsonValue::Number(JsonNumber {
                unsigned: None,
                signed: None,
                double_bits: Some(2.5f64.to_bits()),
            })
        )])
    );
}

#[test]
fn xargs_limits_are_enforced() {
    let code = |raw: &[u8]| parse_vllm_xargs_json(raw).unwrap_err().code;
    assert_eq!(code(&vec![b' '; 65_537]), Code::ResourceExhausted);
    assert_eq!(code(b"[]"), Code::InvalidArgument);
    let error = parse_vllm_xargs_json(b"{").unwrap_err();
    assert_eq!(error.code, Code::InvalidArgument);
    assert!(error.message.starts_with("vllm_xargs_json must be a JSON object: "));

    let keys = |n: usize| {
        let members: Vec<String> = (0..n).map(|i| format!("\"k{i}\":0")).collect();
        format!("{{{}}}", members.join(","))
    };
    assert!(parse_vllm_xargs_json(keys(64).as_bytes()).is_ok());
    assert_eq!(code(keys(65).as_bytes()), Code::ResourceExhausted);

    let nested = |n: usize| format!("{{\"a\":{}{}}}", "[".repeat(n), "]".repeat(n));
    assert!(parse_vllm_xargs_json(nested(16).as_bytes()).is_ok());
    assert_eq!(code(nested(17).as_bytes()), Code::ResourceExhausted);

    let values = |n: usize| format!("{{\"a\":[{}]}}", vec!["0"; n].join(","));
    assert!(parse_vllm_xargs_json(values(1022).as_bytes()).is_ok());
    assert_eq!(code(values(1023).as_bytes()), Code::ResourceExhausted);

    let key = |n: usize| format!("{{\"a\":{{\"{}\":0}}}}", "k".repeat(n));
    assert!(parse_vllm_xargs_json(key(256).as_bytes()).is_ok());
    assert_eq!(code(key(257).as_bytes()), Code::ResourceExhausted);
}

#[test]
fn parsed_xargs_are_taken_as_they_are() {
    let members = vec![("seed".to_string(), JsonValue::Bool(true))];
    let taken = xargs_from_parsed(Ok(JsonValue::Object(members))).unwrap();
    assert_eq!(taken, vec![("seed".to_string(), JsonValue::Bool(true))]);
    assert_eq!(
        xargs_from_parsed(Err("line 1".to_string())).unwrap_err().message,
        "vllm_xargs_json must be a JSON object: line 1"
    );
}

#[test]
fn a_request_without_an_id_gets_a_fresh_one() {
    let request = || pb::GenerateRequest { request_id: String::new(), ..base_request() };
    let first = to_text_request(request(), Vec::new(), true, &names()).unwrap();
    let second = to_text_request(request(), Vec::new(), true, &names()).unwrap();
    assert_eq!(first.request_id.len(), 36);
    assert_eq!(first.request_id.as_bytes()[14], b'4');
    assert_ne!(first.request_id, second.request_id);
    assert!(first.intermediate);
    let given =
        to_text_request_with_id(request(), "mine".to_string(), Vec::new(), false, &names()).unwrap();
    assert_eq!(given.request_id, "mine");
}

#[test]
fn refusals_come_in_order() {
    let message = |req: pb::GenerateRequest| {
        to_text_request(req, Vec::new(), false, &names()).unwrap_err().message
    };
    assert_eq!(
        message(pb::GenerateRequest {
            model: "other".to_string(),
            truncate_prompt_tokens: 1,
            ..base_request()
        }),
        "model `other` not found"
    );
    assert_eq!(
        message(pb::GenerateRequest { truncate_prompt_tokens: 1, ..base_request() }),
        "truncate_prompt_tokens is not supported"
    );
    assert_eq!(
        message(pb::GenerateRequest {
            media: vec![pb::MediaItem::default()],
            mm_features: vec![pb::PreprocessedMultimodalFeature::default()],
            ..base_request()
        }),
        "media and mm_features are mutually exclusive"
    );
    assert_eq!(
        message(pb::GenerateRequest { prompt: None, ..base_request() }),
        "prompt is required"
    );
}

#[test]
fn sampling_options_are_checked() {
    let sampling = |top_k: i64, num_sequences: u32| {
        build_sampling_params(
            None,
            Some(&pb::RandomSampling {
                top_k: Some(top_k),
                num_sequences,
                ..Default::default()
            }),
            None,
            None,
            None,
        )
    };
    assert_eq!(sampling(5, 1).unwrap().top_k, Some(5));
    assert_eq!(sampling(0, 0).unwrap().top_k, Some(0));
    assert_eq!(sampling(5, 2).unwrap_err().message, "num_sequences > 1 is not supported");
    assert_eq!(sampling(-2, 1).unwrap_err().message, "top_k must be at least -1");
    assert_eq!(sampling(4_294_967_296, 1).unwrap_err().message, "top_k exceeds uint32");
    assert_eq!(sampling(4_294_967_295, 1).unwrap().top_k, Some(u32::MAX));
}

#[test]
fn candidates_decide_how_many_scores_are_asked_for() {
    let scores = |select: Option<pb::CandidateSelect>| {
        let params = build_sampling_params(
            None,
            None,
            None,
            None,
            Some(&pb::ResponseOptions {
                output_logprobs: true,
                prompt_logprobs: true,
                output_candidates: Some(pb::CandidateTokens { select }),
                prompt_candidates: None,
                ..Default::default()
            }),
        )
        .unwrap();
        (params.logprobs, params.logprob_token_ids, params.prompt_logprobs)
    };
    assert_eq!(scores(None), (Some(1), None, Some(1)));
    assert_eq!(scores(Some(pb::CandidateSelect::TopN(5))), (Some(5), None, Some(1)));
    assert_eq!(scores(Some(pb::CandidateSelect::TopN(u32::MAX))), (Some(-1), None, Some(1)));
    assert_eq!(scores(Some(pb::CandidateSelect::All(true))), (Some(-1), None, Some(1)));
    assert_eq!(scores(Some(pb::CandidateSelect::All(false))), (Some(1), None, Some(1)));
    let error = build_sampling_params(
        None,
        None,
        None,
        None,
        Some(&pb::ResponseOptions {
            prompt_logprobs: true,
            prompt_candidates: Some(pb::CandidateTokens {
                select: Some(pb::CandidateSelect::TokenIds(pb::TokenIds { ids: vec![1] })),
            }),
            ..Default::default()
        }),
    )
    .unwrap_err();
    assert_eq!(error.message, "prompt_candidates token_ids selector is not supported");
}

#[test]
fn json_schemas_are_parsed() {
    let decoding = |schema: &str| pb::DecodingParameters {
        structured_output: Some(pb::StructuredOutput::Json(schema.to_string())),
        ..Default::default()
    };
    let params = build_sampling_params(None, None, Some(&decoding("{\"a\":[1]}")), None, None);
    let StructuredOutputConstraint::Json(JsonValue::Object(members)) =
        params.unwrap().structured_outputs.unwrap().constraint
    else {
        panic!("expected a schema");
    };
    assert_eq!(members[0].0, "a");
    let error =
        build_sampling_params(None, None, Some(&decoding("{")), None, None).unwrap_err();
    assert!(error.message.starts_with("invalid json schema: "));
    assert_eq!(
        json_constraint(Ok(JsonValue::Null)).unwrap(),
        StructuredOutputConstraint::Json(JsonValue::Null)
    );
    let off = pb::DecodingParameters {
        structured_output: Some(pb::StructuredOutput::JsonObject(false)),
        ..Default::default()
    };
    let params = build_sampling_params(None, None, Some(&off), None, None).unwrap();
    assert_eq!(params.structured_outputs, None);
}
