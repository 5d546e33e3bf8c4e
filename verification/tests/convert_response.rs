use engine_gateway::engine::{WireArrayData, WireTensor};
use engine_gateway::generation::{
    DecodedLogprobs, DecodedPositionLogprobs, DecodedPromptLogprobs, DecodedTokenLogprob,
    FinishReason, Finished, StopReason, TokenUsage,
};
use engine_gateway::grpc::convert::response::{
    to_finish_info, to_prompt_info, to_sequence_output, ResponseOpts,
};
use engine_gateway::grpc::pb;
use engine_gateway::json::JsonValue;
use engine_gateway::numbers::Float32;

fn f(value: f32) -> Float32 {
    Float32 { bits: value.to_bits(), widened: (value as f64).to_bits() }
}

fn finished(reason: FinishReason) -> Finished {
    Finished {
        usage: TokenUsage { prompt_token_count: 0, output_token_count: 0, cached_token_count: 0 },
        finish_reason: reason,
        kv_transfer_params: None,
        routed_experts: None,
    }
}

fn entry(token_id: u32, token: &str, logprob: f32, rank: u32) -> DecodedTokenLogprob {
    DecodedTokenLogprob { token_id, token: token.to_string(), logprob: f(logprob), rank }
}

#[test]
fn eos_stop_reports_last_output_token_as_eos_id() {
    let fin = finished(FinishReason::Stop(None));
    let token_ids = [1_u32, 2, 3, 151643];

    let info = to_finish_info(&fin, &token_ids);

    assert_eq!(info.finish_reason, pb::FinishReason::Stop);
    assert_eq!(info.stop_reason, Some(pb::StopReason::EosTokenId(151643)));
}

#[test]
fn eos_stop_with_empty_token_ids_leaves_stop_reason_unset() {
    let fin = finished(FinishReason::Stop(None));

    let info = to_finish_info(&fin, &[]);

    assert_eq!(info.finish_reason, pb::FinishReason::Stop);
    assert_eq!(info.stop_reason, None);
}

#[test]
fn explicit_stop_token_id_is_preserved() {
    let fin = finished(FinishReason::Stop(Some(StopReason::TokenId(42))));
    let info = to_finish_info(&fin, &[7, 42]);

    assert_eq!(info.finish_reason, pb::FinishReason::Stop);
    assert_eq!(info.stop_reason, Some(pb::StopReason::StopTokenId(42)));
}

#[test]
fn explicit_stop_string_is_preserved() {
    let fin = finished(FinishReason::Stop(Some(StopReason::Text("</stop>".into()))));

    let info = to_finish_info(&fin, &[1, 2, 3]);

    assert_eq!(info.finish_reason, pb::FinishReason::Stop);
    assert_eq!(info.stop_reason, Some(pb::StopReason::StopString("</stop>".into())));
}

#[test]
fn length_finish_has_no_stop_reason() {
    let fin = finished(FinishReason::Length);

    let info = to_finish_info(&fin, &[1, 2, 3]);

    assert_eq!(info.finish_reason, pb::FinishReason::Length);
    assert_eq!(info.stop_reason, None);
}

#[test]
fn abort_finish_is_mapped_to_aborted() {
    let fin = finished(FinishReason::Abort);

    let info = to_finish_info(&fin, &[]);

    assert_eq!(info.finish_reason, pb::FinishReason::Aborted);
    assert_eq!(info.stop_reason, None);
}

#[test]
fn error_and_repetition_finish_are_mapped_to_aborted() {
    for reason in [
        FinishReason::Error,
        FinishReason::Repetition(Some(StopReason::TokenId(3))),
    ] {
        let info = to_finish_info(&finished(reason), &[1]);
        assert_eq!(info.finish_reason, pb::FinishReason::Aborted);
        assert_eq!(info.stop_reason, None);
    }
}

#[test]
fn only_objects_are_carried_as_transfer_params() {
    let mut fin = finished(FinishReason::Length);
    fin.kv_transfer_params =
        Some(JsonValue::Object(vec![("peer".to_string(), JsonValue::Array(vec![JsonValue::Null]))]));
    assert_eq!(
        to_finish_info(&fin, &[]).kv_transfer_params,
        Some(vec![("peer".to_string(), JsonValue::Array(vec![JsonValue::Null]))])
    );
    fin.kv_transfer_params = Some(JsonValue::Bool(true));
    assert_eq!(to_finish_info(&fin, &[]).kv_transfer_params, None);
}

#[test]
fn to_sequence_output_threads_token_ids_into_eos_id() {
    let fin = finished(FinishReason::Stop(None));
    let opts = ResponseOpts { output_text: true, output_token_ids: true, ..Default::default() };

    let out = to_sequence_output("hello", &[10, 20, 30], None, Some(&fin), &opts);

    let finish = out.finish_info.expect("finish_info should be present");
    assert_eq!(finish.finish_reason, pb::FinishReason::Stop);
    assert_eq!(finish.stop_reason, Some(pb::StopReason::EosTokenId(30)));
}

#[test]
fn to_sequence_output_emits_typed_routed_experts() {
    let mut fin = finished(FinishReason::Length);
    fin.routed_experts = Some(WireTensor {
        dtype: "|u1".to_string(),
        shape: vec![1, 2, 2],
        data: WireArrayData::RawView(vec![1, 2, 3, 4]),
    });

    let output = to_sequence_output("", &[], None, Some(&fin), &ResponseOpts::default());
    let routed = output.routed_experts.unwrap();
    assert_eq!(routed.dtype, "|u1");
    assert_eq!(routed.shape, vec![1, 2, 2]);
    assert_eq!(routed.data, vec![1, 2, 3, 4]);
}

#[test]
fn output_logprobs_do_not_repeat_the_sampled_token_as_a_candidate() {
    let logprobs = DecodedLogprobs {
        positions: vec![DecodedPositionLogprobs {
            entries: vec![
                entry(42, "sampled", -0.1, 1),
                entry(42, "sampled", -0.1, 1),
                entry(7, "alternate", -1.2, 2),
            ],
        }],
    };
    let opts =
        ResponseOpts { output_token_ids: true, output_logprobs: true, ..Default::default() };

    let output = to_sequence_output("sampled", &[42], Some(&logprobs), None, &opts);

    assert_eq!(output.logprobs, vec![f(-0.1)]);
    assert_eq!(output.ranks, vec![1]);
    assert_eq!(output.candidate_tokens.len(), 1);
    assert_eq!(
        output.candidate_tokens[0].tokens.iter().map(|candidate| candidate.id).collect::<Vec<_>>(),
        vec![7]
    );
}

#[test]
fn positions_without_entries_are_given_zeros() {
    let logprobs = DecodedLogprobs {
        positions: vec![
            DecodedPositionLogprobs { entries: Vec::new() },
            DecodedPositionLogprobs { entries: vec![entry(1, "a", -0.5, 3)] },
        ],
    };
    let opts = ResponseOpts { output_logprobs: true, ..Default::default() };
    let output = to_sequence_output("", &[9, 1], Some(&logprobs), None, &opts);
    assert_eq!(output.logprobs, vec![f(0.0), f(-0.5)]);
    assert_eq!(output.ranks, vec![0, 3]);
    assert_eq!(output.candidate_tokens.len(), 2);
    assert_eq!(output.num_tokens, 2);
    assert_eq!(output.token_ids, Vec::<u32>::new());
}

#[test]
fn prompt_scores_start_with_zeros() {
    let prompt = DecodedPromptLogprobs {
        first_token_id: 1,
        first_token: "a".to_string(),
        scored_positions: vec![DecodedPositionLogprobs {
            entries: vec![entry(2, "b", -0.5, 1), entry(3, "c", -1.0, 2)],
        }],
    };
    let opts =
        ResponseOpts { prompt_token_ids: true, prompt_logprobs: true, ..Default::default() };
    let info = to_prompt_info(&[1, 2], Some(&prompt), &opts);
    assert_eq!(info.num_prompt_tokens, 2);
    assert_eq!(info.token_ids, vec![1, 2]);
    assert_eq!(info.logprobs, vec![f(0.0), f(-0.5)]);
    assert_eq!(info.ranks, vec![0, 1]);
    assert_eq!(
        info.candidate_tokens[1].tokens,
        vec![pb::TokenInfo { id: 3, logprob: f(-1.0), rank: 2 }]
    );
    let bare = to_prompt_info(&[1, 2], Some(&prompt), &ResponseOpts::default());
    assert_eq!(bare.token_ids, Vec::<u32>::new());
    assert_eq!(bare.logprobs, Vec::new());
}

#[test]
fn text_is_sent_unless_it_is_declined() {
    assert!(ResponseOpts::from_proto(None).output_text);
    assert!(ResponseOpts::from_proto(Some(&pb::ResponseOptions::default())).output_text);
    let declined = pb::ResponseOptions {
        output_text: Some(false),
        output_logprobs: true,
        ..Default::default()
    };
    let opts = ResponseOpts::from_proto(Some(&declined));
    assert!(!opts.output_text);
    assert!(opts.output_logprobs);
    assert_eq!(to_sequence_output("x", &[1], None, None, &opts).text, "");
}
