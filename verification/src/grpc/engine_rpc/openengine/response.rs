//! Responses of the OpenEngine service.

use super::pb;
use crate::generation::{
    DecodedLogprobs, DecodedPositionLogprobs, DecodedPromptLogprobs, DecodedTextEvent,
    DecodedTokenLogprob, FinishReason, Finished, StopReason,
};
use crate::grpc::convert::response::json_object_fields;
use crate::grpc::engine_rpc::pb as private;
use crate::json::{members_of, Json, JsonValue};
use crate::numbers::Float64;
use crate::text::no_text;
use vstd::prelude::*;

verus! {

// What the messages say.

pub struct LogProbView {
    pub token_id: u32,
    pub logprob: Float64,
    pub token: Seq<char>,
    pub rank: Option<u32>,
}

pub struct TokenView {
    pub token_id: u32,
    pub token: Seq<char>,
    pub logprob: Option<Float64>,
    pub rank: Option<u32>,
    pub candidates: Seq<LogProbView>,
}

pub struct SessionView {
    pub session_id: Seq<char>,
    pub transfer_backend: Seq<char>,
    pub endpoints: nat,
    pub dp_rank: u32,
    pub attributes: Option<Seq<(Seq<char>, Json)>>,
}

pub enum EventView {
    Prompt { tokens: Seq<TokenView> },
    Token { output_index: Option<u32>, tokens: Seq<TokenView>, text: Seq<char> },
    PrefillReady { kv_session: Option<SessionView> },
    Finished {
        output_index: Option<u32>,
        reason: pb::FinishReason,
        message: Seq<char>,
        stop_match: Option<pb::StopMatch>,
    },
    Error { code: pb::ErrorCode, message: Seq<char>, retryable: bool },
}

pub struct ResponseView {
    pub request_id: Seq<char>,
    pub event: Option<EventView>,
    pub usage: Option<pb::Usage>,
}

pub open spec fn log_prob_view(log_prob: pb::LogProb) -> LogProbView {
    LogProbView {
        token_id: log_prob.token_id,
        logprob: log_prob.logprob,
        token: log_prob.token@,
        rank: log_prob.rank,
    }
}

pub open spec fn token_view(info: pb::TokenInfo) -> TokenView {
    TokenView {
        token_id: info.token_id,
        token: info.token@,
        logprob: info.logprob,
        rank: info.rank,
        candidates: Seq::new(info.candidates@.len(), |i: int| log_prob_view(info.candidates@[i])),
    }
}

pub open spec fn token_views(tokens: Seq<pb::TokenInfo>) -> Seq<TokenView> {
    Seq::new(tokens.len(), |i: int| token_view(tokens[i]))
}

pub open spec fn session_view(session: pb::KvSessionRef) -> SessionView {
    SessionView {
        session_id: session.session_id@,
        transfer_backend: session.transfer_backend@,
        endpoints: session.endpoints@.len(),
        dp_rank: session.dp_rank,
        attributes: match session.attributes_struct {
            Some(fields) => Some(members_of(fields@)),
            None => None,
        },
    }
}

pub open spec fn event_view(event: pb::Event) -> EventView {
    match event {
        pb::Event::Prompt(output) => EventView::Prompt { tokens: token_views(output.tokens@) },
        pb::Event::Token(output) => EventView::Token {
            output_index: output.output_index,
            tokens: token_views(output.tokens@),
            text: output.text@,
        },
        pb::Event::PrefillReady(ready) => EventView::PrefillReady {
            kv_session: match ready.kv_session {
                Some(session) => Some(session_view(session)),
                None => None,
            },
        },
        pb::Event::Finished(finished) => EventView::Finished {
            output_index: finished.output_index,
            reason: finished.reason,
            message: finished.message@,
            stop_match: finished.stop_match,
        },
        pb::Event::Error(error) => EventView::Error {
            code: error.code,
            message: error.message@,
            retryable: error.retryable,
        },
    }
}

impl View for pb::GenerateResponse {
    type V = ResponseView;

    open spec fn view(&self) -> ResponseView {
        ResponseView {
            request_id: self.request_id@,
            event: match self.event {
                Some(event) => Some(event_view(event)),
                None => None,
            },
            usage: self.usage,
        }
    }
}

pub open spec fn response_views(responses: Seq<pb::GenerateResponse>) -> Seq<ResponseView> {
    Seq::new(responses.len(), |i: int| responses[i]@)
}

// Tokens.

/// Where the first entry about a token stands.
pub open spec fn entry_index(entries: Seq<DecodedTokenLogprob>, token_id: u32) -> Option<int>
    decreases entries.len(),
{
    if entries.len() == 0 {
        None
    } else {
        match entry_index(entries.drop_last(), token_id) {
            Some(i) => Some(i),
            None => if entries.last().token_id == token_id {
                Some(entries.len() - 1)
            } else {
                None
            },
        }
    }
}

pub open spec fn wanted_log_prob(entry: DecodedTokenLogprob) -> LogProbView {
    LogProbView {
        token_id: entry.token_id,
        logprob: entry.logprob.spec_widen(),
        token: entry.token@,
        rank: Some(entry.rank),
    }
}

/// A token with its own score, if it has one, and all scores at its position.
pub open spec fn scored_token(token_id: u32, position: DecodedPositionLogprobs) -> TokenView {
    let entries = position.entries@;
    let selected = entry_index(entries, token_id);
    TokenView {
        token_id,
        token: match selected {
            Some(i) => entries[i].token@,
            None => Seq::empty(),
        },
        logprob: match selected {
            Some(i) => Some(entries[i].logprob.spec_widen()),
            None => None,
        },
        rank: match selected {
            Some(i) => Some(entries[i].rank),
            None => None,
        },
        candidates: Seq::new(entries.len(), |i: int| wanted_log_prob(entries[i])),
    }
}

/// A token without scores.
pub open spec fn bare_token(token_id: u32, token: Seq<char>) -> TokenView {
    TokenView { token_id, token, logprob: None, rank: None, candidates: Seq::empty() }
}

/// The tokens of a prompt. The first one has no score.
pub open spec fn wanted_prompt_tokens(
    prompt_token_ids: Seq<u32>,
    logprobs: DecodedPromptLogprobs,
) -> Seq<TokenView> {
    let positions = logprobs.scored_positions@;
    let scored: nat = if prompt_token_ids.len() == 0 {
        0
    } else if prompt_token_ids.len() - 1 <= positions.len() {
        (prompt_token_ids.len() - 1) as nat
    } else {
        positions.len()
    };
    seq![bare_token(logprobs.first_token_id, logprobs.first_token@)] + Seq::new(
        scored,
        |i: int| scored_token(prompt_token_ids[i + 1], positions[i]),
    )
}

/// The tokens of a piece of output, with their scores where there are any.
pub open spec fn wanted_tokens(token_ids: Seq<u32>, logprobs: Option<DecodedLogprobs>) -> Seq<
    TokenView,
> {
    Seq::new(
        token_ids.len(),
        |i: int|
            match logprobs {
                Some(lp) if i < lp.positions@.len() => scored_token(
                    token_ids[i],
                    lp.positions@[i],
                ),
                _ => bare_token(token_ids[i], Seq::empty()),
            },
    )
}

/// The tokens of a piece of output. A single token without a text of its own is given the text
/// of the piece.
pub open spec fn wanted_output_tokens(
    delta: Seq<char>,
    token_ids: Seq<u32>,
    logprobs: Option<DecodedLogprobs>,
) -> Seq<TokenView> {
    let tokens = wanted_tokens(token_ids, logprobs);
    if tokens.len() == 1 && tokens[0].token.len() == 0 && delta.len() > 0 {
        seq![TokenView { token: delta, ..tokens[0] }]
    } else {
        tokens
    }
}

proof fn lemma_entry_index_prefix(entries: Seq<DecodedTokenLogprob>, n: int, token_id: u32)
    requires
        0 <= n <= entries.len(),
        entry_index(entries.take(n), token_id) is Some,
    ensures
        entry_index(entries, token_id) == entry_index(entries.take(n), token_id),
    decreases entries.len() - n,
{
    if n < entries.len() {
        assert(entries.take(n + 1).drop_last() =~= entries.take(n));
        lemma_entry_index_prefix(entries, n + 1, token_id);
    } else {
        assert(entries.take(n) =~= entries);
    }
}

fn find_entry(entries: &Vec<DecodedTokenLogprob>, token_id: u32) -> (found: Option<usize>)
    ensures
        match found {
            Some(i) => entry_index(entries@, token_id) == Some(i as int) && i < entries@.len(),
            None => entry_index(entries@, token_id) is None,
        },
{
    for i in 0..entries.len()
        invariant
            entry_index(entries@.take(i as int), token_id) is None,
    {
        assert(entries@.take(i + 1).drop_last() =~= entries@.take(i as int));
        assert(entries@.take(i + 1).last() == entries@[i as int]);
        if entries[i].token_id == token_id {
            proof {
                lemma_entry_index_prefix(entries@, i + 1, token_id);
            }
            return Some(i);
        }
    }
    assert(entries@.take(entries@.len() as int) =~= entries@);
    None
}

fn token_info(token_id: u32, position: &DecodedPositionLogprobs) -> (info: pb::TokenInfo)
    ensures
        token_view(info) == scored_token(token_id, *position),
{
    let entries = &position.entries;
    let mut candidates: Vec<pb::LogProb> = Vec::new();
    for i in 0..entries.len()
        invariant
            *entries == position.entries,
            candidates@.len() == i,
            forall|j: int|
                0 <= j < i ==> log_prob_view(#[trigger] candidates@[j]) == wanted_log_prob(
                    entries@[j],
                ),
    {
        candidates.push(
            pb::LogProb {
                token_id: entries[i].token_id,
                logprob: entries[i].logprob.widen(),
                token: entries[i].token.clone(),
                rank: Some(entries[i].rank),
            },
        );
    }
    let (token, logprob, rank) = match find_entry(entries, token_id) {
        Some(i) => (
            entries[i].token.clone(),
            Some(entries[i].logprob.widen()),
            Some(entries[i].rank),
        ),
        None => (no_text(), None, None),
    };
    let info = pb::TokenInfo { token_id, token, logprob, rank, candidates };
    assert(token_view(info).candidates =~= scored_token(token_id, *position).candidates);
    info
}

fn unscored_token(token_id: u32, token: String) -> (info: pb::TokenInfo)
    ensures
        token_view(info) == bare_token(token_id, token@),
{
    let info = pb::TokenInfo {
        token_id,
        token,
        logprob: None,
        rank: None,
        candidates: Vec::new(),
    };
    assert(token_view(info).candidates =~= Seq::empty());
    info
}

fn prompt_output(prompt_token_ids: &Vec<u32>, logprobs: DecodedPromptLogprobs) -> (output:
    pb::PromptOutput)
    ensures
        token_views(output.tokens@) == wanted_prompt_tokens(prompt_token_ids@, logprobs),
{
    let ghost wanted = wanted_prompt_tokens(prompt_token_ids@, logprobs);
    let positions = &logprobs.scored_positions;
    let mut tokens: Vec<pb::TokenInfo> = Vec::new();
    tokens.push(unscored_token(logprobs.first_token_id, logprobs.first_token.clone()));
    let scored: usize = if prompt_token_ids.len() == 0 {
        0
    } else if prompt_token_ids.len() - 1 <= positions.len() {
        prompt_token_ids.len() - 1
    } else {
        positions.len()
    };
    for i in 0..scored
        invariant
            *positions == logprobs.scored_positions,
            scored <= positions@.len(),
            scored == 0 || scored + 1 <= prompt_token_ids@.len(),
            wanted == wanted_prompt_tokens(prompt_token_ids@, logprobs),
            wanted.len() == scored + 1,
            tokens@.len() == i + 1,
            forall|j: int|
                0 <= j < tokens@.len() ==> token_view(#[trigger] tokens@[j]) == wanted[j],
    {
        tokens.push(token_info(prompt_token_ids[i + 1], &positions[i]));
    }
    assert(token_views(tokens@) =~= wanted);
    pb::PromptOutput { tokens }
}

fn token_output(token_ids: &Vec<u32>, logprobs: &Option<DecodedLogprobs>) -> (tokens: Vec<
    pb::TokenInfo,
>)
    ensures
        token_views(tokens@) == wanted_tokens(token_ids@, *logprobs),
{
    let ghost wanted = wanted_tokens(token_ids@, *logprobs);
    let mut tokens: Vec<pb::TokenInfo> = Vec::new();
    for i in 0..token_ids.len()
        invariant
            wanted == wanted_tokens(token_ids@, *logprobs),
            tokens@.len() == i,
            forall|j: int| 0 <= j < i ==> token_view(#[trigger] tokens@[j]) == wanted[j],
    {
        let info = match logprobs {
            Some(lp) => {
                if i < lp.positions.len() {
                    token_info(token_ids[i], &lp.positions[i])
                } else {
                    unscored_token(token_ids[i], no_text())
                }
            },
            None => unscored_token(token_ids[i], no_text()),
        };
        tokens.push(info);
    }
    assert(token_views(tokens@) =~= wanted);
    tokens
}

// The end of a generation.

/// A count in 32 bits, or the largest one that they hold.
pub open spec fn clamped(count: usize) -> u32 {
    if count > u32::MAX {
        u32::MAX
    } else {
        count as u32
    }
}

fn clamp(count: usize) -> (clamp: u32)
    ensures
        clamp == clamped(count),
{
    if count > 0xffff_ffff {
        0xffff_ffff
    } else {
        count as u32
    }
}

pub open spec fn wanted_usage(finished: Finished) -> pb::Usage {
    let prompt = clamped(finished.usage.prompt_token_count);
    let completion = clamped(finished.usage.output_token_count);
    pb::Usage {
        prompt_tokens: prompt,
        completion_tokens: completion,
        total_tokens: if prompt + completion > u32::MAX {
            u32::MAX
        } else {
            (prompt + completion) as u32
        },
        cached_prompt_tokens: Some(clamped(finished.usage.cached_token_count)),
        reasoning_tokens: None,
    }
}

fn to_usage(finished: &Finished) -> (usage: pb::Usage)
    ensures
        usage == wanted_usage(*finished),
{
    let prompt: u32 = clamp(finished.usage.prompt_token_count);
    let completion: u32 = clamp(finished.usage.output_token_count);
    pb::Usage {
        prompt_tokens: prompt,
        completion_tokens: completion,
        total_tokens: prompt.saturating_add(completion),
        cached_prompt_tokens: Some(clamp(finished.usage.cached_token_count)),
        reasoning_tokens: None,
    }
}

pub open spec fn wanted_reason(reason: FinishReason) -> pb::FinishReason {
    match reason {
        FinishReason::Stop(_) => pb::FinishReason::Stop,
        FinishReason::Repetition(_) => pb::FinishReason::Stop,
        FinishReason::Length => pb::FinishReason::Length,
        FinishReason::Abort => pb::FinishReason::Cancelled,
        FinishReason::Error => pb::FinishReason::Unspecified,
    }
}

fn finish_reason(reason: &FinishReason) -> (proto: pb::FinishReason)
    ensures
        proto == wanted_reason(*reason),
{
    match reason {
        FinishReason::Stop(_) => pb::FinishReason::Stop,
        FinishReason::Repetition(_) => pb::FinishReason::Stop,
        FinishReason::Length => pb::FinishReason::Length,
        FinishReason::Abort => pb::FinishReason::Cancelled,
        FinishReason::Error => pb::FinishReason::Unspecified,
    }
}

/// What a generation stopped at.
pub open spec fn wanted_match(reason: FinishReason) -> Option<pb::StopMatch> {
    let stop = match reason {
        FinishReason::Stop(stop) => stop,
        FinishReason::Repetition(stop) => stop,
        _ => None,
    };
    match stop {
        Some(StopReason::TokenId(id)) => Some(pb::StopMatch::StopTokenId(id)),
        Some(StopReason::Text(text)) => Some(pb::StopMatch::StopText(text)),
        None => None,
    }
}

fn stop_match(reason: &FinishReason) -> (found: Option<pb::StopMatch>)
    ensures
        found == wanted_match(*reason),
{
    let stop = match reason {
        FinishReason::Stop(Some(stop)) => stop,
        FinishReason::Repetition(Some(stop)) => stop,
        _ => {
            return None;
        },
    };
    Some(
        match stop {
            StopReason::TokenId(id) => pb::StopMatch::StopTokenId(*id),
            StopReason::Text(text) => pb::StopMatch::StopText(text.clone()),
        },
    )
}

pub open spec fn error_view(
    request_id: Seq<char>,
    code: pb::ErrorCode,
    message: Seq<char>,
    usage: Option<pb::Usage>,
) -> ResponseView {
    ResponseView {
        request_id,
        event: Some(
            EventView::Error { code, message, retryable: code == pb::ErrorCode::Internal },
        ),
        usage,
    }
}

/// What a server that prefills for others hands over: the transfer parameters, if they are an
/// object that says something.
pub open spec fn handoff(params: Option<JsonValue>) -> Option<Seq<(Seq<char>, Json)>> {
    match params {
        Some(JsonValue::Object(members)) => if members@.len() > 0 {
            Some(members_of(members@))
        } else {
            None
        },
        _ => None,
    }
}

/// The response that ends a prefill.
pub open spec fn prefill_view(
    finished: Finished,
    request_id: Seq<char>,
    kv_connector: Option<Seq<char>>,
    handoff_dp_rank: u32,
) -> ResponseView {
    let usage = Some(wanted_usage(finished));
    let failed = pb::ErrorCode::KvTransferFailed;
    if finished.finish_reason is Abort || finished.finish_reason is Error {
        error_view(request_id, failed, "prefill did not complete successfully"@, usage)
    } else if finished.kv_transfer_params is None {
        error_view(request_id, failed, "prefill completed without KV transfer metadata"@, usage)
    } else {
        match handoff(finished.kv_transfer_params) {
            None => error_view(
                request_id,
                failed,
                "prefill returned invalid KV transfer metadata"@,
                usage,
            ),
            Some(attributes) => ResponseView {
                request_id,
                event: Some(
                    EventView::PrefillReady {
                        kv_session: Some(
                            SessionView {
                                session_id: request_id,
                                transfer_backend: match kv_connector {
                                    Some(connector) => connector,
                                    None => Seq::empty(),
                                },
                                endpoints: 0,
                                dp_rank: handoff_dp_rank,
                                attributes: Some(attributes),
                            },
                        ),
                    },
                ),
                usage,
            },
        }
    }
}

/// The response that ends a generation.
pub open spec fn terminal_view(
    finished: Finished,
    request_id: Seq<char>,
    role: private::EngineRole,
    kv_connector: Option<Seq<char>>,
    handoff_dp_rank: u32,
) -> ResponseView {
    let usage = Some(wanted_usage(finished));
    if role == private::EngineRole::Prefill {
        prefill_view(finished, request_id, kv_connector, handoff_dp_rank)
    } else if finished.finish_reason is Error {
        error_view(
            request_id,
            pb::ErrorCode::Internal,
            "engine reported an internal generation error"@,
            usage,
        )
    } else {
        ResponseView {
            request_id,
            event: Some(
                EventView::Finished {
                    output_index: Some(0),
                    reason: wanted_reason(finished.finish_reason),
                    message: Seq::empty(),
                    stop_match: wanted_match(finished.finish_reason),
                },
            ),
            usage,
        }
    }
}

pub open spec fn connector_text(kv_connector: Option<&str>) -> Option<Seq<char>> {
    match kv_connector {
        Some(connector) => Some(connector@),
        None => None,
    }
}

fn error_response_with_usage(
    request_id: &str,
    code: pb::ErrorCode,
    message: &str,
    usage: Option<pb::Usage>,
) -> (response: pb::GenerateResponse)
    ensures
        response@ == error_view(request_id@, code, message@, usage),
{
    pb::GenerateResponse {
        request_id: request_id.to_string(),
        event: Some(
            pb::Event::Error(
                pb::EngineError {
                    code,
                    message: message.to_string(),
                    retryable: code == pb::ErrorCode::Internal,
                },
            ),
        ),
        usage,
    }
}

/// The response that ends a generation that failed.
pub fn error_response(request_id: &str, message: String) -> (response: pb::GenerateResponse)
    ensures
        response@ == error_view(request_id@, pb::ErrorCode::Internal, message@, None),
{
    error_response_with_usage(request_id, pb::ErrorCode::Internal, message.as_str(), None)
}

fn prefill_response(
    finished: &Finished,
    request_id: &str,
    kv_connector: Option<&str>,
    handoff_dp_rank: u32,
) -> (response: pb::GenerateResponse)
    ensures
        response@ == prefill_view(
            *finished,
            request_id@,
            connector_text(kv_connector),
            handoff_dp_rank,
        ),
{
    let usage = Some(to_usage(finished));
    match &finished.finish_reason {
        FinishReason::Abort | FinishReason::Error => {
            return error_response_with_usage(
                request_id,
                pb::ErrorCode::KvTransferFailed,
                "prefill did not complete successfully",
                usage,
            );
        },
        _ => {},
    }
    if finished.kv_transfer_params.is_none() {
        return error_response_with_usage(
            request_id,
            pb::ErrorCode::KvTransferFailed,
            "prefill completed without KV transfer metadata",
            usage,
        );
    }
    let fields = match json_object_fields(&finished.kv_transfer_params) {
        Some(fields) => fields,
        None => {
            return error_response_with_usage(
                request_id,
                pb::ErrorCode::KvTransferFailed,
                "prefill returned invalid KV transfer metadata",
                usage,
            );
        },
    };
    assert(members_of(fields@).len() == fields@.len());
    assert(finished.kv_transfer_params->Some_0 is Object);
    assert(members_of(finished.kv_transfer_params->Some_0->Object_0@).len() == fields@.len());
    if fields.len() == 0 {
        return error_response_with_usage(
            request_id,
            pb::ErrorCode::KvTransferFailed,
            "prefill returned invalid KV transfer metadata",
            usage,
        );
    }
    let transfer_backend = match kv_connector {
        Some(connector) => connector.to_string(),
        None => no_text(),
    };
    pb::GenerateResponse {
        request_id: request_id.to_string(),
        event: Some(
            pb::Event::PrefillReady(
                pb::PrefillReady {
                    kv_session: Some(
                        pb::KvSessionRef {
                            session_id: request_id.to_string(),
                            transfer_backend,
                            endpoints: Vec::new(),
                            dp_rank: handoff_dp_rank,
                            attributes_struct: Some(fields),
                        },
                    ),
                },
            ),
        ),
        usage,
    }
}

fn terminal_response(
    finished: &Finished,
    request_id: &str,
    role: private::EngineRole,
    kv_connector: Option<&str>,
    handoff_dp_rank: u32,
) -> (response: pb::GenerateResponse)
    ensures
        response@ == terminal_view(
            *finished,
            request_id@,
            role,
            connector_text(kv_connector),
            handoff_dp_rank,
        ),
{
    if role == private::EngineRole::Prefill {
        return prefill_response(finished, request_id, kv_connector, handoff_dp_rank);
    }
    let usage = Some(to_usage(finished));
    if let FinishReason::Error = &finished.finish_reason {
        return error_response_with_usage(
            request_id,
            pb::ErrorCode::Internal,
            "engine reported an internal generation error",
            usage,
        );
    }
    pb::GenerateResponse {
        request_id: request_id.to_string(),
        event: Some(
            pb::Event::Finished(
                pb::GenerationFinished {
                    output_index: Some(0),
                    reason: finish_reason(&finished.finish_reason),
                    message: no_text(),
                    stop_match: stop_match(&finished.finish_reason),
                },
            ),
        ),
        usage,
    }
}

/// The responses to an event.
pub open spec fn wanted_responses(
    event: DecodedTextEvent,
    request_id: Seq<char>,
    role: private::EngineRole,
    kv_connector: Option<Seq<char>>,
    handoff_dp_rank: u32,
) -> Seq<ResponseView> {
    match event {
        DecodedTextEvent::Start { prompt_token_ids, prompt_logprobs } => match prompt_logprobs {
            Some(logprobs) => seq![
                ResponseView {
                    request_id,
                    event: Some(
                        EventView::Prompt {
                            tokens: wanted_prompt_tokens(prompt_token_ids@, logprobs),
                        },
                    ),
                    usage: None,
                },
            ],
            None => Seq::empty(),
        },
        DecodedTextEvent::TextDelta { delta, token_ids, logprobs, finished } => {
            let output = if token_ids@.len() > 0 || delta@.len() > 0 {
                seq![
                    ResponseView {
                        request_id,
                        event: Some(
                            EventView::Token {
                                output_index: Some(0),
                                tokens: wanted_output_tokens(delta@, token_ids@, logprobs),
                                text: delta@,
                            },
                        ),
                        usage: None,
                    },
                ]
            } else {
                Seq::empty()
            };
            match finished {
                Some(finished) => output.push(
                    terminal_view(finished, request_id, role, kv_connector, handoff_dp_rank),
                ),
                None => output,
            }
        },
    }
}

fn output_tokens(delta: &String, token_ids: &Vec<u32>, logprobs: &Option<DecodedLogprobs>) -> (
    tokens: Vec<pb::TokenInfo>)
    ensures
        token_views(tokens@) == wanted_output_tokens(delta@, token_ids@, *logprobs),
{
    let mut tokens = token_output(token_ids, logprobs);
    let ghost wanted = wanted_tokens(token_ids@, *logprobs);
    assert(tokens@.len() == wanted.len());
    if tokens.len() == 1 {
        assert(wanted[0] == token_view(tokens@[0]));
        if tokens[0].token.as_str().is_empty() && !delta.as_str().is_empty() {
            let mut only = tokens.remove(0);
            only.token = delta.clone();
            tokens.push(only);
            assert(token_view(only).candidates =~= wanted[0].candidates);
            assert(token_views(tokens@) =~= seq![TokenView { token: delta@, ..wanted[0] }]);
        }
    }
    tokens
}

pub fn event_to_responses(
    event: DecodedTextEvent,
    request_id: &str,
    role: private::EngineRole,
    kv_connector: Option<&str>,
    handoff_dp_rank: u32,
) -> (responses: Vec<pb::GenerateResponse>)
    ensures
        response_views(responses@) == wanted_responses(
            event,
            request_id@,
            role,
            connector_text(kv_connector),
            handoff_dp_rank,
        ),
{
    let ghost wanted = wanted_responses(
        event,
        request_id@,
        role,
        connector_text(kv_connector),
        handoff_dp_rank,
    );
    let mut responses: Vec<pb::GenerateResponse> = Vec::new();
    match event {
        DecodedTextEvent::Start { prompt_token_ids, prompt_logprobs } => {
            if let Some(logprobs) = prompt_logprobs {
                responses.push(
                    pb::GenerateResponse {
                        request_id: request_id.to_string(),
                        event: Some(pb::Event::Prompt(prompt_output(&prompt_token_ids, logprobs))),
                        usage: None,
                    },
                );
            }
        },
        DecodedTextEvent::TextDelta { delta, token_ids, logprobs, finished } => {
            if token_ids.len() > 0 || !delta.as_str().is_empty() {
                let tokens = output_tokens(&delta, &token_ids, &logprobs);
                responses.push(
                    pb::GenerateResponse {
                        request_id: request_id.to_string(),
                        event: Some(
                            pb::Event::Token(
                                pb::TokenOutput { output_index: Some(0), tokens, text: delta },
                            ),
                        ),
                        usage: None,
                    },
                );
            }
            if let Some(finished) = finished {
                responses.push(
                    terminal_response(
                        &finished,
                        request_id,
                        role,
                        kv_connector,
                        handoff_dp_rank,
                    ),
                );
            }
        },
    }
    assert(response_views(responses@) =~= wanted);
    responses
}

/// Whether a response is the last one of its request.
pub open spec fn is_terminal(response: ResponseView) -> bool {
    response.event matches Some(event) && (event is Finished || event is Error
        || event is PrefillReady)
}

/// An event that ends a generation is answered by one terminal response, which comes last and
/// carries the usage; any other event is answered by none.
pub proof fn only_the_last_response_is_terminal(
    event: DecodedTextEvent,
    request_id: Seq<char>,
    role: private::EngineRole,
    kv_connector: Option<Seq<char>>,
    handoff_dp_rank: u32,
)
    ensures
        ({
            let responses = wanted_responses(
                event,
                request_id,
                role,
                kv_connector,
                handoff_dp_rank,
            );
            let ends = event matches DecodedTextEvent::TextDelta { finished: Some(_), .. };
            &&& ends ==> responses.len() > 0
            &&& forall|i: int|
                0 <= i < responses.len() ==> (is_terminal(#[trigger] responses[i]) == (ends && i
                    == responses.len() - 1) && (responses[i].usage is Some) == is_terminal(
                    responses[i],
                ) && responses[i].request_id == request_id)
        }),
{
}

/// A server that prefills for others hands over a session or reports that the transfer failed;
/// any other server does neither.
pub proof fn prefill_hands_over_or_fails(
    finished: Finished,
    request_id: Seq<char>,
    role: private::EngineRole,
    kv_connector: Option<Seq<char>>,
    handoff_dp_rank: u32,
)
    ensures
        ({
            let response = terminal_view(
                finished,
                request_id,
                role,
                kv_connector,
                handoff_dp_rank,
            );
            let hands_over = response.event matches Some(EventView::PrefillReady { .. });
            let failed = response.event matches Some(
                EventView::Error { code: pb::ErrorCode::KvTransferFailed, .. },
            );
            (hands_over || failed) == (role == private::EngineRole::Prefill)
        }),
{
}

proof fn lemma_entry_index(entries: Seq<DecodedTokenLogprob>, token_id: u32)
    ensures
        match entry_index(entries, token_id) {
            Some(i) => 0 <= i < entries.len() && entries[i].token_id == token_id && forall|j: int|
                0 <= j < i ==> (#[trigger] entries[j]).token_id != token_id,
            None => forall|j: int|
                0 <= j < entries.len() ==> (#[trigger] entries[j]).token_id != token_id,
        },
    decreases entries.len(),
{
    if entries.len() > 0 {
        let shorter = entries.drop_last();
        lemma_entry_index(shorter, token_id);
        assert forall|j: int| 0 <= j < entries.len() - 1 implies shorter[j]
            == #[trigger] entries[j] by {}
    }
}

/// A token is told with what the entries at its own position say: all of them are its
/// candidates, in their order, and the first one about the token itself gives its text, its score
/// and its rank. Where there is none, it has none of the three.
pub proof fn tokens_are_scored_at_their_position(
    info: pb::TokenInfo,
    token_id: u32,
    position: DecodedPositionLogprobs,
)
    requires
        token_view(info) == scored_token(token_id, position),
    ensures
        info.token_id == token_id,
        info.candidates@.len() == position.entries@.len(),
        forall|j: int|
            0 <= j < position.entries@.len() ==> {
                let entry = #[trigger] position.entries@[j];
                &&& info.candidates@[j].token_id == entry.token_id
                &&& info.candidates@[j].token@ == entry.token@
                &&& info.candidates@[j].rank == Some(entry.rank)
                &&& info.candidates@[j].logprob.bits == entry.logprob.widened
                &&& info.candidates@[j].logprob.narrowed == entry.logprob
            },
        forall|j: int|
            0 <= j < position.entries@.len() && (#[trigger] position.entries@[j]).token_id
                == token_id && (forall|k: int|
                0 <= k < j ==> (#[trigger] position.entries@[k]).token_id != token_id) ==> {
                let entry = position.entries@[j];
                &&& info.token@ == entry.token@
                &&& info.rank == Some(entry.rank)
                &&& info.logprob matches Some(logprob) && logprob.bits == entry.logprob.widened
                    && logprob.narrowed == entry.logprob
            },
        (forall|j: int|
            0 <= j < position.entries@.len() ==> (#[trigger] position.entries@[j]).token_id
                != token_id) ==> info.token@.len() == 0 && info.rank is None && info.logprob
            is None,
{
    let entries = position.entries@;
    let told = scored_token(token_id, position);
    lemma_entry_index(entries, token_id);
    assert(told.candidates.len() == entries.len());
    assert(token_view(info).candidates.len() == info.candidates@.len());
    assert forall|j: int| 0 <= j < entries.len() implies log_prob_view(info.candidates@[j])
        == wanted_log_prob(#[trigger] entries[j]) by {
        assert(token_view(info).candidates[j] == log_prob_view(info.candidates@[j]));
        assert(told.candidates[j] == wanted_log_prob(entries[j]));
    }
}

/// The tokens of a piece of output are those of its ids, one for one and in order, each scored at
/// the position that is its own, as far as there are positions. Behind them, tokens have no
/// scores.
pub proof fn output_tokens_are_told_one_by_one(
    tokens: Seq<pb::TokenInfo>,
    token_ids: Seq<u32>,
    logprobs: Option<DecodedLogprobs>,
)
    requires
        token_views(tokens) == wanted_tokens(token_ids, logprobs),
    ensures
        tokens.len() == token_ids.len(),
        forall|i: int|
            0 <= i < tokens.len() ==> {
                let info = #[trigger] tokens[i];
                &&& info.token_id == token_ids[i]
                &&& (logprobs matches Some(lp) && i < lp.positions@.len()) ==> token_view(info)
                    == scored_token(token_ids[i], logprobs->Some_0.positions@[i])
                &&& !(logprobs matches Some(lp) && i < lp.positions@.len()) ==> info.token@.len()
                    == 0 && info.rank is None && info.logprob is None && info.candidates@.len()
                    == 0
            },
{
    assert(token_views(tokens).len() == tokens.len());
    assert forall|i: int| 0 <= i < tokens.len() implies token_view(#[trigger] tokens[i])
        == wanted_tokens(token_ids, logprobs)[i] by {
        assert(token_views(tokens)[i] == token_view(tokens[i]));
    }
    assert forall|i: int| 0 <= i < tokens.len() implies (#[trigger] tokens[i]).token_id
        == token_ids[i] && (!(logprobs matches Some(lp) && i < lp.positions@.len())
        ==> tokens[i].token@.len() == 0 && tokens[i].rank is None && tokens[i].logprob is None
        && tokens[i].candidates@.len() == 0) by {
        assert(token_view(tokens[i]).candidates.len() == tokens[i].candidates@.len());
    }
}

/// Output is told in pieces that have something in them: the text as it is, and for every token
/// its id and what the entries at its own position say. Only the text of a single token that has
/// none of its own is that of the piece.
pub proof fn output_is_told_token_by_token(
    responses: Seq<pb::GenerateResponse>,
    event: DecodedTextEvent,
    request_id: Seq<char>,
    role: private::EngineRole,
    kv_connector: Option<Seq<char>>,
    handoff_dp_rank: u32,
    i: int,
    j: int,
)
    requires
        response_views(responses) == wanted_responses(
            event,
            request_id,
            role,
            kv_connector,
            handoff_dp_rank,
        ),
        event is TextDelta,
    ensures
        event matches DecodedTextEvent::TextDelta { delta, token_ids, logprobs, finished } ==> {
            let told = delta@.len() > 0 || token_ids@.len() > 0;
            &&& responses.len() == (if told {
                1int
            } else {
                0
            }) + (if finished is Some {
                1int
            } else {
                0
            })
            &&& told ==> {
                &&& responses[0].request_id@ == request_id
                &&& responses[0].usage is None
                &&& responses[0].event matches Some(pb::Event::Token(output)) && {
                    &&& output.output_index == Some(0u32)
                    &&& output.text@ == delta@
                    &&& output.tokens@.len() == token_ids@.len()
                    &&& 0 <= i < token_ids@.len() ==> {
                        let token = output.tokens@[i];
                        let scored = logprobs matches Some(lp) && i < lp.positions@.len();
                        let entries = logprobs->Some_0.positions@[i].entries@;
                        &&& token.token_id == token_ids@[i]
                        &&& !scored ==> token.candidates@.len() == 0 && token.logprob is None
                            && token.rank is None
                        &&& scored ==> token.candidates@.len() == entries.len()
                        &&& scored && 0 <= j < entries.len() ==> {
                            &&& token.candidates@[j].token_id == entries[j].token_id
                            &&& token.candidates@[j].token@ == entries[j].token@
                            &&& token.candidates@[j].rank == Some(entries[j].rank)
                            &&& token.candidates@[j].logprob.bits == entries[j].logprob.widened
                        }
                        &&& scored && 0 <= j < entries.len() && entries[j].token_id
                            == token.token_id && (forall|k: int|
                            0 <= k < j ==> (#[trigger] entries[k]).token_id != token.token_id)
                            ==> {
                            &&& token.rank == Some(entries[j].rank)
                            &&& token.logprob matches Some(logprob) && logprob.bits
                                == entries[j].logprob.widened
                            &&& token.token@ == entries[j].token@ || (entries[j].token@.len() == 0
                                && token_ids@.len() == 1 && token.token@ == delta@)
                        }
                        &&& scored && (forall|k: int|
                            0 <= k < entries.len() ==> (#[trigger] entries[k]).token_id
                                != token.token_id) ==> token.rank is None && token.logprob is None
                        &&& token_ids@.len() == 1 && !scored ==> token.token@ == delta@
                        &&& token_ids@.len() > 1 && !scored ==> token.token@.len() == 0
                    }
                }
            }
        },
{
    if let DecodedTextEvent::TextDelta { delta, token_ids, logprobs, finished } = event {
        assert(response_views(responses).len() == responses.len());
        if delta@.len() > 0 || token_ids@.len() > 0 {
            assert(response_views(responses)[0] == responses[0]@);
            let output = responses[0].event->Some_0->Token_0;
            let told = wanted_output_tokens(delta@, token_ids@, logprobs);
            let plain = wanted_tokens(token_ids@, logprobs);
            assert(token_views(output.tokens@) == told);
            assert(told.len() == plain.len());
            assert(token_views(output.tokens@).len() == output.tokens@.len());
            if 0 <= i < token_ids@.len() {
                let token = output.tokens@[i];
                assert(token_views(output.tokens@)[i] == token_view(token));
                assert(token_view(token).candidates.len() == token.candidates@.len());
                assert(token_view(token).candidates == plain[i].candidates);
                assert(token_view(token).rank == plain[i].rank && token_view(token).logprob
                    == plain[i].logprob && token_view(token).token_id == plain[i].token_id);
                if let Some(lp) = logprobs {
                    if i < lp.positions@.len() {
                        let entries = lp.positions@[i].entries@;
                        lemma_entry_index(entries, token_ids@[i]);
                        if 0 <= j < entries.len() {
                            assert(token_view(token).candidates[j] == log_prob_view(
                                token.candidates@[j],
                            ));
                            assert(plain[i].candidates[j] == wanted_log_prob(entries[j]));
                        }
                    }
                }
                assert(token_ids@.len() == 1 ==> plain[i] == plain[0]);
            }
        }
    }
}

/// A prompt is told only where its scores are: its first token without a score, and every
/// further one scored at the position before it.
pub proof fn prompts_are_told_token_by_token(
    responses: Seq<pb::GenerateResponse>,
    event: DecodedTextEvent,
    request_id: Seq<char>,
    role: private::EngineRole,
    kv_connector: Option<Seq<char>>,
    handoff_dp_rank: u32,
    i: int,
)
    requires
        response_views(responses) == wanted_responses(
            event,
            request_id,
            role,
            kv_connector,
            handoff_dp_rank,
        ),
    ensures
        event matches DecodedTextEvent::Start { prompt_token_ids, prompt_logprobs } ==> {
            &&& prompt_logprobs is None ==> responses.len() == 0
            &&& prompt_logprobs matches Some(logprobs) ==> {
                let positions = logprobs.scored_positions@;
                &&& responses.len() == 1
                &&& responses[0].request_id@ == request_id
                &&& responses[0].usage is None
                &&& responses[0].event matches Some(pb::Event::Prompt(output)) && {
                    let tokens = output.tokens@;
                    &&& prompt_token_ids@.len() > 0 && positions.len() == prompt_token_ids@.len()
                        - 1 ==> tokens.len() == prompt_token_ids@.len()
                    &&& 1 <= tokens.len() <= positions.len() + 1
                    &&& tokens[0].token_id == logprobs.first_token_id
                    &&& tokens[0].token@ == logprobs.first_token@
                    &&& tokens[0].logprob is None && tokens[0].rank is None
                    &&& tokens[0].candidates@.len() == 0
                    &&& 1 <= i < tokens.len() ==> tokens[i].token_id == prompt_token_ids@[i]
                        && token_view(tokens[i]) == scored_token(
                        prompt_token_ids@[i],
                        positions[i - 1],
                    )
                }
            }
        },
{
    if let DecodedTextEvent::Start { prompt_token_ids, prompt_logprobs } = event {
        assert(response_views(responses).len() == responses.len());
        if let Some(logprobs) = prompt_logprobs {
            assert(response_views(responses)[0] == responses[0]@);
            let output = responses[0].event->Some_0->Prompt_0;
            let told = wanted_prompt_tokens(prompt_token_ids@, logprobs);
            assert(token_views(output.tokens@) == told);
            assert(token_views(output.tokens@).len() == output.tokens@.len());
            assert(token_views(output.tokens@)[0] == token_view(output.tokens@[0]));
            assert(token_view(output.tokens@[0]).candidates.len()
                == output.tokens@[0].candidates@.len());
            if 1 <= i < told.len() {
                assert(token_views(output.tokens@)[i] == token_view(output.tokens@[i]));
            }
        }
    }
}

/// Usage counts the tokens of the prompt, of the output and those found in a cache, each as far
/// as 32 bits count, and the total is the sum of the first two in the same way.
pub proof fn usage_counts_every_token(finished: Finished)
    ensures
        ({
            let usage = wanted_usage(finished);
            let counts = finished.usage;
            &&& counts.prompt_token_count <= 4294967295 ==> usage.prompt_tokens
                == counts.prompt_token_count
            &&& counts.prompt_token_count > 4294967295 ==> usage.prompt_tokens == 4294967295
            &&& counts.output_token_count <= 4294967295 ==> usage.completion_tokens
                == counts.output_token_count
            &&& counts.output_token_count > 4294967295 ==> usage.completion_tokens == 4294967295
            &&& usage.prompt_tokens + usage.completion_tokens <= 4294967295 ==> usage.total_tokens
                == usage.prompt_tokens + usage.completion_tokens
            &&& usage.prompt_tokens + usage.completion_tokens > 4294967295 ==> usage.total_tokens
                == 4294967295
            &&& usage.cached_prompt_tokens matches Some(cached) && cached == if
                counts.cached_token_count <= 4294967295 {
                counts.cached_token_count as int
            } else {
                4294967295
            }
            &&& usage.reasoning_tokens is None
        }),
{
}

/// A generation that ends on a server that keeps its caches is told with why it ended and what
/// it stopped at, or as an internal error that may be tried again where the engine reported one.
pub proof fn ends_tell_why(
    response: pb::GenerateResponse,
    finished: Finished,
    request_id: Seq<char>,
    role: private::EngineRole,
    kv_connector: Option<Seq<char>>,
    handoff_dp_rank: u32,
)
    requires
        response@ == terminal_view(finished, request_id, role, kv_connector, handoff_dp_rank),
        role != private::EngineRole::Prefill,
    ensures
        response.request_id@ == request_id,
        response.usage == Some(wanted_usage(finished)),
        finished.finish_reason is Error ==> (response.event matches Some(pb::Event::Error(error))
            && error.code == pb::ErrorCode::Internal && error.retryable && error.message@
            == "engine reported an internal generation error"@),
        !(finished.finish_reason is Error) ==> (response.event matches Some(
            pb::Event::Finished(end),
        ) && end.output_index == Some(0u32) && end.message@.len() == 0 && {
            &&& end.reason == pb::FinishReason::Length <==> finished.finish_reason is Length
            &&& end.reason == pb::FinishReason::Cancelled <==> finished.finish_reason is Abort
            &&& end.reason == pb::FinishReason::Stop <==> finished.finish_reason is Stop
                || finished.finish_reason is Repetition
            &&& match finished.finish_reason {
                FinishReason::Stop(Some(StopReason::TokenId(id))) => end.stop_match == Some(
                    pb::StopMatch::StopTokenId(id),
                ),
                FinishReason::Repetition(Some(StopReason::TokenId(id))) => end.stop_match == Some(
                    pb::StopMatch::StopTokenId(id),
                ),
                FinishReason::Stop(Some(StopReason::Text(text))) => end.stop_match matches Some(
                    pb::StopMatch::StopText(same),
                ) && same@ == text@,
                FinishReason::Repetition(Some(StopReason::Text(text))) =>
                    end.stop_match matches Some(pb::StopMatch::StopText(same)) && same@ == text@,
                _ => end.stop_match is None,
            }
        }),
{
}

/// A prefill that completed with transfer parameters hands over a session under the id of its
/// request, with the connector and the rank of the server and just those parameters. Any other
/// end of a prefill is a failed transfer, which is not to be tried again.
pub proof fn prefills_hand_over_their_parameters(
    response: pb::GenerateResponse,
    finished: Finished,
    request_id: Seq<char>,
    kv_connector: Option<Seq<char>>,
    handoff_dp_rank: u32,
)
    requires
        response@ == terminal_view(
            finished,
            request_id,
            private::EngineRole::Prefill,
            kv_connector,
            handoff_dp_rank,
        ),
    ensures
        response.request_id@ == request_id,
        response.usage == Some(wanted_usage(finished)),
        ({
            let params = finished.kv_transfer_params;
            let hands_over = !(finished.finish_reason is Abort) && !(
            finished.finish_reason is Error) && (params matches Some(JsonValue::Object(members))
                && members@.len() > 0);
            &&& hands_over ==> (response.event matches Some(pb::Event::PrefillReady(ready))
                && ready.kv_session matches Some(session) && {
                &&& session.session_id@ == request_id
                &&& session.dp_rank == handoff_dp_rank
                &&& session.endpoints@.len() == 0
                &&& kv_connector is None ==> session.transfer_backend@.len() == 0
                &&& kv_connector matches Some(connector) ==> session.transfer_backend@
                    == connector
                &&& session.attributes_struct matches Some(fields) && members_of(fields@)
                    == members_of(params->Some_0->Object_0@)
            })
            &&& !hands_over ==> (response.event matches Some(pb::Event::Error(error))
                && error.code == pb::ErrorCode::KvTransferFailed && !error.retryable)
        }),
{
}

/// Why a generation ended is told by the reason that it had: a stop or a repetition stopped it,
/// its length ended it, or it was cancelled. An error is no such reason.
pub proof fn reasons_are_told(reason: FinishReason)
    ensures
        wanted_reason(reason) == pb::FinishReason::Stop <==> reason is Stop || reason is Repetition,
        wanted_reason(reason) == pb::FinishReason::Length <==> reason is Length,
        wanted_reason(reason) == pb::FinishReason::Cancelled <==> reason is Abort,
        wanted_reason(reason) == pb::FinishReason::Unspecified <==> reason is Error,
{
}

} // verus!
