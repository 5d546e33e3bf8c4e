//! Responses of the engine service.

use crate::generation::{DecodedTextEvent, FinishReason, Finished};
use crate::grpc::engine_rpc::pb;
use crate::numbers::{low_32, low_u32};
use crate::text::no_text;
use vstd::prelude::*;

verus! {

/// What a response tells.
pub enum EventView {
    Token { token_ids: Seq<u32>, text: Seq<char> },
    Finished { reason: pb::FinishReason, message: Seq<char> },
    Error { code: pb::ErrorCode, message: Seq<char>, retry_hint: Seq<char> },
}

pub struct ResponseView {
    pub request_id: Seq<char>,
    pub event: Option<EventView>,
    pub usage: Option<pb::Usage>,
}

pub open spec fn event_view(event: pb::Event) -> EventView {
    match event {
        pb::Event::Token(output) => EventView::Token {
            token_ids: output.token_ids@,
            text: output.text@,
        },
        pb::Event::Finished(finished) => EventView::Finished {
            reason: finished.reason,
            message: finished.message@,
        },
        pb::Event::Error(error) => EventView::Error {
            code: error.code,
            message: error.message@,
            retry_hint: error.retry_hint@,
        },
    }
}

impl View for pb::GenerateResponse {
    type V = ResponseView;

    open spec fn view(&self) -> ResponseView {
        ResponseView {
            request_id: self.request_id@,
            event: match self.event {
                Some(event) => Some(event_view(event)),
                None => None,
            },
            usage: self.usage,
        }
    }
}

pub open spec fn response_views(responses: Seq<pb::GenerateResponse>) -> Seq<ResponseView> {
    Seq::new(responses.len(), |i: int| responses[i]@)
}

/// Why a generation ended.
pub open spec fn wanted_reason(reason: FinishReason) -> pb::FinishReason {
    match reason {
        FinishReason::Stop(_) => pb::FinishReason::Stop,
        FinishReason::Repetition(_) => pb::FinishReason::Stop,
        FinishReason::Length => pb::FinishReason::Length,
        FinishReason::Abort => pb::FinishReason::Cancelled,
        FinishReason::Error => pb::FinishReason::Error,
    }
}

/// The number of tokens that a generation took in and gave out.
pub open spec fn wanted_usage(finished: Finished) -> pb::Usage {
    let prompt = low_32(finished.usage.prompt_token_count as nat);
    let completion = low_32(finished.usage.output_token_count as nat);
    pb::Usage {
        prompt_tokens: prompt,
        completion_tokens: completion,
        total_tokens: (prompt + completion) as u32,
    }
}

/// Whether the total number of tokens can be written.
pub open spec fn countable(finished: Option<Finished>) -> bool {
    finished matches Some(finished) ==> low_32(finished.usage.prompt_token_count as nat) + low_32(
        finished.usage.output_token_count as nat,
    ) <= u32::MAX
}

pub open spec fn terminal_view(finished: Finished, request_id: Seq<char>) -> ResponseView {
    ResponseView {
        request_id,
        event: Some(
            EventView::Finished {
                reason: wanted_reason(finished.finish_reason),
                message: Seq::empty(),
            },
        ),
        usage: Some(wanted_usage(finished)),
    }
}

/// The responses to an event: the tokens and the text that it brings, then its end.
pub open spec fn wanted_responses(event: DecodedTextEvent, request_id: Seq<char>) -> Seq<
    ResponseView,
> {
    match event {
        DecodedTextEvent::Start { .. } => Seq::empty(),
        DecodedTextEvent::TextDelta { delta, token_ids, finished, .. } => {
            let output = if token_ids@.len() > 0 || delta@.len() > 0 {
                seq![
                    ResponseView {
                        request_id,
                        event: Some(
                            EventView::Token { token_ids: token_ids@, text: delta@ },
                        ),
                        usage: None,
                    },
                ]
            } else {
                Seq::empty()
            };
            match finished {
                Some(finished) => output.push(terminal_view(finished, request_id)),
                None => output,
            }
        },
    }
}

/// Whether the usage of a finished event can be written.
pub open spec fn event_countable(event: DecodedTextEvent) -> bool {
    event matches DecodedTextEvent::TextDelta { finished, .. } ==> countable(finished)
}

pub fn event_to_responses(event: DecodedTextEvent, request_id: &str) -> (responses: Vec<
    pb::GenerateResponse,
>)
    requires
        event_countable(event),
    ensures
        response_views(responses@) == wanted_responses(event, request_id@),
{
    let mut responses: Vec<pb::GenerateResponse> = Vec::new();
    match event {
        DecodedTextEvent::Start { .. } => {
            assert(response_views(responses@) =~= Seq::empty());
        },
        DecodedTextEvent::TextDelta { delta, token_ids, logprobs: _, finished } => {
            let has_output = token_ids.len() > 0 || !delta.as_str().is_empty();
            if has_output {
                responses.push(
                    pb::GenerateResponse {
                        request_id: request_id.to_string(),
                        event: Some(
                            pb::Event::Token(pb::TokenOutput { token_ids, text: delta }),
                        ),
                        usage: None,
                    },
                );
            }
            let ghost output = response_views(responses@);
            if let Some(finished) = finished {
                responses.push(terminal_response(&finished, request_id));
                assert(response_views(responses@) =~= output.push(
                    terminal_view(finished, request_id@),
                ));
            }
            assert(response_views(responses@) =~= wanted_responses(event, request_id@));
        },
    }
    responses
}

fn terminal_response(finished: &Finished, request_id: &str) -> (response: pb::GenerateResponse)
    requires
        countable(Some(*finished)),
    ensures
        response@ == terminal_view(*finished, request_id@),
{
    pb::GenerateResponse {
        request_id: request_id.to_string(),
        event: Some(
            pb::Event::Finished(
                pb::GenerationFinished {
                    reason: finish_reason_to_proto(&finished.finish_reason),
                    message: no_text(),
                },
            ),
        ),
        usage: Some(to_usage(finished)),
    }
}

/// The response that ends a generation that failed.
pub fn error_response(request_id: &str, message: String) -> (response: pb::GenerateResponse)
    ensures
        response@ == (ResponseView {
            request_id: request_id@,
            event: Some(
                EventView::Error {
                    code: pb::ErrorCode::Internal,
                    message: message@,
                    retry_hint: Seq::empty(),
                },
            ),
            usage: None,
        }),
{
    pb::GenerateResponse {
        request_id: request_id.to_string(),
        event: Some(
            pb::Event::Error(
                pb::EngineError { code: pb::ErrorCode::Internal, message, retry_hint: no_text() },
            ),
        ),
        usage: None,
    }
}

fn to_usage(finished: &Finished) -> (usage: pb::Usage)
    requires
        countable(Some(*finished)),
    ensures
        usage == wanted_usage(*finished),
{
    let prompt: u32 = low_u32(finished.usage.prompt_token_count);
    let completion: u32 = low_u32(finished.usage.output_token_count);
    pb::Usage {
        prompt_tokens: prompt,
        completion_tokens: completion,
        total_tokens: prompt + completion,
    }
}

fn finish_reason_to_proto(reason: &FinishReason) -> (proto: pb::FinishReason)
    ensures
        proto == wanted_reason(*reason),
{
    match reason {
        FinishReason::Stop(_) => pb::FinishReason::Stop,
        FinishReason::Repetition(_) => pb::FinishReason::Stop,
        FinishReason::Length => pb::FinishReason::Length,
        FinishReason::Abort => pb::FinishReason::Cancelled,
        FinishReason::Error => pb::FinishReason::Error,
    }
}

/// Whether a response is the last one of its request.
pub open spec fn is_terminal(response: ResponseView) -> bool {
    response.event matches Some(EventView::Finished { .. }) || response.event matches Some(
        EventView::Error { .. },
    )
}

/// An event that ends a generation is answered by one terminal response, which comes last and
/// carries the usage; any other event is answered by none.
pub proof fn only_the_last_response_is_terminal(event: DecodedTextEvent, request_id: Seq<char>)
    ensures
        ({
            let responses = wanted_responses(event, request_id);
            let ends = event matches DecodedTextEvent::TextDelta { finished: Some(_), .. };
            &&& ends ==> responses.len() > 0
            &&& forall|i: int|
                0 <= i < responses.len() ==> (is_terminal(#[trigger] responses[i]) == (ends && i
                    == responses.len() - 1) && (responses[i].usage is Some) == is_terminal(
                    responses[i],
                ) && responses[i].request_id == request_id)
        }),
{
}

/// The start of a generation is not told. A piece of output is told with its text and its tokens
/// where it has either, and the end with its reason, the number of tokens of the prompt and of
/// the output, and their sum.
pub proof fn events_are_told_as_they_are(
    responses: Seq<pb::GenerateResponse>,
    event: DecodedTextEvent,
    request_id: Seq<char>,
)
    requires
        response_views(responses) == wanted_responses(event, request_id),
        event_countable(event),
    ensures
        event is Start ==> responses.len() == 0,
        event matches DecodedTextEvent::TextDelta { delta, token_ids, finished, .. } ==> {
            let told = delta@.len() > 0 || token_ids@.len() > 0;
            let last = responses[responses.len() - 1];
            &&& responses.len() == (if told {
                1int
            } else {
                0
            }) + (if finished is Some {
                1int
            } else {
                0
            })
            &&& told ==> responses[0].request_id@ == request_id && responses[0].usage is None && (
            responses[0].event matches Some(pb::Event::Token(output)) && output.text@ == delta@
                && output.token_ids@ == token_ids@)
            &&& finished matches Some(end) ==> {
                &&& last.request_id@ == request_id
                &&& last.event matches Some(pb::Event::Finished(told)) && told.message@.len() == 0
                    && {
                    &&& told.reason == pb::FinishReason::Length <==> end.finish_reason is Length
                    &&& told.reason == pb::FinishReason::Cancelled <==> end.finish_reason is Abort
                    &&& told.reason == pb::FinishReason::Error <==> end.finish_reason is Error
                }
                &&& last.usage matches Some(usage) && {
                    &&& end.usage.prompt_token_count <= 4294967295 ==> usage.prompt_tokens
                        == end.usage.prompt_token_count
                    &&& end.usage.output_token_count <= 4294967295 ==> usage.completion_tokens
                        == end.usage.output_token_count
                    &&& usage.total_tokens == usage.prompt_tokens + usage.completion_tokens
                }
            }
        },
{
    assert(response_views(responses).len() == responses.len());
    assert forall|i: int| 0 <= i < responses.len() implies response_views(responses)[i]
        == #[trigger] responses[i]@ by {}
    if responses.len() > 0 {
        assert(responses[0]@ == wanted_responses(event, request_id)[0]);
        assert(responses[responses.len() - 1]@ == wanted_responses(
            event,
            request_id,
        )[responses.len() - 1]);
    }
}

} // verus!
