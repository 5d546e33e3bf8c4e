//! Generation responses.

use crate::engine::{WireArrayData, WireTensor};
use crate::generation::{
    DecodedLogprobs, DecodedPositionLogprobs, DecodedPromptLogprobs, DecodedTokenLogprob,
    FinishReason, Finished, StopReason,
};
use crate::grpc::pb;
use crate::json::{copy_members, members_of, JsonValue};
use crate::lists::copied;
use crate::numbers::{low_32, low_u32, zero, Float32};
use crate::text::no_text;
use vstd::prelude::*;

verus! {

/// What a response is to carry.
#[derive(Clone, Copy, Debug, PartialEq, Eq, Structural)]
pub struct ResponseOpts {
    pub prompt_token_ids: bool,
    pub prompt_logprobs: bool,
    pub output_text: bool,
    pub output_token_ids: bool,
    pub output_logprobs: bool,
}

impl Default for ResponseOpts {
    fn default() -> (opts: ResponseOpts)
        ensures
            opts == (ResponseOpts {
                prompt_token_ids: false,
                prompt_logprobs: false,
                output_text: false,
                output_token_ids: false,
                output_logprobs: false,
            }),
    {
        ResponseOpts {
            prompt_token_ids: false,
            prompt_logprobs: false,
            output_text: false,
            output_token_ids: false,
            output_logprobs: false,
        }
    }
}

/// What a request wants to see; text comes unless it is declined.
pub open spec fn wanted_opts(response: Option<pb::ResponseOptions>) -> ResponseOpts {
    match response {
        Some(r) => ResponseOpts {
            prompt_token_ids: r.prompt_token_ids,
            prompt_logprobs: r.prompt_logprobs,
            output_text: r.output_text != Some(false),
            output_token_ids: r.output_token_ids,
            output_logprobs: r.output_logprobs,
        },
        None => ResponseOpts {
            prompt_token_ids: false,
            prompt_logprobs: false,
            output_text: true,
            output_token_ids: false,
            output_logprobs: false,
        },
    }
}

impl ResponseOpts {
    pub fn from_proto(r: Option<&pb::ResponseOptions>) -> (opts: ResponseOpts)
        ensures
            r matches Some(r) ==> opts == wanted_opts(Some(*r)),
            r is None ==> opts == wanted_opts(None),
    {
        match r {
            Some(r) => ResponseOpts {
                prompt_token_ids: r.prompt_token_ids,
                prompt_logprobs: r.prompt_logprobs,
                output_text: match r.output_text {
                    Some(wanted) => wanted,
                    None => true,
                },
                output_token_ids: r.output_token_ids,
                output_logprobs: r.output_logprobs,
            },
            None => {
                let mut opts = ResponseOpts::default();
                opts.output_text = true;
                opts
            },
        }
    }
}

/// The score of the sampled token, or zero where a position has no entries.
pub open spec fn sampled_score(position: DecodedPositionLogprobs) -> Float32 {
    if position.entries@.len() > 0 {
        position.entries@[0].logprob
    } else {
        zero()
    }
}

/// The rank of the sampled token, or zero where a position has no entries.
pub open spec fn sampled_rank(position: DecodedPositionLogprobs) -> u32 {
    if position.entries@.len() > 0 {
        position.entries@[0].rank
    } else {
        0
    }
}

/// The entries that are not about the token `sampled`.
pub open spec fn alternatives(entries: Seq<DecodedTokenLogprob>, sampled: u32) -> Seq<
    pb::TokenInfo,
>
    decreases entries.len(),
{
    if entries.len() == 0 {
        Seq::empty()
    } else {
        let before = alternatives(entries.drop_last(), sampled);
        let entry = entries.last();
        if entry.token_id == sampled {
            before
        } else {
            before.push(
                pb::TokenInfo { id: entry.token_id, logprob: entry.logprob, rank: entry.rank },
            )
        }
    }
}

/// The tokens that were not sampled at a position.
pub open spec fn position_candidates(position: DecodedPositionLogprobs) -> Seq<pb::TokenInfo> {
    let entries = position.entries@;
    if entries.len() == 0 {
        Seq::empty()
    } else {
        alternatives(entries.skip(1), entries[0].token_id)
    }
}

pub open spec fn candidate_lists(candidates: Seq<pb::CandidateTokenInfo>) -> Seq<
    Seq<pb::TokenInfo>,
> {
    Seq::new(candidates.len(), |i: int| candidates[i].tokens@)
}

/// Scores, ranks and candidates of a row of positions, one of each for every position.
pub struct Scores {
    pub logprobs: Seq<Float32>,
    pub ranks: Seq<u32>,
    pub candidates: Seq<Seq<pb::TokenInfo>>,
}

pub open spec fn scores(positions: Seq<DecodedPositionLogprobs>) -> Scores {
    Scores {
        logprobs: Seq::new(positions.len(), |i: int| sampled_score(positions[i])),
        ranks: Seq::new(positions.len(), |i: int| sampled_rank(positions[i])),
        candidates: Seq::new(positions.len(), |i: int| position_candidates(positions[i])),
    }
}

pub open spec fn no_scores() -> Scores {
    Scores { logprobs: Seq::empty(), ranks: Seq::empty(), candidates: Seq::empty() }
}

/// The scores of a prompt, whose first token is given zeros.
pub open spec fn prompt_scores(prompt: DecodedPromptLogprobs) -> Scores {
    let rest = scores(prompt.scored_positions@);
    Scores {
        logprobs: seq![zero()] + rest.logprobs,
        ranks: seq![0u32] + rest.ranks,
        candidates: seq![Seq::<pb::TokenInfo>::empty()] + rest.candidates,
    }
}

pub open spec fn carried_scores(
    logprobs: Vec<Float32>,
    ranks: Vec<u32>,
    candidates: Vec<pb::CandidateTokenInfo>,
) -> Scores {
    Scores { logprobs: logprobs@, ranks: ranks@, candidates: candidate_lists(candidates@) }
}

fn position_alternatives(entries: &Vec<DecodedTokenLogprob>) -> (tokens: Vec<pb::TokenInfo>)
    requires
        entries@.len() > 0,
    ensures
        tokens@ == alternatives(entries@.skip(1), entries@[0].token_id),
{
    let sampled: u32 = entries[0].token_id;
    let ghost others = entries@.skip(1);
    let mut tokens: Vec<pb::TokenInfo> = Vec::new();
    assert(others.take(0) =~= Seq::empty());
    for i in 1..entries.len()
        invariant
            entries@.len() > 0,
            others == entries@.skip(1),
            tokens@ == alternatives(others.take(i - 1), sampled),
    {
        let entry = &entries[i];
        assert(others.take(i as int).drop_last() =~= others.take(i - 1));
        assert(others.take(i as int).last() == entries@[i as int]);
        if entry.token_id != sampled {
            tokens.push(
                pb::TokenInfo { id: entry.token_id, logprob: entry.logprob, rank: entry.rank },
            );
        }
    }
    assert(others.take(entries@.len() - 1) =~= others);
    tokens
}

/// Scores, ranks and candidates of a row of positions, as parallel lists. The sampled token is
/// not repeated among the candidates.
fn positions_to_proto(positions: &Vec<DecodedPositionLogprobs>) -> (carried: (
    Vec<Float32>,
    Vec<u32>,
    Vec<pb::CandidateTokenInfo>,
))
    ensures
        carried_scores(carried.0, carried.1, carried.2) == scores(positions@),
{
    let mut logprobs: Vec<Float32> = Vec::new();
    let mut ranks: Vec<u32> = Vec::new();
    let mut candidates: Vec<pb::CandidateTokenInfo> = Vec::new();
    for i in 0..positions.len()
        invariant
            logprobs@.len() == i,
            ranks@.len() == i,
            candidates@.len() == i,
            forall|j: int| 0 <= j < i ==> logprobs@[j] == sampled_score(#[trigger] positions@[j]),
            forall|j: int| 0 <= j < i ==> ranks@[j] == sampled_rank(#[trigger] positions@[j]),
            forall|j: int|
                0 <= j < i ==> (#[trigger] candidates@[j]).tokens@ == position_candidates(
                    positions@[j],
                ),
    {
        let entries = &positions[i].entries;
        if entries.len() > 0 {
            logprobs.push(entries[0].logprob);
            ranks.push(entries[0].rank);
            candidates.push(pb::CandidateTokenInfo { tokens: position_alternatives(entries) });
        } else {
            logprobs.push(Float32::zero());
            ranks.push(0);
            candidates.push(pb::CandidateTokenInfo { tokens: Vec::new() });
        }
        assert(candidates@[i as int].tokens@ =~= position_candidates(positions@[i as int]));
    }
    assert(logprobs@ =~= scores(positions@).logprobs);
    assert(ranks@ =~= scores(positions@).ranks);
    assert(candidate_lists(candidates@) =~= scores(positions@).candidates);
    (logprobs, ranks, candidates)
}

fn output_logprobs_to_proto(lp: &DecodedLogprobs) -> (carried: (
    Vec<Float32>,
    Vec<u32>,
    Vec<pb::CandidateTokenInfo>,
))
    ensures
        carried_scores(carried.0, carried.1, carried.2) == scores(lp.positions@),
{
    positions_to_proto(&lp.positions)
}

fn prompt_logprobs_to_proto(plp: &DecodedPromptLogprobs) -> (carried: (
    Vec<Float32>,
    Vec<u32>,
    Vec<pb::CandidateTokenInfo>,
))
    ensures
        carried_scores(carried.0, carried.1, carried.2) == prompt_scores(*plp),
{
    let (mut logprobs, mut ranks, mut candidates) = positions_to_proto(&plp.scored_positions);
    let ghost rest = carried_scores(logprobs, ranks, candidates);
    logprobs.insert(0, Float32::zero());
    ranks.insert(0, 0);
    candidates.insert(0, pb::CandidateTokenInfo { tokens: Vec::new() });
    assert(logprobs@ =~= seq![zero()] + rest.logprobs);
    assert(ranks@ =~= seq![0u32] + rest.ranks);
    assert(candidates@[0].tokens@ =~= Seq::<pb::TokenInfo>::empty());
    assert(candidate_lists(candidates@) =~= seq![Seq::<pb::TokenInfo>::empty()] + rest.candidates);
    (logprobs, ranks, candidates)
}

pub open spec fn wanted_prompt_scores(
    prompt_logprobs: Option<&DecodedPromptLogprobs>,
    opts: ResponseOpts,
) -> Scores {
    match prompt_logprobs {
        Some(prompt) if opts.prompt_logprobs => prompt_scores(*prompt),
        _ => no_scores(),
    }
}

pub fn to_prompt_info(
    prompt_token_ids: &[u32],
    prompt_logprobs: Option<&DecodedPromptLogprobs>,
    opts: &ResponseOpts,
) -> (info: pb::PromptInfo)
    ensures
        info.num_prompt_tokens == low_32(prompt_token_ids@.len()),
        info.token_ids@ == if opts.prompt_token_ids {
            prompt_token_ids@
        } else {
            Seq::empty()
        },
        carried_scores(info.logprobs, info.ranks, info.candidate_tokens) == wanted_prompt_scores(
            prompt_logprobs,
            *opts,
        ),
{
    let token_ids = if opts.prompt_token_ids {
        copied(prompt_token_ids)
    } else {
        Vec::new()
    };
    let (logprobs, ranks, candidate_tokens) = match prompt_logprobs {
        Some(plp) if opts.prompt_logprobs => prompt_logprobs_to_proto(plp),
        _ => {
            let none: Vec<pb::CandidateTokenInfo> = Vec::new();
            assert(candidate_lists(none@) =~= Seq::empty());
            (Vec::new(), Vec::new(), none)
        },
    };
    pb::PromptInfo {
        num_prompt_tokens: low_u32(prompt_token_ids.len()),
        token_ids,
        logprobs,
        ranks,
        candidate_tokens,
    }
}

pub open spec fn shape_of(shape: Seq<usize>) -> Seq<u64> {
    Seq::new(shape.len(), |i: int| shape[i] as u64)
}

/// Whether `carried` is the tensor `tensor`, whose bytes stand in place.
pub open spec fn tensor_carried(carried: pb::RoutedExpertsTensor, tensor: WireTensor) -> bool {
    &&& carried.dtype == tensor.dtype
    &&& carried.shape@ == shape_of(tensor.shape@)
    &&& tensor.data matches WireArrayData::RawView(data) && carried.data@ == data@
}

fn routed_experts_to_proto(tensor: &WireTensor) -> (carried: pb::RoutedExpertsTensor)
    requires
        tensor.data is RawView,
    ensures
        tensor_carried(carried, *tensor),
{
    let data = match &tensor.data {
        WireArrayData::RawView(data) => copied(data.as_slice()),
        WireArrayData::AuxIndex(_) => Vec::new(),
    };
    let mut shape: Vec<u64> = Vec::new();
    for i in 0..tensor.shape.len()
        invariant
            shape@ == shape_of(tensor.shape@.take(i as int)),
    {
        shape.push(tensor.shape[i] as u64);
        assert(shape@ =~= shape_of(tensor.shape@.take(i + 1)));
    }
    assert(tensor.shape@.take(tensor.shape@.len() as int) =~= tensor.shape@);
    pb::RoutedExpertsTensor { dtype: tensor.dtype.clone(), shape, data }
}

pub open spec fn wanted_finish_reason(reason: FinishReason) -> pb::FinishReason {
    match reason {
        FinishReason::Stop(_) => pb::FinishReason::Stop,
        FinishReason::Length => pb::FinishReason::Length,
        _ => pb::FinishReason::Aborted,
    }
}

/// What made a generation stop. A stop without a reason of its own came from the
/// end-of-sequence token, which is the last one of the output.
pub open spec fn wanted_stop_reason(reason: FinishReason, token_ids: Seq<u32>) -> Option<
    pb::StopReason,
> {
    match reason {
        FinishReason::Stop(Some(StopReason::TokenId(id))) => Some(pb::StopReason::StopTokenId(id)),
        FinishReason::Stop(Some(StopReason::Text(text))) => Some(pb::StopReason::StopString(text)),
        FinishReason::Stop(None) => if token_ids.len() > 0 {
            Some(pb::StopReason::EosTokenId(token_ids.last()))
        } else {
            None
        },
        _ => None,
    }
}

/// Whether `fields` are those of `params`, which only an object has.
pub open spec fn fields_carried(
    fields: Option<Vec<(String, JsonValue)>>,
    params: Option<JsonValue>,
) -> bool {
    match params {
        Some(JsonValue::Object(members)) => fields matches Some(fields) && members_of(fields@)
            == members_of(members@),
        _ => fields is None,
    }
}

pub open spec fn finish_info_set(
    info: pb::FinishInfo,
    finished: Finished,
    token_ids: Seq<u32>,
) -> bool {
    &&& info.num_output_tokens == low_32(finished.usage.output_token_count as nat)
    &&& info.finish_reason == wanted_finish_reason(finished.finish_reason)
    &&& info.stop_reason == wanted_stop_reason(finished.finish_reason, token_ids)
    &&& fields_carried(info.kv_transfer_params, finished.kv_transfer_params)
}

pub fn json_object_fields(value: &Option<JsonValue>) -> (fields: Option<Vec<(String, JsonValue)>>)
    ensures
        fields_carried(fields, *value),
{
    match value {
        Some(JsonValue::Object(members)) => Some(copy_members(members)),
        _ => None,
    }
}

pub fn to_finish_info(finished: &Finished, token_ids: &[u32]) -> (info: pb::FinishInfo)
    ensures
        finish_info_set(info, *finished, token_ids@),
{
    let (finish_reason, stop_reason) = match &finished.finish_reason {
        FinishReason::Stop(reason) => {
            let stop_reason = match reason {
                Some(StopReason::TokenId(id)) => Some(pb::StopReason::StopTokenId(*id)),
                Some(StopReason::Text(text)) => Some(pb::StopReason::StopString(text.clone())),
                None => if token_ids.len() > 0 {
                    Some(pb::StopReason::EosTokenId(token_ids[token_ids.len() - 1]))
                } else {
                    None
                },
            };
            (pb::FinishReason::Stop, stop_reason)
        },
        FinishReason::Length => (pb::FinishReason::Length, None),
        _ => (pb::FinishReason::Aborted, None),
    };
    pb::FinishInfo {
        num_output_tokens: low_u32(finished.usage.output_token_count),
        finish_reason,
        stop_reason,
        kv_transfer_params: json_object_fields(&finished.kv_transfer_params),
    }
}

/// Whether the routed experts of a finished generation, if there are any, stand in place.
pub open spec fn experts_in_place(finished: Option<&Finished>) -> bool {
    finished matches Some(finished) ==> finished.routed_experts matches Some(tensor)
        ==> tensor.data is RawView
}

pub open spec fn wanted_output_scores(
    logprobs: Option<&DecodedLogprobs>,
    opts: ResponseOpts,
) -> Scores {
    match logprobs {
        Some(lp) if opts.output_logprobs => scores(lp.positions@),
        _ => no_scores(),
    }
}

/// Whether `output` is what a piece of output comes to.
pub open spec fn sequence_output_set(
    output: pb::SequenceOutput,
    delta: Seq<char>,
    token_ids: Seq<u32>,
    logprobs: Option<&DecodedLogprobs>,
    finished: Option<&Finished>,
    opts: ResponseOpts,
) -> bool {
    &&& output.index == 0
    &&& output.text@ == if opts.output_text {
        delta
    } else {
        Seq::empty()
    }
    &&& output.num_tokens == low_32(token_ids.len())
    &&& output.token_ids@ == if opts.output_token_ids {
        token_ids
    } else {
        Seq::empty()
    }
    &&& carried_scores(output.logprobs, output.ranks, output.candidate_tokens)
        == wanted_output_scores(logprobs, opts)
    &&& match finished {
        Some(finished) => output.finish_info matches Some(info) && finish_info_set(
            info,
            *finished,
            token_ids,
        ),
        None => output.finish_info is None,
    }
    &&& match finished {
        Some(Finished { routed_experts: Some(tensor), .. }) => output.routed_experts matches Some(
            carried,
        ) && tensor_carried(carried, *tensor),
        _ => output.routed_experts is None,
    }
}

pub fn to_sequence_output(
    delta: &str,
    token_ids: &[u32],
    logprobs: Option<&DecodedLogprobs>,
    finished: Option<&Finished>,
    opts: &ResponseOpts,
) -> (output: pb::SequenceOutput)
    requires
        experts_in_place(finished),
    ensures
        sequence_output_set(output, delta@, token_ids@, logprobs, finished, *opts),
{
    let (lp_values, rank_values, candidates) = match logprobs {
        Some(lp) if opts.output_logprobs => output_logprobs_to_proto(lp),
        _ => {
            let none: Vec<pb::CandidateTokenInfo> = Vec::new();
            assert(candidate_lists(none@) =~= Seq::empty());
            (Vec::new(), Vec::new(), none)
        },
    };
    let text = if opts.output_text {
        delta.to_string()
    } else {
        no_text()
    };
    let finish_info = match finished {
        Some(finished) => Some(to_finish_info(finished, token_ids)),
        None => None,
    };
    let routed_experts = match finished {
        Some(finished) => match &finished.routed_experts {
            Some(tensor) => Some(routed_experts_to_proto(tensor)),
            None => None,
        },
        None => None,
    };
    pb::SequenceOutput {
        index: 0,
        text,
        num_tokens: low_u32(token_ids.len()),
        token_ids: if opts.output_token_ids {
            copied(token_ids)
        } else {
            Vec::new()
        },
        logprobs: lp_values,
        ranks: rank_values,
        candidate_tokens: candidates,
        finish_info,
        routed_experts,
    }
}

proof fn lemma_alternatives_exclude(entries: Seq<DecodedTokenLogprob>, sampled: u32)
    ensures
        forall|i: int|
            0 <= i < alternatives(entries, sampled).len() ==> (#[trigger] alternatives(
                entries,
                sampled,
            )[i]).id != sampled,
    decreases entries.len(),
{
    if entries.len() > 0 {
        let before = alternatives(entries.drop_last(), sampled);
        lemma_alternatives_exclude(entries.drop_last(), sampled);
        assert forall|i: int| 0 <= i < alternatives(entries, sampled).len() implies (
        #[trigger] alternatives(entries, sampled)[i]).id != sampled by {
            if i < before.len() {
                assert(alternatives(entries, sampled)[i] == before[i]);
            }
        }
    }
}

/// The sampled token is never among the candidates of its position.
pub proof fn sampled_token_is_no_candidate(position: DecodedPositionLogprobs)
    requires
        position.entries@.len() > 0,
    ensures
        forall|i: int|
            0 <= i < position_candidates(position).len() ==> (#[trigger] position_candidates(
                position,
            )[i]).id != position.entries@[0].token_id,
{
    lemma_alternatives_exclude(position.entries@.skip(1), position.entries@[0].token_id);
}

/// Scores, ranks and candidates run in parallel: there is one of each for every position, and
/// for a prompt one more, for its first token.
pub proof fn scores_run_in_parallel(
    positions: Seq<DecodedPositionLogprobs>,
    prompt: DecodedPromptLogprobs,
)
    ensures
        scores(positions).logprobs.len() == positions.len(),
        scores(positions).ranks.len() == positions.len(),
        scores(positions).candidates.len() == positions.len(),
        prompt_scores(prompt).logprobs.len() == prompt.scored_positions@.len() + 1,
        prompt_scores(prompt).ranks.len() == prompt.scored_positions@.len() + 1,
        prompt_scores(prompt).candidates.len() == prompt.scored_positions@.len() + 1,
{
}

// Laws.

/// A response carries what its options ask for, each under its own name; text comes unless it is
/// declined.
pub proof fn options_are_those_of_the_request(response: Option<pb::ResponseOptions>)
    ensures
        response matches Some(r) ==> {
            let opts = wanted_opts(response);
            &&& opts.prompt_token_ids == r.prompt_token_ids
            &&& opts.prompt_logprobs == r.prompt_logprobs
            &&& opts.output_token_ids == r.output_token_ids
            &&& opts.output_logprobs == r.output_logprobs
            &&& r.output_text is None ==> opts.output_text
            &&& r.output_text matches Some(wanted) ==> opts.output_text == wanted
        },
        response is None ==> {
            let opts = wanted_opts(response);
            opts.output_text && !opts.prompt_token_ids && !opts.prompt_logprobs
                && !opts.output_token_ids && !opts.output_logprobs
        },
{
}

proof fn lemma_alternatives_filter(
    entries: Seq<DecodedTokenLogprob>,
    sampled: u32,
    other: spec_fn(DecodedTokenLogprob) -> bool,
)
    requires
        forall|entry: DecodedTokenLogprob| #[trigger] other(entry) == (entry.token_id != sampled),
    ensures
        ({
            let kept = entries.filter(other);
            let told = alternatives(entries, sampled);
            &&& told.len() == kept.len()
            &&& forall|i: int|
                0 <= i < kept.len() ==> (#[trigger] told[i]).id == kept[i].token_id
                    && told[i].logprob == kept[i].logprob && told[i].rank == kept[i].rank
        }),
    decreases entries.len(),
{
    reveal(Seq::filter);
    if entries.len() > 0 {
        lemma_alternatives_filter(entries.drop_last(), sampled, other);
        let before = alternatives(entries.drop_last(), sampled);
        let kept = entries.filter(other);
        let told = alternatives(entries, sampled);
        assert(other(entries.last()) == (entries.last().token_id != sampled));
        assert forall|i: int| 0 <= i < kept.len() implies (#[trigger] told[i]).id
            == kept[i].token_id && told[i].logprob == kept[i].logprob && told[i].rank
            == kept[i].rank by {
            if i < before.len() {
                assert(told[i] == before[i]);
            }
        }
    }
}

/// A position gives the score and the rank of its first entry, which is about the sampled token.
/// The further entries about other tokens are its candidates, all of them and in their order. A
/// position without entries gives zeros and no candidates.
pub proof fn positions_give_their_entries(
    position: DecodedPositionLogprobs,
    other: spec_fn(DecodedTokenLogprob) -> bool,
)
    requires
        forall|entry: DecodedTokenLogprob|
            position.entries@.len() > 0 ==> #[trigger] other(entry) == (entry.token_id
                != position.entries@[0].token_id),
    ensures
        position.entries@.len() == 0 ==> sampled_score(position).bits == 0 && sampled_score(
            position,
        ).widened == 0 && sampled_rank(position) == 0 && position_candidates(position).len() == 0,
        position.entries@.len() > 0 ==> {
            let entries = position.entries@;
            let kept = entries.skip(1).filter(other);
            let told = position_candidates(position);
            &&& sampled_score(position) == entries[0].logprob
            &&& sampled_rank(position) == entries[0].rank
            &&& told.len() == kept.len()
            &&& forall|i: int|
                0 <= i < kept.len() ==> (#[trigger] told[i]).id == kept[i].token_id
                    && told[i].logprob == kept[i].logprob && told[i].rank == kept[i].rank
        },
{
    if position.entries@.len() > 0 {
        lemma_alternatives_filter(
            position.entries@.skip(1),
            position.entries@[0].token_id,
            other,
        );
    }
}

/// The scores of output stand position by position: at each place, what that position gives. The
/// scores of a prompt stand one place further, behind zeros and no candidates for the first
/// token. Scores that are not asked for, or are not there, are left out altogether.
pub proof fn scores_stand_at_their_positions(
    logprobs: Vec<Float32>,
    ranks: Vec<u32>,
    candidates: Vec<pb::CandidateTokenInfo>,
    output: Option<&DecodedLogprobs>,
    prompt: Option<&DecodedPromptLogprobs>,
    opts: ResponseOpts,
    i: int,
)
    ensures
        carried_scores(logprobs, ranks, candidates) == wanted_output_scores(output, opts) ==> {
            let there = opts.output_logprobs && output is Some;
            &&& !there ==> logprobs@.len() == 0 && ranks@.len() == 0 && candidates@.len() == 0
            &&& there ==> {
                let positions = output->Some_0.positions@;
                &&& logprobs@.len() == positions.len() && ranks@.len() == positions.len()
                    && candidates@.len() == positions.len()
                &&& 0 <= i < positions.len() ==> logprobs@[i] == sampled_score(positions[i])
                    && ranks@[i] == sampled_rank(positions[i]) && candidates@[i].tokens@
                    == position_candidates(positions[i])
            }
        },
        carried_scores(logprobs, ranks, candidates) == wanted_prompt_scores(prompt, opts) ==> {
            let there = opts.prompt_logprobs && prompt is Some;
            &&& !there ==> logprobs@.len() == 0 && ranks@.len() == 0 && candidates@.len() == 0
            &&& there ==> {
                let positions = prompt->Some_0.scored_positions@;
                &&& logprobs@.len() == positions.len() + 1 && ranks@.len() == positions.len() + 1
                    && candidates@.len() == positions.len() + 1
                &&& logprobs@[0].bits == 0 && logprobs@[0].widened == 0
                &&& ranks@[0] == 0
                &&& candidates@[0].tokens@.len() == 0
                &&& 0 <= i < positions.len() ==> logprobs@[i + 1] == sampled_score(positions[i])
                    && ranks@[i + 1] == sampled_rank(positions[i]) && candidates@[i + 1].tokens@
                    == position_candidates(positions[i])
            }
        },
{
    let carried = carried_scores(logprobs, ranks, candidates);
    assert(carried.candidates.len() == candidates@.len());
    assert(carried.logprobs == logprobs@ && carried.ranks == ranks@);
    if 0 <= i < candidates@.len() {
        assert(carried.candidates[i] == candidates@[i].tokens@);
    }
    if 0 <= i + 1 < candidates@.len() {
        assert(carried.candidates[i + 1] == candidates@[i + 1].tokens@);
    }
    if 0 < candidates@.len() {
        assert(carried.candidates[0] == candidates@[0].tokens@);
    }
}

/// The end of a generation tells how many tokens were written, why it ended, what it stopped at
/// and where its KV cache is. Without a reason of its own, a stop came from the last token.
pub proof fn ends_tell_why(info: pb::FinishInfo, finished: Finished, token_ids: Seq<u32>)
    requires
        finish_info_set(info, finished, token_ids),
    ensures
        finished.usage.output_token_count <= 4294967295 ==> info.num_output_tokens
            == finished.usage.output_token_count,
        info.finish_reason == pb::FinishReason::Stop <==> finished.finish_reason is Stop,
        info.finish_reason == pb::FinishReason::Length <==> finished.finish_reason is Length,
        match finished.finish_reason {
            FinishReason::Stop(Some(StopReason::TokenId(id))) => info.stop_reason == Some(
                pb::StopReason::StopTokenId(id),
            ),
            FinishReason::Stop(Some(StopReason::Text(text))) => info.stop_reason matches Some(
                pb::StopReason::StopString(same),
            ) && same@ == text@,
            FinishReason::Stop(None) => if token_ids.len() > 0 {
                info.stop_reason == Some(
                    pb::StopReason::EosTokenId(token_ids[token_ids.len() - 1]),
                )
            } else {
                info.stop_reason is None
            },
            _ => info.stop_reason is None,
        },
        info.kv_transfer_params is Some <==> (finished.kv_transfer_params matches Some(
            JsonValue::Object(_),
        )),
        finished.kv_transfer_params matches Some(JsonValue::Object(members)) ==> members_of(
            info.kv_transfer_params->Some_0@,
        ) == members_of(members@),
{
}

/// A piece of output carries its text and its tokens where they are asked for, always the number
/// of its tokens, and its end and the routes of its experts where it has them.
pub proof fn output_carries_the_piece(
    output: pb::SequenceOutput,
    delta: Seq<char>,
    token_ids: Seq<u32>,
    logprobs: Option<&DecodedLogprobs>,
    finished: Option<&Finished>,
    opts: ResponseOpts,
    i: int,
)
    requires
        sequence_output_set(output, delta, token_ids, logprobs, finished, opts),
    ensures
        output.index == 0,
        opts.output_text ==> output.text@ == delta,
        !opts.output_text ==> output.text@.len() == 0,
        opts.output_token_ids ==> output.token_ids@ == token_ids,
        !opts.output_token_ids ==> output.token_ids@.len() == 0,
        token_ids.len() <= 4294967295 ==> output.num_tokens == token_ids.len(),
        finished is Some <==> output.finish_info is Some,
        finished matches Some(finished) ==> finish_info_set(
            output.finish_info->Some_0,
            *finished,
            token_ids,
        ),
        output.routed_experts is Some <==> (finished matches Some(finished)
            && finished.routed_experts is Some),
        finished matches Some(finished) ==> finished.routed_experts matches Some(tensor) ==> {
            let carried = output.routed_experts->Some_0;
            &&& carried.dtype@ == tensor.dtype@
            &&& carried.shape@.len() == tensor.shape@.len()
            &&& 0 <= i < tensor.shape@.len() ==> carried.shape@[i] == tensor.shape@[i]
            &&& tensor.data matches WireArrayData::RawView(data) && carried.data@ == data@
        },
{
}

/// A piece of output carries the score, the rank and the candidates of each of its positions,
/// in order, where scores are asked for.
pub proof fn output_carries_its_scores(
    output: pb::SequenceOutput,
    delta: Seq<char>,
    token_ids: Seq<u32>,
    logprobs: Option<&DecodedLogprobs>,
    finished: Option<&Finished>,
    opts: ResponseOpts,
    i: int,
)
    requires
        sequence_output_set(output, delta, token_ids, logprobs, finished, opts),
    ensures
        !(opts.output_logprobs && logprobs is Some) ==> output.logprobs@.len() == 0
            && output.ranks@.len() == 0 && output.candidate_tokens@.len() == 0,
        opts.output_logprobs ==> (logprobs matches Some(scored) ==> {
            &&& output.logprobs@.len() == scored.positions@.len()
            &&& output.ranks@.len() == scored.positions@.len()
            &&& output.candidate_tokens@.len() == scored.positions@.len()
            &&& 0 <= i < scored.positions@.len() ==> output.logprobs@[i] == sampled_score(
                scored.positions@[i],
            ) && output.ranks@[i] == sampled_rank(scored.positions@[i])
                && output.candidate_tokens@[i].tokens@ == position_candidates(
                scored.positions@[i],
            )
        }),
{
    scores_stand_at_their_positions(
        output.logprobs,
        output.ranks,
        output.candidate_tokens,
        logprobs,
        None,
        opts,
        i,
    );
}

} // verus!
