//! Engine-specific sampling arguments, which a request carries as JSON.

use crate::json::{
    find_member, items_of, json_from_slice, json_slice_parse, lemma_member_index_found,
    member_index, members_of, names_once, Json, JsonValue,
};
use crate::status::{
    invalid_argument, refusal, resource_exhausted, Code, Status, StatusView,
};
use vstd::prelude::*;
use vstd::utf8::encode_utf8;

verus! {

pub const MAX_VLLM_XARGS_BYTES: usize = 65_536;

pub const MAX_VLLM_XARGS_KEYS: usize = 64;

pub const MAX_VLLM_XARGS_DEPTH: usize = 16;

pub const MAX_VLLM_XARGS_NODES: usize = 1024;

pub const MAX_KEY_BYTES: usize = 256;

/// How many values were counted, and the refusal that ended the count.
pub struct Budget {
    pub nodes: nat,
    pub refusal: Option<StatusView>,
}

/// The count over one value, `depth` levels down, after `nodes` others.
pub open spec fn budget(value: Json, depth: nat, nodes: nat) -> Budget
    decreases MAX_VLLM_XARGS_DEPTH + 2 - depth, 0nat,
{
    if depth > MAX_VLLM_XARGS_DEPTH {
        Budget {
            nodes,
            refusal: Some(resource_exhausted("vllm_xargs_json nesting exceeds 16 levels"@)),
        }
    } else if nodes + 1 > MAX_VLLM_XARGS_NODES {
        Budget {
            nodes: nodes + 1,
            refusal: Some(resource_exhausted("vllm_xargs_json contains too many values"@)),
        }
    } else {
        match value {
            Json::Array(items) => items_budget(items, depth + 1, nodes + 1),
            Json::Object(members) => members_budget(members, depth + 1, nodes + 1),
            _ => Budget { nodes: nodes + 1, refusal: None },
        }
    }
}

/// The count over the values of an array.
pub open spec fn items_budget(items: Seq<Json>, depth: nat, nodes: nat) -> Budget
    decreases MAX_VLLM_XARGS_DEPTH + 2 - depth, items.len() + 1,
{
    if items.len() == 0 {
        Budget { nodes, refusal: None }
    } else {
        let before = items_budget(items.drop_last(), depth, nodes);
        if before.refusal is Some {
            before
        } else {
            budget(items.last(), depth, before.nodes)
        }
    }
}

/// The count over the members of an object.
pub open spec fn members_budget(
    members: Seq<(Seq<char>, Json)>,
    depth: nat,
    nodes: nat,
) -> Budget
    decreases MAX_VLLM_XARGS_DEPTH + 2 - depth, members.len() + 1,
{
    if members.len() == 0 {
        Budget { nodes, refusal: None }
    } else {
        let before = members_budget(members.drop_last(), depth, nodes);
        if before.refusal is Some {
            before
        } else if encode_utf8(members.last().0).len() > MAX_KEY_BYTES {
            Budget {
                nodes: before.nodes,
                refusal: Some(resource_exhausted("vllm_xargs_json key exceeds 256 bytes"@)),
            }
        } else {
            budget(members.last().1, depth, before.nodes)
        }
    }
}

pub open spec fn xargs_object_refusal(members: Seq<(Seq<char>, Json)>) -> Option<StatusView> {
    if members.len() > MAX_VLLM_XARGS_KEYS {
        Some(resource_exhausted("vllm_xargs_json contains too many keys"@))
    } else if member_index(members, "kv_transfer_params"@) is Some {
        Some(
            invalid_argument(
                "vllm_xargs_json key kv_transfer_params is reserved for typed KV parameters"@,
            ),
        )
    } else {
        budget(Json::Object(members), 0, 0).refusal
    }
}

/// The refusal of arguments that were parsed, or that could not be.
pub open spec fn parsed_xargs_refusal(parsed: Result<Json, Seq<char>>) -> Option<StatusView> {
    match parsed {
        Err(error) => Some(
            invalid_argument("vllm_xargs_json must be a JSON object: "@ + error),
        ),
        Ok(Json::Object(members)) => xargs_object_refusal(members),
        Ok(_) => Some(invalid_argument("vllm_xargs_json must be a JSON object"@)),
    }
}

pub open spec fn xargs_refusal(raw: Seq<u8>) -> Option<StatusView> {
    if raw.len() > MAX_VLLM_XARGS_BYTES {
        Some(resource_exhausted("vllm_xargs_json exceeds 64 KiB"@))
    } else {
        parsed_xargs_refusal(json_slice_parse(raw))
    }
}

proof fn lemma_items_budget_prefix(items: Seq<Json>, n: int, depth: nat, nodes: nat)
    requires
        0 <= n <= items.len(),
        items_budget(items.take(n), depth, nodes).refusal is Some,
    ensures
        items_budget(items, depth, nodes) == items_budget(items.take(n), depth, nodes),
    decreases items.len() - n,
{
    if n < items.len() {
        assert(items.take(n + 1).drop_last() =~= items.take(n));
        lemma_items_budget_prefix(items, n + 1, depth, nodes);
    } else {
        assert(items.take(n) =~= items);
    }
}

proof fn lemma_members_budget_prefix(
    members: Seq<(Seq<char>, Json)>,
    n: int,
    depth: nat,
    nodes: nat,
)
    requires
        0 <= n <= members.len(),
        members_budget(members.take(n), depth, nodes).refusal is Some,
    ensures
        members_budget(members, depth, nodes) == members_budget(members.take(n), depth, nodes),
    decreases members.len() - n,
{
    if n < members.len() {
        assert(members.take(n + 1).drop_last() =~= members.take(n));
        lemma_members_budget_prefix(members, n + 1, depth, nodes);
    } else {
        assert(members.take(n) =~= members);
    }
}

fn validate_json_budget(value: &JsonValue, depth: usize, nodes: &mut usize) -> (result: Result<
    (),
    Status,
>)
    requires
        depth <= MAX_VLLM_XARGS_DEPTH + 1,
        *old(nodes) <= MAX_VLLM_XARGS_NODES,
    ensures
        refusal(result) == budget(value.tree(), depth as nat, *old(nodes) as nat).refusal,
        result is Ok ==> *final(nodes) == budget(
            value.tree(),
            depth as nat,
            *old(nodes) as nat,
        ).nodes && *final(nodes) <= MAX_VLLM_XARGS_NODES,
    decreases MAX_VLLM_XARGS_DEPTH + 2 - depth, 0nat,
{
    if depth > MAX_VLLM_XARGS_DEPTH {
        return Err(Status::resource_exhausted("vllm_xargs_json nesting exceeds 16 levels"));
    }
    *nodes += 1;
    if *nodes > MAX_VLLM_XARGS_NODES {
        return Err(Status::resource_exhausted("vllm_xargs_json contains too many values"));
    }
    match value {
        JsonValue::Array(items) => {
            assert(value.tree()->Array_0 =~= items_of(items@));
            validate_items_budget(items, depth + 1, nodes)
        },
        JsonValue::Object(members) => {
            assert(value.tree()->Object_0 =~= members_of(members@));
            validate_members_budget(members, depth + 1, nodes)
        },
        _ => Ok(()),
    }
}

fn validate_items_budget(items: &Vec<JsonValue>, depth: usize, nodes: &mut usize) -> (result:
    Result<(), Status>)
    requires
        depth <= MAX_VLLM_XARGS_DEPTH + 1,
        *old(nodes) <= MAX_VLLM_XARGS_NODES,
    ensures
        refusal(result) == items_budget(
            items_of(items@),
            depth as nat,
            *old(nodes) as nat,
        ).refusal,
        result is Ok ==> *final(nodes) == items_budget(
            items_of(items@),
            depth as nat,
            *old(nodes) as nat,
        ).nodes && *final(nodes) <= MAX_VLLM_XARGS_NODES,
    decreases MAX_VLLM_XARGS_DEPTH + 2 - depth, 1nat,
{
    let ghost all = items_of(items@);
    let ghost start = *nodes as nat;
    for i in 0..items.len()
        invariant
            depth <= MAX_VLLM_XARGS_DEPTH + 1,
            all == items_of(items@),
            start == *old(nodes),
            *nodes <= MAX_VLLM_XARGS_NODES,
            items_budget(all.take(i as int), depth as nat, start) == (Budget {
                nodes: *nodes as nat,
                refusal: None,
            }),
    {
        assert(all.take(i + 1).drop_last() =~= all.take(i as int));
        assert(all.take(i + 1).last() == items@[i as int].tree());
        match validate_json_budget(&items[i], depth, nodes) {
            Ok(()) => {},
            Err(status) => {
                proof {
                    lemma_items_budget_prefix(all, i + 1, depth as nat, start);
                }
                return Err(status);
            },
        }
    }
    assert(all.take(all.len() as int) =~= all);
    Ok(())
}

fn validate_members_budget(
    members: &Vec<(String, JsonValue)>,
    depth: usize,
    nodes: &mut usize,
) -> (result: Result<(), Status>)
    requires
        depth <= MAX_VLLM_XARGS_DEPTH + 1,
        *old(nodes) <= MAX_VLLM_XARGS_NODES,
    ensures
        refusal(result) == members_budget(
            members_of(members@),
            depth as nat,
            *old(nodes) as nat,
        ).refusal,
        result is Ok ==> *final(nodes) == members_budget(
            members_of(members@),
            depth as nat,
            *old(nodes) as nat,
        ).nodes && *final(nodes) <= MAX_VLLM_XARGS_NODES,
    decreases MAX_VLLM_XARGS_DEPTH + 2 - depth, 1nat,
{
    let ghost all = members_of(members@);
    let ghost start = *nodes as nat;
    for i in 0..members.len()
        invariant
            depth <= MAX_VLLM_XARGS_DEPTH + 1,
            all == members_of(members@),
            start == *old(nodes),
            *nodes <= MAX_VLLM_XARGS_NODES,
            members_budget(all.take(i as int), depth as nat, start) == (Budget {
                nodes: *nodes as nat,
                refusal: None,
            }),
    {
        assert(all.take(i + 1).drop_last() =~= all.take(i as int));
        assert(all.take(i + 1).last() == (members@[i as int].0@, members@[i as int].1.tree()));
        if members[i].0.as_str().as_bytes().len() > MAX_KEY_BYTES {
            proof {
                lemma_members_budget_prefix(all, i + 1, depth as nat, start);
            }
            return Err(Status::resource_exhausted("vllm_xargs_json key exceeds 256 bytes"));
        }
        match validate_json_budget(&members[i].1, depth, nodes) {
            Ok(()) => {},
            Err(status) => {
                proof {
                    lemma_members_budget_prefix(all, i + 1, depth as nat, start);
                }
                return Err(status);
            },
        }
    }
    assert(all.take(all.len() as int) =~= all);
    Ok(())
}

/// What a parse came to: a value by what it says, or the text of its error.
pub open spec fn parse_outcome(parsed: Result<JsonValue, String>) -> Result<Json, Seq<char>> {
    match parsed {
        Ok(value) => Ok(value.tree()),
        Err(error) => Err(error@),
    }
}

/// Checks parsed arguments.
pub fn xargs_from_parsed(parsed: Result<JsonValue, String>) -> (result: Result<
    Vec<(String, JsonValue)>,
    Status,
>)
    ensures
        refusal(result) == parsed_xargs_refusal(parse_outcome(parsed)),
        result matches Ok(members) ==> parsed == Ok::<JsonValue, String>(
            JsonValue::Object(members),
        ),
{
    match parsed {
        Err(error) => {
            let message = "vllm_xargs_json must be a JSON object: ".to_string().concat(
                error.as_str(),
            );
            Err(Status::invalid_argument(message.as_str()))
        },
        Ok(value) => {
            let members = match &value {
                JsonValue::Object(members) => members,
                _ => {
                    return Err(Status::invalid_argument("vllm_xargs_json must be a JSON object"));
                },
            };
            assert(value.tree()->Object_0 =~= members_of(members@));
            if members.len() > MAX_VLLM_XARGS_KEYS {
                return Err(Status::resource_exhausted("vllm_xargs_json contains too many keys"));
            }
            if find_member(members, "kv_transfer_params").is_some() {
                return Err(
                    Status::invalid_argument(
                        "vllm_xargs_json key kv_transfer_params is reserved for typed KV parameters",
                    ),
                );
            }
            let mut nodes: usize = 0;
            match validate_json_budget(&value, 0, &mut nodes) {
                Ok(()) => {},
                Err(status) => {
                    return Err(status);
                },
            }
            match value {
                JsonValue::Object(members) => Ok(members),
                _ => Err(Status::invalid_argument("vllm_xargs_json must be a JSON object")),
            }
        },
    }
}

pub fn parse_vllm_xargs_json(raw: &[u8]) -> (result: Result<Vec<(String, JsonValue)>, Status>)
    ensures
        refusal(result) == xargs_refusal(raw@),
        result matches Ok(members) ==> json_slice_parse(raw@) == Ok::<Json, Seq<char>>(
            Json::Object(members_of(members@)),
        ) && names_once(Json::Object(members_of(members@))) && member_index(
            members_of(members@),
            "kv_transfer_params"@,
        ) is None,
{
    if raw.len() > MAX_VLLM_XARGS_BYTES {
        return Err(Status::resource_exhausted("vllm_xargs_json exceeds 64 KiB"));
    }
    let parsed = json_from_slice(raw);
    let result = xargs_from_parsed(parsed);
    proof {
        if result is Ok {
            let value = JsonValue::Object(result->Ok_0);
            assert(value.tree()->Object_0 =~= members_of(result->Ok_0@));
        }
    }
    result
}

/// The number of values in a JSON value, itself included.
pub open spec fn value_count(value: Json) -> nat
    decreases value,
{
    match value {
        Json::Array(items) => 1 + items_count(items),
        Json::Object(members) => 1 + members_count(members),
        _ => 1,
    }
}

pub open spec fn items_count(items: Seq<Json>) -> nat
    decreases items, items.len(),
{
    if items.len() == 0 {
        0
    } else {
        items_count(items.drop_last()) + value_count(items.last())
    }
}

pub open spec fn members_count(members: Seq<(Seq<char>, Json)>) -> nat
    decreases members, members.len(),
{
    if members.len() == 0 {
        0
    } else {
        members_count(members.drop_last()) + value_count(members.last().1)
    }
}

proof fn lemma_budget_counts(value: Json, depth: nat, nodes: nat)
    requires
        budget(value, depth, nodes).refusal is None,
    ensures
        budget(value, depth, nodes).nodes == nodes + value_count(value),
        budget(value, depth, nodes).nodes <= MAX_VLLM_XARGS_NODES,
    decreases MAX_VLLM_XARGS_DEPTH + 2 - depth, 0nat,
{
    match value {
        Json::Array(items) => lemma_items_budget_counts(items, depth + 1, nodes + 1),
        Json::Object(members) => lemma_members_budget_counts(members, depth + 1, nodes + 1),
        _ => {},
    }
}

proof fn lemma_items_budget_counts(items: Seq<Json>, depth: nat, nodes: nat)
    requires
        nodes <= MAX_VLLM_XARGS_NODES,
        items_budget(items, depth, nodes).refusal is None,
    ensures
        items_budget(items, depth, nodes).nodes == nodes + items_count(items),
        items_budget(items, depth, nodes).nodes <= MAX_VLLM_XARGS_NODES,
    decreases MAX_VLLM_XARGS_DEPTH + 2 - depth, items.len() + 1,
{
    if items.len() > 0 {
        let before = items_budget(items.drop_last(), depth, nodes);
        lemma_items_budget_counts(items.drop_last(), depth, nodes);
        lemma_budget_counts(items.last(), depth, before.nodes);
    }
}

proof fn lemma_members_budget_counts(members: Seq<(Seq<char>, Json)>, depth: nat, nodes: nat)
    requires
        nodes <= MAX_VLLM_XARGS_NODES,
        members_budget(members, depth, nodes).refusal is None,
    ensures
        members_budget(members, depth, nodes).nodes == nodes + members_count(members),
        members_budget(members, depth, nodes).nodes <= MAX_VLLM_XARGS_NODES,
    decreases MAX_VLLM_XARGS_DEPTH + 2 - depth, members.len() + 1,
{
    if members.len() > 0 {
        let before = members_budget(members.drop_last(), depth, nodes);
        lemma_members_budget_counts(members.drop_last(), depth, nodes);
        lemma_budget_counts(members.last().1, depth, before.nodes);
    }
}

/// How many levels of values a JSON value holds within itself.
pub open spec fn nesting(value: Json) -> nat
    decreases value,
{
    match value {
        Json::Array(items) => items_nesting(items),
        Json::Object(members) => members_nesting(members),
        _ => 0,
    }
}

pub open spec fn items_nesting(items: Seq<Json>) -> nat
    decreases items, items.len(),
{
    if items.len() == 0 {
        0
    } else {
        let before = items_nesting(items.drop_last());
        let last = 1 + nesting(items.last());
        if before < last {
            last
        } else {
            before
        }
    }
}

pub open spec fn members_nesting(members: Seq<(Seq<char>, Json)>) -> nat
    decreases members, members.len(),
{
    if members.len() == 0 {
        0
    } else {
        let before = members_nesting(members.drop_last());
        let last = 1 + nesting(members.last().1);
        if before < last {
            last
        } else {
            before
        }
    }
}

/// Whether every name in a JSON value, however deep, has at most the number of bytes allowed.
pub open spec fn short_names(value: Json) -> bool
    decreases value,
{
    match value {
        Json::Array(items) => items_short_names(items),
        Json::Object(members) => members_short_names(members),
        _ => true,
    }
}

pub open spec fn items_short_names(items: Seq<Json>) -> bool
    decreases items, items.len(),
{
    items.len() > 0 ==> items_short_names(items.drop_last()) && short_names(items.last())
}

pub open spec fn members_short_names(members: Seq<(Seq<char>, Json)>) -> bool
    decreases members, members.len(),
{
    members.len() > 0 ==> {
        &&& members_short_names(members.drop_last())
        &&& encode_utf8(members.last().0).len() <= MAX_KEY_BYTES
        &&& short_names(members.last().1)
    }
}

proof fn lemma_budget_bounds(value: Json, depth: nat, nodes: nat)
    requires
        budget(value, depth, nodes).refusal is None,
    ensures
        depth + nesting(value) <= MAX_VLLM_XARGS_DEPTH,
        short_names(value),
    decreases MAX_VLLM_XARGS_DEPTH + 2 - depth, 0nat,
{
    match value {
        Json::Array(items) => lemma_items_budget_bounds(items, depth + 1, nodes + 1),
        Json::Object(members) => lemma_members_budget_bounds(members, depth + 1, nodes + 1),
        _ => {},
    }
}

proof fn lemma_items_budget_bounds(items: Seq<Json>, depth: nat, nodes: nat)
    requires
        0 < depth <= MAX_VLLM_XARGS_DEPTH + 1,
        items_budget(items, depth, nodes).refusal is None,
    ensures
        depth + items_nesting(items) <= MAX_VLLM_XARGS_DEPTH + 1,
        items_short_names(items),
    decreases MAX_VLLM_XARGS_DEPTH + 2 - depth, items.len() + 1,
{
    if items.len() > 0 {
        let before = items_budget(items.drop_last(), depth, nodes);
        lemma_items_budget_bounds(items.drop_last(), depth, nodes);
        lemma_budget_bounds(items.last(), depth, before.nodes);
    }
}

proof fn lemma_members_budget_bounds(members: Seq<(Seq<char>, Json)>, depth: nat, nodes: nat)
    requires
        0 < depth <= MAX_VLLM_XARGS_DEPTH + 1,
        members_budget(members, depth, nodes).refusal is None,
    ensures
        depth + members_nesting(members) <= MAX_VLLM_XARGS_DEPTH + 1,
        members_short_names(members),
    decreases MAX_VLLM_XARGS_DEPTH + 2 - depth, members.len() + 1,
{
    if members.len() > 0 {
        let before = members_budget(members.drop_last(), depth, nodes);
        lemma_members_budget_bounds(members.drop_last(), depth, nodes);
        lemma_budget_bounds(members.last().1, depth, before.nodes);
    }
}

/// Accepted arguments are an object of bounded size and depth, with names of bounded length,
/// that does not hold the reserved key.
pub proof fn accepted_xargs_are_bounded(parsed: Result<Json, Seq<char>>)
    requires
        parsed_xargs_refusal(parsed) is None,
    ensures
        parsed matches Ok(Json::Object(members)) && members.len() <= MAX_VLLM_XARGS_KEYS
            && member_index(members, "kv_transfer_params"@) is None,
        value_count(parsed->Ok_0) <= MAX_VLLM_XARGS_NODES,
        nesting(parsed->Ok_0) <= MAX_VLLM_XARGS_DEPTH,
        short_names(parsed->Ok_0),
{
    lemma_budget_counts(parsed->Ok_0, 0, 0);
    lemma_budget_bounds(parsed->Ok_0, 0, 0);
}

proof fn lemma_budget_suffices(value: Json, depth: nat, nodes: nat)
    requires
        depth + nesting(value) <= MAX_VLLM_XARGS_DEPTH,
        nodes + value_count(value) <= MAX_VLLM_XARGS_NODES,
        short_names(value),
    ensures
        budget(value, depth, nodes).refusal is None,
    decreases MAX_VLLM_XARGS_DEPTH + 2 - depth, 0nat,
{
    match value {
        Json::Array(items) => lemma_items_budget_suffices(items, depth + 1, nodes + 1),
        Json::Object(members) => lemma_members_budget_suffices(members, depth + 1, nodes + 1),
        _ => {},
    }
}

proof fn lemma_items_budget_suffices(items: Seq<Json>, depth: nat, nodes: nat)
    requires
        0 < depth <= MAX_VLLM_XARGS_DEPTH + 1,
        depth + items_nesting(items) <= MAX_VLLM_XARGS_DEPTH + 1,
        nodes + items_count(items) <= MAX_VLLM_XARGS_NODES,
        items_short_names(items),
    ensures
        items_budget(items, depth, nodes).refusal is None,
    decreases MAX_VLLM_XARGS_DEPTH + 2 - depth, items.len() + 1,
{
    if items.len() > 0 {
        lemma_items_budget_suffices(items.drop_last(), depth, nodes);
        lemma_items_budget_counts(items.drop_last(), depth, nodes);
        let before = items_budget(items.drop_last(), depth, nodes);
        lemma_budget_suffices(items.last(), depth, before.nodes);
    }
}

proof fn lemma_members_budget_suffices(members: Seq<(Seq<char>, Json)>, depth: nat, nodes: nat)
    requires
        0 < depth <= MAX_VLLM_XARGS_DEPTH + 1,
        depth + members_nesting(members) <= MAX_VLLM_XARGS_DEPTH + 1,
        nodes + members_count(members) <= MAX_VLLM_XARGS_NODES,
        members_short_names(members),
    ensures
        members_budget(members, depth, nodes).refusal is None,
    decreases MAX_VLLM_XARGS_DEPTH + 2 - depth, members.len() + 1,
{
    if members.len() > 0 {
        lemma_members_budget_suffices(members.drop_last(), depth, nodes);
        lemma_members_budget_counts(members.drop_last(), depth, nodes);
        let before = members_budget(members.drop_last(), depth, nodes);
        lemma_budget_suffices(members.last().1, depth, before.nodes);
    }
}

/// A value counts as one, and with it all that it holds: what is put into an array or an object
/// adds its own count.
pub proof fn values_are_counted_one_by_one(
    items: Seq<Json>,
    members: Seq<(Seq<char>, Json)>,
    name: Seq<char>,
    value: Json,
)
    ensures
        !(value is Array || value is Object) ==> value_count(value) == 1,
        value_count(Json::Array(Seq::empty())) == 1,
        value_count(Json::Object(Seq::empty())) == 1,
        value_count(Json::Array(items.push(value))) == value_count(Json::Array(items))
            + value_count(value),
        value_count(Json::Object(members.push((name, value)))) == value_count(
            Json::Object(members),
        ) + value_count(value),
{
    assert(items.push(value).drop_last() =~= items);
    assert(members.push((name, value)).drop_last() =~= members);
}

/// A value holds one level more than the deepest value in it, and none where it holds nothing.
pub proof fn values_nest_level_by_level(
    items: Seq<Json>,
    members: Seq<(Seq<char>, Json)>,
    name: Seq<char>,
    value: Json,
)
    ensures
        !(value is Array || value is Object) ==> nesting(value) == 0,
        nesting(Json::Array(Seq::empty())) == 0,
        nesting(Json::Object(Seq::empty())) == 0,
        nesting(Json::Array(items.push(value))) == vstd::math::max(
            nesting(Json::Array(items)) as int,
            nesting(value) as int + 1,
        ),
        nesting(Json::Object(members.push((name, value)))) == vstd::math::max(
            nesting(Json::Object(members)) as int,
            nesting(value) as int + 1,
        ),
{
    assert(items.push(value).drop_last() =~= items);
    assert(members.push((name, value)).drop_last() =~= members);
}

/// Names are short where each, in a value or in those that it holds, has at most 256 bytes.
pub proof fn names_are_measured_one_by_one(
    items: Seq<Json>,
    members: Seq<(Seq<char>, Json)>,
    name: Seq<char>,
    value: Json,
)
    ensures
        !(value is Array || value is Object) ==> short_names(value),
        short_names(Json::Array(Seq::empty())),
        short_names(Json::Object(Seq::empty())),
        short_names(Json::Array(items.push(value))) <==> short_names(Json::Array(items))
            && short_names(value),
        short_names(Json::Object(members.push((name, value)))) <==> short_names(
            Json::Object(members),
        ) && short_names(value) && encode_utf8(name).len() <= 256,
{
    assert(items.push(value).drop_last() =~= items);
    assert(members.push((name, value)).drop_last() =~= members);
}

/// Arguments are accepted exactly where they have at most 65536 bytes and are an object of at
/// most 64 members, none of them reserved, of at most 1024 values, nested at most 16 levels, and
/// with short names. What is too large exhausts a resource; all else is a wrong argument.
pub proof fn xargs_are_accepted_within_their_bounds(raw: Seq<u8>)
    ensures
        xargs_refusal(raw) is None <==> raw.len() <= 65536 && (json_slice_parse(raw) matches Ok(
            Json::Object(members),
        ) && members.len() <= 64 && (forall|i: int|
            0 <= i < members.len() ==> (#[trigger] members[i]).0 != "kv_transfer_params"@)
            && value_count(Json::Object(members)) <= 1024 && nesting(Json::Object(members)) <= 16
            && short_names(Json::Object(members))),
        raw.len() > 65536 ==> (xargs_refusal(raw) matches Some(status) && status.code
            == Code::ResourceExhausted),
        raw.len() <= 65536 && !(json_slice_parse(raw) matches Ok(Json::Object(_))) ==> (
        xargs_refusal(raw) matches Some(status) && status.code == Code::InvalidArgument),
        raw.len() <= 65536 ==> (json_slice_parse(raw) matches Ok(Json::Object(members))
            && members.len() > 64 ==> (xargs_refusal(raw) matches Some(status) && status.code
            == Code::ResourceExhausted)),
        raw.len() <= 65536 ==> (json_slice_parse(raw) matches Ok(Json::Object(members))
            && members.len() <= 64 && (exists|i: int|
            0 <= i < members.len() && (#[trigger] members[i]).0 == "kv_transfer_params"@) ==> (
        xargs_refusal(raw) matches Some(status) && status.code == Code::InvalidArgument)),
{
    if let Ok(Json::Object(members)) = json_slice_parse(raw) {
        lemma_member_index_found(members, "kv_transfer_params"@);
        let value = Json::Object(members);
        if budget(value, 0, 0).refusal is None {
            lemma_budget_counts(value, 0, 0);
            lemma_budget_bounds(value, 0, 0);
        }
        if value_count(value) <= 1024 && nesting(value) <= 16 && short_names(value) {
            lemma_budget_suffices(value, 0, 0);
        }
    }
}

/// A parse comes to what the value says, or to the text of the error.
pub proof fn parses_come_to_what_they_say(parsed: Result<JsonValue, String>)
    ensures
        parsed matches Ok(value) ==> parse_outcome(parsed) == Ok::<Json, Seq<char>>(value.tree()),
        parsed matches Err(error) ==> parse_outcome(parsed) == Err::<Json, Seq<char>>(error@),
{
}

} // verus!
