//! JSON values as the converters see them.

use crate::text::same_text;
use vstd::prelude::*;

verus! {

/// A JSON number, read in each of the ways that it allows: as an unsigned integer, as a signed
/// integer, and as a double, given by its bits.
#[derive(Clone, Copy, Debug, PartialEq, Eq)]
pub struct JsonNumber {
    pub unsigned: Option<u64>,
    pub signed: Option<i64>,
    pub double_bits: Option<u64>,
}

/// A JSON value. The members of an object stand in the order in which the object is walked.
#[derive(Debug, PartialEq, Eq)]
pub enum JsonValue {
    Null,
    Bool(bool),
    Number(JsonNumber),
    String(String),
    Array(Vec<JsonValue>),
    Object(Vec<(String, JsonValue)>),
}

/// What a JSON value says.
pub enum Json {
    Null,
    Bool(bool),
    Number(JsonNumber),
    String(Seq<char>),
    Array(Seq<Json>),
    Object(Seq<(Seq<char>, Json)>),
}

impl JsonValue {
    pub open spec fn tree(self) -> Json
        decreases self,
    {
        match self {
            JsonValue::Null => Json::Null,
            JsonValue::Bool(value) => Json::Bool(value),
            JsonValue::Number(number) => Json::Number(number),
            JsonValue::String(text) => Json::String(text@),
            JsonValue::Array(items) => Json::Array(
                Seq::new(
                    items@.len(),
                    |i: int|
                        if 0 <= i < items@.len() {
                            items@[i].tree()
                        } else {
                            Json::Null
                        },
                ),
            ),
            JsonValue::Object(members) => Json::Object(
                Seq::new(
                    members@.len(),
                    |i: int|
                        if 0 <= i < members@.len() {
                            (members@[i].0@, members@[i].1.tree())
                        } else {
                            (Seq::empty(), Json::Null)
                        },
                ),
            ),
        }
    }
}

/// The members of an object as pairs of a name and what its value says.
pub open spec fn members_of(members: Seq<(String, JsonValue)>) -> Seq<(Seq<char>, Json)> {
    Seq::new(members.len(), |i: int| (members[i].0@, members[i].1.tree()))
}

pub open spec fn items_of(items: Seq<JsonValue>) -> Seq<Json> {
    Seq::new(items.len(), |i: int| items[i].tree())
}

/// Whether no two members have the same name.
pub open spec fn distinct_names(members: Seq<(Seq<char>, Json)>) -> bool {
    forall|i: int, j: int| 0 <= i < j < members.len() ==> (#[trigger] members[i]).0 != (
    #[trigger] members[j]).0
}

/// Whether no object in a value, itself and all below it, has two members of the same name.
pub open spec fn names_once(value: Json) -> bool
    decreases value,
{
    match value {
        Json::Array(items) => forall|i: int|
            0 <= i < items.len() ==> names_once(#[trigger] items[i]),
        Json::Object(members) => distinct_names(members) && forall|i: int|
            0 <= i < members.len() ==> names_once((#[trigger] members[i]).1),
        _ => true,
    }
}

/// Where the member of that name stands, if there is one.
pub open spec fn member_index(members: Seq<(Seq<char>, Json)>, name: Seq<char>) -> Option<int>
    decreases members.len(),
{
    if members.len() == 0 {
        None
    } else {
        match member_index(members.drop_last(), name) {
            Some(i) => Some(i),
            None => if members.last().0 == name {
                Some(members.len() - 1)
            } else {
                None
            },
        }
    }
}

/// The value of the member of that name, if there is one.
pub open spec fn member_value(members: Seq<(Seq<char>, Json)>, name: Seq<char>) -> Option<Json> {
    match member_index(members, name) {
        Some(i) => Some(members[i].1),
        None => None,
    }
}

/// The members after `name` was given the value `value`: in place where the name is there,
/// else at the end.
pub open spec fn with_member(
    members: Seq<(Seq<char>, Json)>,
    name: Seq<char>,
    value: Json,
) -> Seq<(Seq<char>, Json)> {
    match member_index(members, name) {
        Some(i) => members.update(i, (name, value)),
        None => members.push((name, value)),
    }
}

/// `serde_json::Value`, the result of a parse, whose contents `json_value_tree` names.
#[verifier::external_type_specification]
#[verifier::external_body]
pub struct ExSerdeJsonValue(serde_json::Value);

/// What a `serde_json::Value` holds.
pub uninterp spec fn json_value_tree(value: serde_json::Value) -> Json;

/// What `serde_json::from_slice` reads from bytes, or the text of its error.
pub uninterp spec fn json_slice_parse(raw: Seq<u8>) -> Result<Json, Seq<char>>;

/// What `serde_json::from_str` reads from text, or the text of its error.
pub uninterp spec fn json_text_parse(text: Seq<char>) -> Result<Json, Seq<char>>;

/// Calls `serde_json::from_slice` for a `serde_json::Value`: the result is a function of the
/// bytes alone, and an error is given by its display text.
#[verifier::external_body]
fn parse_slice(raw: &[u8]) -> (parsed: Result<serde_json::Value, String>)
    ensures
        match parsed {
            Ok(value) => json_slice_parse(raw@) == Ok::<Json, Seq<char>>(json_value_tree(value)),
            Err(error) => json_slice_parse(raw@) == Err::<Json, Seq<char>>(error@),
        },
{
    serde_json::from_slice(raw).map_err(|error| error.to_string())
}

/// Calls `serde_json::from_str` for a `serde_json::Value`: the result is a function of the text
/// alone, and an error is given by its display text.
#[verifier::external_body]
fn parse_text(text: &str) -> (parsed: Result<serde_json::Value, String>)
    ensures
        match parsed {
            Ok(value) => json_text_parse(text@) == Ok::<Json, Seq<char>>(json_value_tree(value)),
            Err(error) => json_text_parse(text@) == Err::<Json, Seq<char>>(error@),
        },
{
    serde_json::from_str(text).map_err(|error| error.to_string())
}

/// One level of a parsed value.
enum JsonParts {
    Null,
    Bool(bool),
    Number(JsonNumber),
    String(String),
    Array(Vec<serde_json::Value>),
    Object(Vec<(String, serde_json::Value)>),
}

spec fn parts_tree(parts: JsonParts) -> Json {
    match parts {
        JsonParts::Null => Json::Null,
        JsonParts::Bool(value) => Json::Bool(value),
        JsonParts::Number(number) => Json::Number(number),
        JsonParts::String(text) => Json::String(text@),
        JsonParts::Array(items) => Json::Array(
            Seq::new(items@.len(), |i: int| json_value_tree(items@[i])),
        ),
        JsonParts::Object(members) => Json::Object(
            Seq::new(
                members@.len(),
                |i: int| (members@[i].0@, json_value_tree(members@[i].1)),
            ),
        ),
    }
}

/// Takes one level of a `serde_json::Value` apart: its variant, and what the variant holds. The
/// members of an object come in the order in which `serde_json::Map` walks them, each name
/// once.
#[verifier::external_body]
fn json_parts(value: serde_json::Value) -> (parts: JsonParts)
    ensures
        parts_tree(parts) == json_value_tree(value),
        parts matches JsonParts::Object(members) ==> forall|i: int, j: int|
            0 <= i < j < members@.len() ==> (#[trigger] members@[i]).0@ != (
            #[trigger] members@[j]).0@,
{
    match value {
        serde_json::Value::Null => JsonParts::Null,
        serde_json::Value::Bool(value) => JsonParts::Bool(value),
        serde_json::Value::Number(number) => JsonParts::Number(JsonNumber {
            unsigned: number.as_u64(),
            signed: number.as_i64(),
            double_bits: number.as_f64().map(|double| double.to_bits()),
        }),
        serde_json::Value::String(text) => JsonParts::String(text),
        serde_json::Value::Array(items) => JsonParts::Array(items),
        serde_json::Value::Object(members) => JsonParts::Object(members.into_iter().collect()),
    }
}

/// The whole of a parsed value.
fn json_value(value: serde_json::Value) -> (whole: JsonValue)
    ensures
        whole.tree() == json_value_tree(value),
        names_once(whole.tree()),
    decreases json_value_tree(value),
{
    let ghost tree = json_value_tree(value);
    match json_parts(value) {
        JsonParts::Null => JsonValue::Null,
        JsonParts::Bool(value) => JsonValue::Bool(value),
        JsonParts::Number(number) => JsonValue::Number(number),
        JsonParts::String(text) => JsonValue::String(text),
        JsonParts::Array(items) => {
            let ghost parts = items@;
            let mut whole: Vec<JsonValue> = Vec::new();
            for item in iter: items
                invariant
                    iter.seq() == parts,
                    tree == json_value_tree(value),
                    tree == Json::Array(Seq::new(parts.len(), |i: int| json_value_tree(parts[i]))),
                    whole@.len() == iter.index(),
                    forall|j: int|
                        0 <= j < whole@.len() ==> (#[trigger] whole@[j]).tree()
                            == json_value_tree(parts[j]) && names_once(whole@[j].tree()),
            {
                assert(tree->Array_0[iter.index() as int] == json_value_tree(item));
                assert(decreases_to!(tree => tree->Array_0[iter.index() as int]));
                whole.push(json_value(item));
            }
            let whole = JsonValue::Array(whole);
            assert(whole.tree()->Array_0 =~= tree->Array_0);
            whole
        },
        JsonParts::Object(members) => {
            let ghost parts = members@;
            let mut whole: Vec<(String, JsonValue)> = Vec::new();
            for member in iter: members
                invariant
                    iter.seq() == parts,
                    tree == json_value_tree(value),
                    tree == Json::Object(
                        Seq::new(
                            parts.len(),
                            |i: int| (parts[i].0@, json_value_tree(parts[i].1)),
                        ),
                    ),
                    whole@.len() == iter.index(),
                    forall|j: int|
                        0 <= j < whole@.len() ==> (#[trigger] whole@[j]).1.tree()
                            == json_value_tree(parts[j].1) && whole@[j].0 == parts[j].0
                            && names_once(whole@[j].1.tree()),
            {
                assert(tree->Object_0[iter.index() as int].1 == json_value_tree(member.1));
                assert(decreases_to!(tree => tree->Object_0[iter.index() as int].1));
                whole.push((member.0, json_value(member.1)));
            }
            assert(members_of(whole@) =~= tree->Object_0);
            let whole = JsonValue::Object(whole);
            assert(whole.tree()->Object_0 =~= tree->Object_0);
            whole
        },
    }
}

/// Reads JSON from bytes.
pub fn json_from_slice(raw: &[u8]) -> (parsed: Result<JsonValue, String>)
    ensures
        match parsed {
            Ok(value) => json_slice_parse(raw@) == Ok::<Json, Seq<char>>(value.tree()),
            Err(error) => json_slice_parse(raw@) == Err::<Json, Seq<char>>(error@),
        },
        parsed matches Ok(value) ==> names_once(value.tree()),
{
    match parse_slice(raw) {
        Ok(value) => Ok(json_value(value)),
        Err(error) => Err(error),
    }
}

/// Reads JSON from text.
pub fn json_from_str(text: &str) -> (parsed: Result<JsonValue, String>)
    ensures
        match parsed {
            Ok(value) => json_text_parse(text@) == Ok::<Json, Seq<char>>(value.tree()),
            Err(error) => json_text_parse(text@) == Err::<Json, Seq<char>>(error@),
        },
        parsed matches Ok(value) ==> names_once(value.tree()),
{
    match parse_text(text) {
        Ok(value) => Ok(json_value(value)),
        Err(error) => Err(error),
    }
}

/// A copy of a value.
pub fn copy_value(value: &JsonValue) -> (copy: JsonValue)
    ensures
        copy.tree() == value.tree(),
    decreases *value,
{
    match value {
        JsonValue::Null => JsonValue::Null,
        JsonValue::Bool(value) => JsonValue::Bool(*value),
        JsonValue::Number(number) => JsonValue::Number(*number),
        JsonValue::String(text) => JsonValue::String(text.clone()),
        JsonValue::Array(items) => {
            let mut copies: Vec<JsonValue> = Vec::new();
            for i in 0..items.len()
                invariant
                    *value == JsonValue::Array(*items),
                    copies@.len() == i,
                    forall|j: int|
                        0 <= j < i ==> (#[trigger] copies@[j]).tree() == items@[j].tree(),
            {
                assert(decreases_to!(*value => value->Array_0));
                assert(decreases_to!(value->Array_0 => value->Array_0@));
                assert(decreases_to!(items@ => items@[i as int]));
                copies.push(copy_value(&items[i]));
            }
            let copy = JsonValue::Array(copies);
            assert(copy.tree()->Array_0 =~= value.tree()->Array_0);
            copy
        },
        JsonValue::Object(members) => {
            let mut copies: Vec<(String, JsonValue)> = Vec::new();
            for i in 0..members.len()
                invariant
                    *value == JsonValue::Object(*members),
                    copies@.len() == i,
                    forall|j: int|
                        0 <= j < i ==> (#[trigger] copies@[j]).1.tree() == members@[j].1.tree()
                            && copies@[j].0 == members@[j].0,
            {
                assert(decreases_to!(*value => value->Object_0));
                assert(decreases_to!(value->Object_0 => value->Object_0@));
                assert(decreases_to!(members@ => members@[i as int]));
                assert(decreases_to!(members@[i as int] => members@[i as int].1));
                copies.push((members[i].0.clone(), copy_value(&members[i].1)));
            }
            let copy = JsonValue::Object(copies);
            assert(copy.tree()->Object_0 =~= value.tree()->Object_0);
            copy
        },
    }
}

/// A copy of the members of an object.
pub fn copy_members(members: &Vec<(String, JsonValue)>) -> (copies: Vec<(String, JsonValue)>)
    ensures
        members_of(copies@) == members_of(members@),
{
    let mut copies: Vec<(String, JsonValue)> = Vec::new();
    for i in 0..members.len()
        invariant
            copies@.len() == i,
            forall|j: int|
                0 <= j < i ==> (#[trigger] copies@[j]).1.tree() == members@[j].1.tree()
                    && copies@[j].0 == members@[j].0,
    {
        copies.push((members[i].0.clone(), copy_value(&members[i].1)));
    }
    assert(members_of(copies@) =~= members_of(members@));
    copies
}

/// Where the member of that name stands, if there is one.
pub fn find_member(members: &Vec<(String, JsonValue)>, name: &str) -> (found: Option<usize>)
    ensures
        match found {
            Some(i) => member_index(members_of(members@), name@) == Some(i as int) && i
                < members@.len() && members@[i as int].0@ == name@,
            None => member_index(members_of(members@), name@) is None,
        },
{
    let ghost all = members_of(members@);
    for i in 0..members.len()
        invariant
            all == members_of(members@),
            member_index(all.take(i as int), name@) is None,
    {
        proof {
            assert(all.take(i + 1).drop_last() =~= all.take(i as int));
            assert(all.take(i + 1).last() == all[i as int]);
        }
        if same_text(members[i].0.as_str(), name) {
            proof {
                lemma_member_index_prefix(all, i + 1, name@);
            }
            return Some(i);
        }
    }
    assert(all.take(members@.len() as int) =~= all);
    None
}

/// A member found among the first `n` is found at the same place among all.
proof fn lemma_member_index_prefix(members: Seq<(Seq<char>, Json)>, n: int, name: Seq<char>)
    requires
        0 <= n <= members.len(),
        member_index(members.take(n), name) is Some,
    ensures
        member_index(members, name) == member_index(members.take(n), name),
    decreases members.len() - n,
{
    if n < members.len() {
        assert(members.take(n + 1).drop_last() =~= members.take(n));
        lemma_member_index_prefix(members, n + 1, name);
    } else {
        assert(members.take(n) =~= members);
    }
}

/// A member that is found has the name that was looked for, and none before it has.
pub proof fn lemma_member_index_found(members: Seq<(Seq<char>, Json)>, name: Seq<char>)
    ensures
        match member_index(members, name) {
            Some(i) => 0 <= i < members.len() && members[i].0 == name && forall|j: int|
                0 <= j < i ==> (#[trigger] members[j]).0 != name,
            None => forall|j: int| 0 <= j < members.len() ==> (#[trigger] members[j]).0 != name,
        },
    decreases members.len(),
{
    if members.len() > 0 {
        let shorter = members.drop_last();
        lemma_member_index_found(shorter, name);
        assert forall|j: int|
            0 <= j < members.len() - 1 implies shorter[j] == #[trigger] members[j] by {}
    }
}

/// A member that is added under a new name is found at the end.
pub proof fn lemma_member_index_push(
    members: Seq<(Seq<char>, Json)>,
    name: Seq<char>,
    value: Json,
)
    requires
        member_index(members, name) is None,
    ensures
        member_index(members.push((name, value)), name) == Some(members.len() as int),
{
    assert(members.push((name, value)).drop_last() =~= members);
}

/// A member whose value is replaced is found where it stood.
pub proof fn lemma_member_index_update(
    members: Seq<(Seq<char>, Json)>,
    name: Seq<char>,
    value: Json,
)
    requires
        member_index(members, name) is Some,
    ensures
        member_index(
            members.update(member_index(members, name)->Some_0, (name, value)),
            name,
        ) == member_index(members, name),
    decreases members.len(),
{
    let i = member_index(members, name)->Some_0;
    lemma_member_index_found(members, name);
    let updated = members.update(i, (name, value));
    if i < members.len() - 1 {
        assert(member_index(members.drop_last(), name) == Some(i)) by {
            lemma_member_index_found(members.drop_last(), name);
        }
        lemma_member_index_update(members.drop_last(), name, value);
        assert(updated.drop_last() =~= members.drop_last().update(i, (name, value)));
    } else {
        assert(updated.drop_last() =~= members.drop_last());
        lemma_member_index_found(members.drop_last(), name);
    }
}

/// A member that was given a value has it.
pub proof fn lemma_with_member_found(
    members: Seq<(Seq<char>, Json)>,
    name: Seq<char>,
    value: Json,
)
    ensures
        member_index(with_member(members, name, value), name) matches Some(i) && 0 <= i
            < with_member(members, name, value).len() && with_member(members, name, value)[i] == (
            name,
            value,
        ),
{
    lemma_member_index_found(members, name);
    match member_index(members, name) {
        Some(_) => lemma_member_index_update(members, name, value),
        None => lemma_member_index_push(members, name, value),
    }
}

/// Giving a member the value that it has changes nothing.
pub proof fn lemma_with_member_twice(
    members: Seq<(Seq<char>, Json)>,
    name: Seq<char>,
    value: Json,
)
    ensures
        with_member(with_member(members, name, value), name, value) == with_member(
            members,
            name,
            value,
        ),
{
    lemma_with_member_found(members, name, value);
    assert(with_member(with_member(members, name, value), name, value) =~= with_member(
        members,
        name,
        value,
    ));
}

/// Members stay distinct when one of them is given a value.
pub proof fn lemma_with_member_distinct(
    members: Seq<(Seq<char>, Json)>,
    name: Seq<char>,
    value: Json,
)
    requires
        distinct_names(members),
    ensures
        distinct_names(with_member(members, name, value)),
        names_once(Json::Object(members)) && names_once(value) ==> names_once(
            Json::Object(with_member(members, name, value)),
        ),
{
    let after = with_member(members, name, value);
    lemma_member_index_found(members, name);
    assert forall|i: int, j: int| 0 <= i < j < after.len() implies (#[trigger] after[i]).0 != (
    #[trigger] after[j]).0 by {
        if j < members.len() {
            assert(members[i].0 != members[j].0);
            assert(after[i].0 == members[i].0 && after[j].0 == members[j].0);
        } else {
            assert(members[i].0 != name);
        }
    }
    if names_once(Json::Object(members)) && names_once(value) {
        assert forall|i: int| 0 <= i < after.len() implies names_once(
            (#[trigger] after[i]).1,
        ) by {
            if i < members.len() {
                assert(names_once(members[i].1));
            }
        }
    }
}

/// Gives `name` the value `value` among `members`.
pub fn set_member(members: &mut Vec<(String, JsonValue)>, name: &str, value: JsonValue)
    ensures
        members_of(final(members)@) == with_member(members_of(old(members)@), name@, value.tree()),
{
    match find_member(members, name) {
        Some(i) => {
            members.set(i, (name.to_string(), value));
            assert(members_of(members@) =~= with_member(
                members_of(old(members)@),
                name@,
                value.tree(),
            ));
        },
        None => {
            members.push((name.to_string(), value));
            assert(members_of(members@) =~= with_member(
                members_of(old(members)@),
                name@,
                value.tree(),
            ));
        },
    }
}

/// A value says what it holds, level by level, and nothing else.
pub proof fn values_say_what_they_hold(value: JsonValue, i: int)
    ensures
        value is Null <==> value.tree() is Null,
        value matches JsonValue::Bool(held) ==> value.tree() == Json::Bool(held),
        value matches JsonValue::Number(number) ==> value.tree() == Json::Number(number),
        value matches JsonValue::String(text) ==> value.tree() == Json::String(text@),
        value matches JsonValue::Array(items) ==> (value.tree() matches Json::Array(said)
            && said.len() == items@.len() && (0 <= i < items@.len() ==> said[i]
            == items@[i].tree())),
        value matches JsonValue::Object(members) ==> (value.tree() matches Json::Object(said)
            && said.len() == members@.len() && (0 <= i < members@.len() ==> said[i].0
            == members@[i].0@ && said[i].1 == members@[i].1.tree())),
{
}

/// Giving a member a value leaves all others as they are and where they are. A new member
/// stands behind them.
pub proof fn other_members_are_kept(
    members: Seq<(Seq<char>, Json)>,
    name: Seq<char>,
    value: Json,
    i: int,
)
    ensures
        ({
            let after = with_member(members, name, value);
            let there = exists|j: int| 0 <= j < members.len() && (#[trigger] members[j]).0 == name;
            &&& there ==> after.len() == members.len()
            &&& !there ==> after.len() == members.len() + 1 && after[members.len() as int] == (
                name,
                value,
            )
            &&& 0 <= i < members.len() && members[i].0 != name ==> after[i] == members[i]
            &&& member_value(after, name) == Some(value)
        }),
{
    lemma_member_index_found(members, name);
    lemma_with_member_found(members, name, value);
}

/// A member is looked up by its name: the first one that has it, and none where none has.
pub proof fn members_are_looked_up_by_name(
    members: Seq<(Seq<char>, Json)>,
    name: Seq<char>,
    i: int,
)
    ensures
        0 <= i < members.len() && members[i].0 == name && (forall|j: int|
            0 <= j < i ==> (#[trigger] members[j]).0 != name) ==> member_value(members, name)
            == Some(members[i].1),
        (forall|j: int| 0 <= j < members.len() ==> (#[trigger] members[j]).0 != name)
            ==> member_value(members, name) is None,
{
    lemma_member_index_found(members, name);
}

} // verus!
