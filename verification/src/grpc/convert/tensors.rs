//! Checks on the decoded fields of one multimodal item.

use crate::engine::{
    in_name_order, MmFieldElem, MmKwargValue, MmKwargsItem, WireArrayData, WireTensor,
};
use crate::status::{invalid_argument, refusal, Code, Status, StatusView};
use crate::text::{decimal, decimal_text, same_text};
use vstd::prelude::*;
use vstd::utf8::encode_utf8;

verus! {

pub const MAX_MM_FIELDS_PER_ITEM: usize = 256;

pub const MAX_MM_KEY_BYTES: usize = 256;

pub const MAX_MM_TENSOR_RANK: usize = 32;

pub const MAX_MM_VALUE_DEPTH: usize = 32;

/// How std's `Debug` quotes a string.
pub uninterp spec fn str_debug(text: Seq<char>) -> Seq<char>;

/// Formats a `str` with std's `Debug`: the result is a function of the text alone.
#[verifier::external_body]
fn quoted(text: &str) -> (quoted: String)
    ensures
        quoted@ == str_debug(text@),
{
    format!("{text:?}")
}

/// The number of bytes of one element, for the element types that are supported.
pub open spec fn element_width(dtype: Seq<char>) -> Option<nat> {
    if dtype == "bool"@ || dtype == "uint8"@ || dtype == "int8"@ {
        Some(1)
    } else if dtype == "float16"@ || dtype == "bfloat16"@ || dtype == "uint16"@ || dtype
        == "int16"@ {
        Some(2)
    } else if dtype == "float32"@ || dtype == "uint32"@ || dtype == "int32"@ {
        Some(4)
    } else if dtype == "float64"@ || dtype == "uint64"@ || dtype == "int64"@ {
        Some(8)
    } else {
        None
    }
}

/// The number of elements of a tensor, where no partial product of its dimensions overflows.
pub open spec fn element_count(shape: Seq<usize>) -> Option<nat>
    decreases shape.len(),
{
    if shape.len() == 0 {
        Some(1)
    } else {
        match element_count(shape.drop_last()) {
            Some(count) => if count * shape.last() <= usize::MAX {
                Some((count * shape.last()) as nat)
            } else {
                None
            },
            None => None,
        }
    }
}

pub open spec fn tensor_refusal(tensor: WireTensor) -> Option<StatusView> {
    if tensor.shape@.len() > MAX_MM_TENSOR_RANK {
        Some(invalid_argument("multimodal tensor rank exceeds 32"@))
    } else {
        match element_width(tensor.dtype@) {
            None => Some(
                invalid_argument(
                    "unsupported multimodal tensor dtype "@ + str_debug(tensor.dtype@),
                ),
            ),
            Some(width) => match element_count(tensor.shape@) {
                None => Some(invalid_argument("multimodal tensor shape overflows"@)),
                Some(count) => if count * width > usize::MAX {
                    Some(invalid_argument("multimodal tensor byte length overflows"@))
                } else {
                    match tensor.data {
                        WireArrayData::RawView(bytes) => if bytes@.len() == count * width {
                            None
                        } else {
                            Some(
                                invalid_argument(
                                    "multimodal tensor byte length "@ + decimal(bytes@.len())
                                        + " does not match expected "@ + decimal(count * width),
                                ),
                            )
                        },
                        WireArrayData::AuxIndex(_) => Some(
                            invalid_argument("multimodal kwargs must encode tensors inline"@),
                        ),
                    }
                },
            },
        }
    }
}

pub open spec fn value_refusal(value: MmKwargValue, depth: nat) -> Option<StatusView>
    decreases MAX_MM_VALUE_DEPTH + 2 - depth, 0nat,
{
    if depth > MAX_MM_VALUE_DEPTH {
        Some(invalid_argument("multimodal kwargs nesting exceeds 32 levels"@))
    } else {
        match value {
            MmKwargValue::Tensor(tensor) => tensor_refusal(tensor),
            MmKwargValue::List(values) => values_refusal(values@, depth + 1),
            MmKwargValue::Int(_) => None,
            MmKwargValue::Float(_) => None,
        }
    }
}

/// The refusal of the first value in a row that is refused.
pub open spec fn values_refusal(values: Seq<MmKwargValue>, depth: nat) -> Option<StatusView>
    decreases MAX_MM_VALUE_DEPTH + 2 - depth, values.len() + 1,
{
    if values.len() == 0 {
        None
    } else {
        match values_refusal(values.drop_last(), depth) {
            Some(status) => Some(status),
            None => value_refusal(values.last(), depth),
        }
    }
}

pub open spec fn entry_refusal(entry: (String, MmFieldElem)) -> Option<StatusView> {
    let key_bytes = encode_utf8(entry.0@).len();
    if key_bytes == 0 || key_bytes > MAX_MM_KEY_BYTES {
        Some(invalid_argument("multimodal kwargs keys must contain between 1 and 256 bytes"@))
    } else {
        match entry.1.data {
            None => Some(
                invalid_argument("multimodal kwargs fields must carry inline data"@),
            ),
            Some(value) => value_refusal(value, 0),
        }
    }
}

/// The refusal of the first entry that is refused.
pub open spec fn entries_refusal(entries: Seq<(String, MmFieldElem)>) -> Option<StatusView>
    decreases entries.len(),
{
    if entries.len() == 0 {
        None
    } else {
        match entries_refusal(entries.drop_last()) {
            Some(status) => Some(status),
            None => entry_refusal(entries.last()),
        }
    }
}

pub open spec fn item_refusal(item: Seq<(String, MmFieldElem)>) -> Option<StatusView> {
    if item.len() == 0 || item.len() > MAX_MM_FIELDS_PER_ITEM {
        Some(
            invalid_argument("multimodal kwargs item must contain between 1 and 256 fields"@),
        )
    } else {
        entries_refusal(item)
    }
}

proof fn lemma_values_refusal_prefix(values: Seq<MmKwargValue>, n: int, depth: nat)
    requires
        0 <= n <= values.len(),
        values_refusal(values.take(n), depth) is Some,
    ensures
        values_refusal(values, depth) == values_refusal(values.take(n), depth),
    decreases values.len() - n,
{
    if n < values.len() {
        assert(values.take(n + 1).drop_last() =~= values.take(n));
        lemma_values_refusal_prefix(values, n + 1, depth);
    } else {
        assert(values.take(n) =~= values);
    }
}

proof fn lemma_entries_refusal_prefix(entries: Seq<(String, MmFieldElem)>, n: int)
    requires
        0 <= n <= entries.len(),
        entries_refusal(entries.take(n)) is Some,
    ensures
        entries_refusal(entries) == entries_refusal(entries.take(n)),
    decreases entries.len() - n,
{
    if n < entries.len() {
        assert(entries.take(n + 1).drop_last() =~= entries.take(n));
        lemma_entries_refusal_prefix(entries, n + 1);
    } else {
        assert(entries.take(n) =~= entries);
    }
}

/// Every field of an accepted item carries its value.
pub proof fn lemma_item_is_inline(item: Seq<(String, MmFieldElem)>)
    requires
        entries_refusal(item) is None,
    ensures
        forall|i: int| 0 <= i < item.len() ==> (#[trigger] item[i]).1.data is Some,
    decreases item.len(),
{
    if item.len() > 0 {
        lemma_item_is_inline(item.drop_last());
        assert forall|i: int| 0 <= i < item.len() implies (#[trigger] item[i]).1.data is Some by {
            if i < item.len() - 1 {
                assert(item.drop_last()[i] == item[i]);
            }
        }
    }
}

proof fn lemma_element_count_overflow(shape: Seq<usize>, n: int)
    requires
        0 <= n <= shape.len(),
        element_count(shape.take(n)) is None,
    ensures
        element_count(shape) is None,
    decreases shape.len() - n,
{
    if n < shape.len() {
        assert(shape.take(n + 1).drop_last() =~= shape.take(n));
        lemma_element_count_overflow(shape, n + 1);
    } else {
        assert(shape.take(n) =~= shape);
    }
}

pub fn validate_mm_kwargs_item(item: &MmKwargsItem) -> (result: Result<(), Status>)
    ensures
        refusal(result) == item_refusal(item@),
        in_name_order(item@),
{
    let fields = item.fields();
    if fields.len() == 0 || fields.len() > MAX_MM_FIELDS_PER_ITEM {
        return Err(
            Status::invalid_argument(
                "multimodal kwargs item must contain between 1 and 256 fields",
            ),
        );
    }
    for i in 0..fields.len()
        invariant
            fields@ == item@,
            in_name_order(item@),
            0 < item@.len() <= MAX_MM_FIELDS_PER_ITEM,
            entries_refusal(item@.take(i as int)) is None,
    {
        assert(item@.take(i + 1).drop_last() =~= item@.take(i as int));
        assert(item@.take(i + 1).last() == item@[i as int]);
        match validate_entry(&fields[i]) {
            Ok(()) => {},
            Err(status) => {
                proof {
                    lemma_entries_refusal_prefix(item@, i + 1);
                }
                return Err(status);
            },
        }
    }
    assert(item@.take(item@.len() as int) =~= item@);
    Ok(())
}

fn validate_entry(entry: &(String, MmFieldElem)) -> (result: Result<(), Status>)
    ensures
        refusal(result) == entry_refusal(*entry),
{
    let key_bytes: usize = entry.0.as_str().as_bytes().len();
    if key_bytes == 0 || key_bytes > MAX_MM_KEY_BYTES {
        return Err(
            Status::invalid_argument(
                "multimodal kwargs keys must contain between 1 and 256 bytes",
            ),
        );
    }
    match &entry.1.data {
        None => Err(
            Status::invalid_argument("multimodal kwargs fields must carry inline data"),
        ),
        Some(value) => validate_mm_kwarg_value(value, 0),
    }
}

fn validate_mm_kwarg_value(value: &MmKwargValue, depth: usize) -> (result: Result<(), Status>)
    requires
        depth <= MAX_MM_VALUE_DEPTH + 1,
    ensures
        refusal(result) == value_refusal(*value, depth as nat),
    decreases MAX_MM_VALUE_DEPTH + 2 - depth,
{
    if depth > MAX_MM_VALUE_DEPTH {
        return Err(Status::invalid_argument("multimodal kwargs nesting exceeds 32 levels"));
    }
    match value {
        MmKwargValue::Tensor(tensor) => validate_wire_tensor(tensor),
        MmKwargValue::List(values) => {
            let ghost below = (depth + 1) as nat;
            for i in 0..values.len()
                invariant
                    depth <= MAX_MM_VALUE_DEPTH,
                    below == depth + 1,
                    *value == MmKwargValue::List(*values),
                    values_refusal(values@.take(i as int), below) is None,
            {
                assert(values@.take(i + 1).drop_last() =~= values@.take(i as int));
                assert(values@.take(i + 1).last() == values@[i as int]);
                match validate_mm_kwarg_value(&values[i], depth + 1) {
                    Ok(()) => {},
                    Err(status) => {
                        proof {
                            lemma_values_refusal_prefix(values@, i + 1, below);
                        }
                        return Err(status);
                    },
                }
            }
            assert(values@.take(values@.len() as int) =~= values@);
            Ok(())
        },
        MmKwargValue::Int(_) => Ok(()),
        MmKwargValue::Float(_) => Ok(()),
    }
}

fn dtype_width(dtype: &str) -> (width: Option<usize>)
    ensures
        match width {
            Some(w) => element_width(dtype@) == Some(w as nat),
            None => element_width(dtype@) is None,
        },
{
    if same_text(dtype, "bool") || same_text(dtype, "uint8") || same_text(dtype, "int8") {
        Some(1)
    } else if same_text(dtype, "float16") || same_text(dtype, "bfloat16") || same_text(
        dtype,
        "uint16",
    ) || same_text(dtype, "int16") {
        Some(2)
    } else if same_text(dtype, "float32") || same_text(dtype, "uint32") || same_text(
        dtype,
        "int32",
    ) {
        Some(4)
    } else if same_text(dtype, "float64") || same_text(dtype, "uint64") || same_text(
        dtype,
        "int64",
    ) {
        Some(8)
    } else {
        None
    }
}

fn count_elements(shape: &Vec<usize>) -> (count: Option<usize>)
    ensures
        match count {
            Some(c) => element_count(shape@) == Some(c as nat),
            None => element_count(shape@) is None,
        },
{
    let mut count: usize = 1;
    for i in 0..shape.len()
        invariant
            element_count(shape@.take(i as int)) == Some(count as nat),
    {
        assert(shape@.take(i + 1).drop_last() =~= shape@.take(i as int));
        assert(shape@.take(i + 1).last() == shape@[i as int]);
        match count.checked_mul(shape[i]) {
            Some(more) => {
                count = more;
            },
            None => {
                proof {
                    lemma_element_count_overflow(shape@, i + 1);
                }
                return None;
            },
        }
    }
    assert(shape@.take(shape@.len() as int) =~= shape@);
    Some(count)
}

fn validate_wire_tensor(tensor: &WireTensor) -> (result: Result<(), Status>)
    ensures
        refusal(result) == tensor_refusal(*tensor),
{
    if tensor.shape.len() > MAX_MM_TENSOR_RANK {
        return Err(Status::invalid_argument("multimodal tensor rank exceeds 32"));
    }
    let width: usize = match dtype_width(tensor.dtype.as_str()) {
        Some(width) => width,
        None => {
            let message = "unsupported multimodal tensor dtype ".to_string().concat(
                quoted(tensor.dtype.as_str()).as_str(),
            );
            return Err(Status::invalid_argument(message.as_str()));
        },
    };
    let count: usize = match count_elements(&tensor.shape) {
        Some(count) => count,
        None => {
            return Err(Status::invalid_argument("multimodal tensor shape overflows"));
        },
    };
    let expected: usize = match count.checked_mul(width) {
        Some(expected) => expected,
        None => {
            return Err(Status::invalid_argument("multimodal tensor byte length overflows"));
        },
    };
    match &tensor.data {
        WireArrayData::RawView(bytes) => {
            if bytes.len() == expected {
                Ok(())
            } else {
                let message = "multimodal tensor byte length ".to_string().concat(
                    decimal_text(bytes.len() as u64).as_str(),
                ).concat(" does not match expected ").concat(
                    decimal_text(expected as u64).as_str(),
                );
                Err(Status::invalid_argument(message.as_str()))
            }
        },
        WireArrayData::AuxIndex(_) => Err(
            Status::invalid_argument("multimodal kwargs must encode tensors inline"),
        ),
    }
}

// Laws.

proof fn lemma_names_are_apart()
    ensures
        element_width("bool"@) == Some(1nat),
        element_width("uint8"@) == Some(1nat),
        element_width("int8"@) == Some(1nat),
        element_width("float16"@) == Some(2nat),
        element_width("bfloat16"@) == Some(2nat),
        element_width("uint16"@) == Some(2nat),
        element_width("int16"@) == Some(2nat),
        element_width("float32"@) == Some(4nat),
        element_width("uint32"@) == Some(4nat),
        element_width("int32"@) == Some(4nat),
        element_width("float64"@) == Some(8nat),
        element_width("uint64"@) == Some(8nat),
        element_width("int64"@) == Some(8nat),
{
    reveal_strlit("bool");
    reveal_strlit("uint8");
    reveal_strlit("int8");
    reveal_strlit("float16");
    reveal_strlit("bfloat16");
    reveal_strlit("uint16");
    reveal_strlit("int16");
    reveal_strlit("float32");
    reveal_strlit("uint32");
    reveal_strlit("int32");
    reveal_strlit("float64");
    reveal_strlit("uint64");
    reveal_strlit("int64");
    // Names of one length differ in one of their characters.
    assert("uint8"@[0] == 'u' && "int16"@[0] == 'i' && "int32"@[0] == 'i' && "int64"@[0] == 'i');
    assert("uint8"@.len() == 5 && "int16"@.len() == 5 && "int32"@.len() == 5 && "int64"@.len()
        == 5);
    assert("bool"@.len() == 4 && "int8"@.len() == 4 && "bool"@[0] == 'b' && "int8"@[0] == 'i');
    assert("int16"@[3] == '1' && "int32"@[3] == '3' && "int64"@[3] == '6');
    assert("uint16"@[4] == '1' && "uint32"@[4] == '3' && "uint64"@[4] == '6');
    assert("float16"@[5] == '1' && "float32"@[5] == '3' && "float64"@[5] == '6');
    assert("uint16"@.len() == 6 && "uint32"@.len() == 6 && "uint64"@.len() == 6);
    assert("float16"@.len() == 7 && "float32"@.len() == 7 && "float64"@.len() == 7);
    assert("bfloat16"@.len() == 8);
}

/// Elements are as wide as their type's name says: the number in it counts their bits, and a
/// truth value takes a byte. No other types are supported.
pub proof fn widths_follow_the_names(dtype: Seq<char>)
    ensures
        element_width(dtype) == Some(1nat) <==> dtype == "bool"@ || dtype == "uint8"@ || dtype
            == "int8"@,
        element_width(dtype) == Some(2nat) <==> dtype == "float16"@ || dtype == "bfloat16"@
            || dtype == "uint16"@ || dtype == "int16"@,
        element_width(dtype) == Some(4nat) <==> dtype == "float32"@ || dtype == "uint32"@ || dtype
            == "int32"@,
        element_width(dtype) == Some(8nat) <==> dtype == "float64"@ || dtype == "uint64"@ || dtype
            == "int64"@,
        element_width(dtype) matches Some(width) ==> width == 1 || width == 2 || width == 4
            || width == 8,
{
    lemma_names_are_apart();
}

proof fn lemma_count_is_product(shape: Seq<usize>, times: spec_fn(int, usize) -> int)
    requires
        forall|v: int, d: usize| #[trigger] times(v, d) == v * d,
    ensures
        element_count(shape) matches Some(count) ==> count == shape.fold_left(1int, times),
        element_count(shape) is None <==> exists|n: int|
            0 <= n <= shape.len() && (#[trigger] shape.take(n)).fold_left(1int, times)
                > usize::MAX,
        shape.fold_left(1int, times) >= 0,
    decreases shape.len(),
{
    assert(shape.take(shape.len() as int) =~= shape);
    if shape.len() > 0 {
        let shorter = shape.drop_last();
        lemma_count_is_product(shorter, times);
        assert(shorter.fold_left(1int, times) * shape.last() >= 0) by (nonlinear_arith)
            requires
                shorter.fold_left(1int, times) >= 0,
                shape.last() >= 0,
        ;
        assert forall|n: int| 0 <= n <= shorter.len() implies #[trigger] shorter.take(n)
            == shape.take(n) by {
            assert(shorter.take(n) =~= shape.take(n));
        }
        if element_count(shape) is None {
            if element_count(shorter) is None {
                let n = choose|n: int|
                    0 <= n <= shorter.len() && (#[trigger] shorter.take(n)).fold_left(1int, times)
                        > usize::MAX;
                assert(shape.take(n).fold_left(1int, times) > usize::MAX);
            } else {
                assert(shape.take(shape.len() as int).fold_left(1int, times) > usize::MAX);
            }
        } else {
            assert forall|n: int| 0 <= n <= shape.len() implies (#[trigger] shape.take(
                n,
            )).fold_left(1int, times) <= usize::MAX by {
                if n < shape.len() {
                    assert(shorter.take(n) == shape.take(n));
                }
            }
        }
    } else {
        assert forall|n: int| 0 <= n <= shape.len() implies (#[trigger] shape.take(n)).fold_left(
            1int,
            times,
        ) <= usize::MAX by {
            assert(shape.take(n) =~= shape);
        }
    }
}

/// A tensor is accepted exactly where it carries its bytes itself, has at most 32 dimensions and
/// a supported type, and its bytes are as many as the product of its dimensions times the width
/// of one element, where no product on the way is too large to be counted.
pub proof fn tensors_are_accepted_by_their_size(
    tensor: WireTensor,
    times: spec_fn(int, usize) -> int,
)
    requires
        forall|v: int, d: usize| #[trigger] times(v, d) == v * d,
    ensures
        tensor_refusal(tensor) is None <==> {
            let shape = tensor.shape@;
            let dtype = tensor.dtype@;
            let width: int = if dtype == "bool"@ || dtype == "uint8"@ || dtype == "int8"@ {
                1
            } else if dtype == "float16"@ || dtype == "bfloat16"@ || dtype == "uint16"@ || dtype
                == "int16"@ {
                2
            } else if dtype == "float32"@ || dtype == "uint32"@ || dtype == "int32"@ {
                4
            } else if dtype == "float64"@ || dtype == "uint64"@ || dtype == "int64"@ {
                8
            } else {
                0
            };
            &&& shape.len() <= 32
            &&& width > 0
            &&& forall|n: int|
                0 <= n <= shape.len() ==> (#[trigger] shape.take(n)).fold_left(1int, times)
                    <= usize::MAX
            &&& tensor.data matches WireArrayData::RawView(bytes) && bytes@.len()
                == shape.fold_left(1int, times) * width
        },
{
    lemma_count_is_product(tensor.shape@, times);
    widths_follow_the_names(tensor.dtype@);
    assert(tensor.shape@.take(tensor.shape@.len() as int) =~= tensor.shape@);
    if let WireArrayData::RawView(bytes) = tensor.data {
        assert(bytes@.len() == bytes.len());
    }
}

proof fn lemma_values_accepted(values: Seq<MmKwargValue>, depth: nat)
    ensures
        values_refusal(values, depth) is None <==> forall|i: int|
            0 <= i < values.len() ==> value_refusal(#[trigger] values[i], depth) is None,
    decreases values.len(),
{
    if values.len() > 0 {
        let shorter = values.drop_last();
        lemma_values_accepted(shorter, depth);
        assert forall|i: int| 0 <= i < shorter.len() implies #[trigger] shorter[i]
            == values[i] by {}
        if values_refusal(values, depth) is None {
            assert forall|i: int| 0 <= i < values.len() implies value_refusal(
                #[trigger] values[i],
                depth,
            ) is None by {
                if i < shorter.len() {
                    assert(shorter[i] == values[i]);
                }
            }
        } else if values_refusal(shorter, depth) is Some {
            let i = choose|i: int|
                0 <= i < shorter.len() && value_refusal(#[trigger] shorter[i], depth) is Some;
            assert(value_refusal(values[i], depth) is Some);
        } else {
            assert(value_refusal(values[values.len() - 1], depth) is Some);
        }
    }
}

/// Numbers are accepted down to the 32nd level of nesting and not below it, a tensor is accepted
/// there by its own, and a list is accepted exactly where all its values are, one level down.
pub proof fn values_are_accepted_level_by_level(value: MmKwargValue, depth: nat)
    ensures
        value_refusal(value, depth) is None <==> depth <= 32 && match value {
            MmKwargValue::Tensor(tensor) => tensor_refusal(tensor) is None,
            MmKwargValue::List(values) => forall|i: int|
                0 <= i < values@.len() ==> value_refusal(#[trigger] values@[i], depth + 1) is None,
            MmKwargValue::Int(_) => true,
            MmKwargValue::Float(_) => true,
        },
        depth > 32 ==> value_refusal(value, depth) == Some(
            StatusView {
                code: Code::InvalidArgument,
                message: "multimodal kwargs nesting exceeds 32 levels"@,
            },
        ),
{
    if let MmKwargValue::List(values) = value {
        lemma_values_accepted(values@, depth + 1);
    }
}

proof fn lemma_entries_accepted(entries: Seq<(String, MmFieldElem)>)
    ensures
        entries_refusal(entries) is None <==> forall|i: int|
            0 <= i < entries.len() ==> entry_refusal(#[trigger] entries[i]) is None,
    decreases entries.len(),
{
    if entries.len() > 0 {
        let shorter = entries.drop_last();
        lemma_entries_accepted(shorter);
        assert forall|i: int| 0 <= i < shorter.len() implies #[trigger] shorter[i]
            == entries[i] by {}
        if entries_refusal(entries) is None {
            assert forall|i: int| 0 <= i < entries.len() implies entry_refusal(
                #[trigger] entries[i],
            ) is None by {
                if i < shorter.len() {
                    assert(shorter[i] == entries[i]);
                }
            }
        } else if entries_refusal(shorter) is Some {
            let i = choose|i: int|
                0 <= i < shorter.len() && entry_refusal(#[trigger] shorter[i]) is Some;
            assert(entry_refusal(entries[i]) is Some);
        } else {
            assert(entry_refusal(entries[entries.len() - 1]) is Some);
        }
    }
}

/// An item is accepted exactly where it has 1 to 256 fields, each under a name of 1 to 256 bytes
/// and with a value that is accepted at the top level.
pub proof fn items_are_accepted_field_by_field(item: Seq<(String, MmFieldElem)>)
    ensures
        item_refusal(item) is None <==> 1 <= item.len() <= 256 && forall|i: int|
            0 <= i < item.len() ==> {
                &&& 1 <= encode_utf8((#[trigger] item[i]).0@).len() <= 256
                &&& item[i].1.data matches Some(value) && value_refusal(value, 0) is None
            },
{
    lemma_entries_accepted(item);
    if item_refusal(item) is None {
        assert forall|i: int| 0 <= i < item.len() implies 1 <= encode_utf8(
            (#[trigger] item[i]).0@,
        ).len() <= 256 && (item[i].1.data matches Some(value) && value_refusal(value, 0)
            is None) by {
            assert(entry_refusal(item[i]) is None);
        }
    }
}

} // verus!
