//! Checks on how the fields of multimodal items are laid out over a batch.

use super::tensors::MAX_MM_TENSOR_RANK;
use crate::engine::{
    in_name_order, ordered_names_are_distinct, MmBatchedField, MmFeatureSpec, MmField, MmFieldElem,
    MmFlatField, MmKwargValue, MmSharedField, MmSlice, SliceSpec,
};
use crate::status::{invalid_argument, refusal, Code, Status, StatusView};
use crate::text::same_text;
use vstd::prelude::*;

verus! {

/// What one slice of a flat field selects.
pub enum SliceConfig {
    One(SliceSpec),
    Tuple(Seq<SliceSpec>),
}

/// What the layout of a field says.
pub enum FieldConfig {
    Batched(MmBatchedField),
    Shared(MmSharedField),
    Flat { slices: Seq<SliceConfig>, dim: i32, keep_on_cpu: bool },
}

pub open spec fn slice_config(slice: MmSlice) -> SliceConfig {
    match slice {
        MmSlice::Slice(slice) => SliceConfig::One(slice),
        MmSlice::Slices(slices) => SliceConfig::Tuple(slices@),
    }
}

pub open spec fn slice_configs(slices: Seq<MmSlice>) -> Seq<SliceConfig> {
    Seq::new(slices.len(), |i: int| slice_config(slices[i]))
}

pub open spec fn field_config(field: MmField) -> FieldConfig {
    match field {
        MmField::Batched(batched) => FieldConfig::Batched(batched),
        MmField::Shared(shared) => FieldConfig::Shared(shared),
        MmField::Flat(flat) => FieldConfig::Flat {
            slices: slice_configs(flat.slices@),
            dim: flat.dim,
            keep_on_cpu: flat.keep_on_cpu,
        },
    }
}

pub open spec fn step_refusal(slice: SliceSpec) -> Option<StatusView> {
    if slice.step == Some(0isize) {
        Some(invalid_argument("multimodal slice step must not be zero"@))
    } else {
        None
    }
}

/// The refusal of the first slice in a row that is refused.
pub open spec fn steps_refusal(slices: Seq<SliceSpec>) -> Option<StatusView> {
    if exists|i: int| 0 <= i < slices.len() && (#[trigger] slices[i]).step == Some(0isize) {
        Some(invalid_argument("multimodal slice step must not be zero"@))
    } else {
        None
    }
}

pub open spec fn slice_refusal(slice: SliceConfig) -> Option<StatusView> {
    match slice {
        SliceConfig::One(slice) => step_refusal(slice),
        SliceConfig::Tuple(slices) => if slices.len() == 0 || slices.len() > MAX_MM_TENSOR_RANK {
            Some(
                invalid_argument("multimodal flat-field slice tuple must contain 1 to 32 slices"@),
            )
        } else {
            steps_refusal(slices)
        },
    }
}

/// The refusal of the first slice of a flat field that is refused.
pub open spec fn slices_refusal(slices: Seq<SliceConfig>) -> Option<StatusView>
    decreases slices.len(),
{
    if slices.len() == 0 {
        None
    } else {
        match slices_refusal(slices.drop_last()) {
            Some(status) => Some(status),
            None => slice_refusal(slices.last()),
        }
    }
}

pub open spec fn dim_refusal(dim: i32, data: MmKwargValue) -> Option<StatusView> {
    match data {
        MmKwargValue::Tensor(tensor) => {
            let rank: int = if tensor.shape@.len() <= i32::MAX {
                tensor.shape@.len() as int
            } else {
                i32::MAX as int
            };
            if -rank <= dim < rank {
                None
            } else {
                Some(invalid_argument("multimodal flat-field dim is outside the tensor rank"@))
            }
        },
        _ => if dim == 0 {
            None
        } else {
            Some(invalid_argument("multimodal non-tensor flat fields require dim=0"@))
        },
    }
}

/// The refusal of a field that `occurrences` items of a request carry.
pub open spec fn field_refusal(
    field: FieldConfig,
    data: MmKwargValue,
    occurrences: nat,
) -> Option<StatusView> {
    match field {
        FieldConfig::Batched(_) => None,
        FieldConfig::Shared(shared) => if shared.batch_size == 0 || shared.batch_size
            != occurrences {
            Some(invalid_argument("multimodal shared-field batch_size must match item count"@))
        } else {
            None
        },
        FieldConfig::Flat { slices, dim, .. } => if slices.len() == 0 || slices.len()
            != occurrences {
            Some(invalid_argument("multimodal flat-field slices must match item count"@))
        } else {
            match slices_refusal(slices) {
                Some(status) => Some(status),
                None => dim_refusal(dim, data),
            }
        },
    }
}

/// An item and the modality that it belongs to.
pub struct TaggedItem {
    pub modality: Seq<char>,
    pub fields: Seq<(String, MmFieldElem)>,
}

/// The item of a feature, which is there.
pub open spec fn tagged(feature: MmFeatureSpec) -> TaggedItem {
    TaggedItem { modality: feature.modality@, fields: feature.data->Some_0@ }
}

pub open spec fn tagged_all(features: Seq<MmFeatureSpec>) -> Seq<TaggedItem> {
    Seq::new(features.len(), |i: int| tagged(features[i]))
}

/// The fields of a batch in the order of its items: the position of the item and that of the
/// field in it.
pub open spec fn field_slots(items: Seq<TaggedItem>) -> Seq<(int, int)>
    decreases items.len(),
{
    if items.len() == 0 {
        Seq::empty()
    } else {
        field_slots(items.drop_last()) + Seq::new(
            items.last().fields.len(),
            |i: int| (items.len() - 1, i),
        )
    }
}

pub open spec fn slot_entry(items: Seq<TaggedItem>, slot: (int, int)) -> (String, MmFieldElem) {
    items[slot.0].fields[slot.1]
}

pub open spec fn slot_config(items: Seq<TaggedItem>, slot: (int, int)) -> FieldConfig {
    field_config(slot_entry(items, slot).1.field)
}

/// Whether two fields have the same name and belong to the same modality.
pub open spec fn same_identity(items: Seq<TaggedItem>, a: (int, int), b: (int, int)) -> bool {
    items[a.0].modality == items[b.0].modality && slot_entry(items, a).0@ == slot_entry(items, b).0@
}

/// Whether fields of the same identity are laid out in the same way throughout.
pub open spec fn configs_agree(items: Seq<TaggedItem>, slots: Seq<(int, int)>) -> bool {
    forall|a: int, b: int|
        #![trigger slots[a], slots[b]]
        0 <= a < b < slots.len() && same_identity(items, slots[a], slots[b]) ==> slot_config(
            items,
            slots[a],
        ) == slot_config(items, slots[b])
}

/// How many of the fields have the identity of `slot`.
pub open spec fn occurrences(
    items: Seq<TaggedItem>,
    slots: Seq<(int, int)>,
    slot: (int, int),
) -> nat
    decreases slots.len(),
{
    if slots.len() == 0 {
        0
    } else if same_identity(items, slots.last(), slot) {
        occurrences(items, slots.drop_last(), slot) + 1
    } else {
        occurrences(items, slots.drop_last(), slot)
    }
}

/// The refusal of the first of some fields of a batch that is refused.
pub open spec fn fields_refusal(
    items: Seq<TaggedItem>,
    all: Seq<(int, int)>,
    slots: Seq<(int, int)>,
) -> Option<StatusView>
    decreases slots.len(),
{
    if slots.len() == 0 {
        None
    } else {
        match fields_refusal(items, all, slots.drop_last()) {
            Some(status) => Some(status),
            None => field_refusal(
                slot_config(items, slots.last()),
                slot_entry(items, slots.last()).1.data->Some_0,
                occurrences(items, all, slots.last()),
            ),
        }
    }
}

pub open spec fn metadata_refusal(items: Seq<TaggedItem>) -> Option<StatusView> {
    let slots = field_slots(items);
    if !configs_agree(items, slots) {
        Some(invalid_argument("multimodal field configuration differs across items"@))
    } else {
        fields_refusal(items, slots, slots)
    }
}

/// Whether every feature carries its item and every field its value.
pub open spec fn carry_values(features: Seq<MmFeatureSpec>) -> bool {
    forall|i: int|
        0 <= i < features.len() ==> (#[trigger] features[i]).data is Some && all_inline(
            features[i].data->Some_0@,
        )
}

pub open spec fn all_inline(fields: Seq<(String, MmFieldElem)>) -> bool {
    forall|j: int| 0 <= j < fields.len() ==> (#[trigger] fields[j]).1.data is Some
}

proof fn lemma_slices_refusal_prefix(slices: Seq<SliceConfig>, n: int)
    requires
        0 <= n <= slices.len(),
        slices_refusal(slices.take(n)) is Some,
    ensures
        slices_refusal(slices) == slices_refusal(slices.take(n)),
    decreases slices.len() - n,
{
    if n < slices.len() {
        assert(slices.take(n + 1).drop_last() =~= slices.take(n));
        lemma_slices_refusal_prefix(slices, n + 1);
    } else {
        assert(slices.take(n) =~= slices);
    }
}

proof fn lemma_fields_refusal_prefix(
    items: Seq<TaggedItem>,
    all: Seq<(int, int)>,
    slots: Seq<(int, int)>,
    n: int,
)
    requires
        0 <= n <= slots.len(),
        fields_refusal(items, all, slots.take(n)) is Some,
    ensures
        fields_refusal(items, all, slots) == fields_refusal(items, all, slots.take(n)),
    decreases slots.len() - n,
{
    if n < slots.len() {
        assert(slots.take(n + 1).drop_last() =~= slots.take(n));
        lemma_fields_refusal_prefix(items, all, slots, n + 1);
    } else {
        assert(slots.take(n) =~= slots);
    }
}

fn same_slice(a: &SliceSpec, b: &SliceSpec) -> (same: bool)
    ensures
        same == (*a == *b),
{
    same_bound(a.start, b.start) && same_bound(a.stop, b.stop) && same_bound(a.step, b.step)
}

fn same_bound(a: Option<isize>, b: Option<isize>) -> (same: bool)
    ensures
        same == (a == b),
{
    match (a, b) {
        (Some(a), Some(b)) => a == b,
        (None, None) => true,
        _ => false,
    }
}

fn same_mm_slice(a: &MmSlice, b: &MmSlice) -> (same: bool)
    ensures
        same == (slice_config(*a) == slice_config(*b)),
{
    match (a, b) {
        (MmSlice::Slice(a), MmSlice::Slice(b)) => same_slice(a, b),
        (MmSlice::Slices(a), MmSlice::Slices(b)) => same_slices(a, b),
        _ => false,
    }
}

fn same_slices(a: &Vec<SliceSpec>, b: &Vec<SliceSpec>) -> (same: bool)
    ensures
        same == (a@ == b@),
{
    if a.len() != b.len() {
        return false;
    }
    for i in 0..a.len()
        invariant
            a@.len() == b@.len(),
            forall|j: int| 0 <= j < i ==> a@[j] == b@[j],
    {
        if !same_slice(&a[i], &b[i]) {
            return false;
        }
    }
    assert(a@ =~= b@);
    true
}

fn same_flat(a: &MmFlatField, b: &MmFlatField) -> (same: bool)
    ensures
        same == (field_config(MmField::Flat(*a)) == field_config(MmField::Flat(*b))),
{
    let ghost left = slice_configs(a.slices@);
    let ghost right = slice_configs(b.slices@);
    assert(left.len() == a.slices@.len() && right.len() == b.slices@.len());
    if a.dim != b.dim || a.keep_on_cpu != b.keep_on_cpu || a.slices.len() != b.slices.len() {
        return false;
    }
    for i in 0..a.slices.len()
        invariant
            a.slices@.len() == b.slices@.len(),
            left == slice_configs(a.slices@),
            right == slice_configs(b.slices@),
            forall|j: int| 0 <= j < i ==> left[j] == right[j],
    {
        if !same_mm_slice(&a.slices[i], &b.slices[i]) {
            assert(left[i as int] != right[i as int]);
            return false;
        }
    }
    assert(left =~= right);
    true
}

fn same_field(a: &MmField, b: &MmField) -> (same: bool)
    ensures
        same == (field_config(*a) == field_config(*b)),
{
    match (a, b) {
        (MmField::Batched(a), MmField::Batched(b)) => a.keep_on_cpu == b.keep_on_cpu,
        (MmField::Shared(a), MmField::Shared(b)) => a.batch_size == b.batch_size && a.keep_on_cpu
            == b.keep_on_cpu,
        (MmField::Flat(a), MmField::Flat(b)) => same_flat(a, b),
        _ => false,
    }
}

fn validate_slice_step(slice: &SliceSpec) -> (result: Result<(), Status>)
    ensures
        refusal(result) == step_refusal(*slice),
{
    match slice.step {
        Some(0) => Err(Status::invalid_argument("multimodal slice step must not be zero")),
        _ => Ok(()),
    }
}

fn validate_mm_slice(slice: &MmSlice) -> (result: Result<(), Status>)
    ensures
        refusal(result) == slice_refusal(slice_config(*slice)),
{
    match slice {
        MmSlice::Slice(slice) => validate_slice_step(slice),
        MmSlice::Slices(slices) => {
            if slices.len() == 0 || slices.len() > MAX_MM_TENSOR_RANK {
                return Err(
                    Status::invalid_argument(
                        "multimodal flat-field slice tuple must contain 1 to 32 slices",
                    ),
                );
            }
            for i in 0..slices.len()
                invariant
                    0 < slices@.len() <= MAX_MM_TENSOR_RANK,
                    *slice == MmSlice::Slices(*slices),
                    forall|j: int| 0 <= j < i ==> (#[trigger] slices@[j]).step != Some(0isize),
            {
                match validate_slice_step(&slices[i]) {
                    Ok(()) => {},
                    Err(status) => {
                        assert(slices@[i as int].step == Some(0isize));
                        return Err(status);
                    },
                }
            }
            Ok(())
        },
    }
}

fn validate_dim(dim: i32, data: &MmKwargValue) -> (result: Result<(), Status>)
    ensures
        refusal(result) == dim_refusal(dim, *data),
{
    match data {
        MmKwargValue::Tensor(tensor) => {
            let rank: i32 = if tensor.shape.len() <= 0x7fff_ffff {
                tensor.shape.len() as i32
            } else {
                0x7fff_ffff
            };
            if rank == 0 || dim < -rank || dim >= rank {
                Err(
                    Status::invalid_argument(
                        "multimodal flat-field dim is outside the tensor rank",
                    ),
                )
            } else {
                Ok(())
            }
        },
        _ => if dim != 0 {
            Err(Status::invalid_argument("multimodal non-tensor flat fields require dim=0"))
        } else {
            Ok(())
        },
    }
}

pub fn validate_mm_field(
    field: &MmField,
    data: &MmKwargValue,
    occurrences: usize,
) -> (result: Result<(), Status>)
    ensures
        refusal(result) == field_refusal(field_config(*field), *data, occurrences as nat),
{
    match field {
        MmField::Batched(_) => Ok(()),
        MmField::Shared(shared) => {
            if shared.batch_size == 0 || shared.batch_size != occurrences {
                return Err(
                    Status::invalid_argument(
                        "multimodal shared-field batch_size must match item count",
                    ),
                );
            }
            Ok(())
        },
        MmField::Flat(flat) => {
            if flat.slices.len() == 0 || flat.slices.len() != occurrences {
                return Err(
                    Status::invalid_argument("multimodal flat-field slices must match item count"),
                );
            }
            let ghost configs = slice_configs(flat.slices@);
            for i in 0..flat.slices.len()
                invariant
                    *field == MmField::Flat(*flat),
                    flat.slices@.len() == occurrences,
                    configs == slice_configs(flat.slices@),
                    slices_refusal(configs.take(i as int)) is None,
            {
                assert(configs.take(i + 1).drop_last() =~= configs.take(i as int));
                assert(configs.take(i + 1).last() == slice_config(flat.slices@[i as int]));
                match validate_mm_slice(&flat.slices[i]) {
                    Ok(()) => {},
                    Err(status) => {
                        proof {
                            lemma_slices_refusal_prefix(configs, i + 1);
                        }
                        return Err(status);
                    },
                }
            }
            assert(configs.take(configs.len() as int) =~= configs);
            validate_dim(flat.dim, data)
        },
    }
}

/// The positions of all fields of a batch.
spec fn slot_views(slots: Seq<(usize, usize)>) -> Seq<(int, int)> {
    Seq::new(slots.len(), |i: int| (slots[i].0 as int, slots[i].1 as int))
}

/// Whether a position is that of a field.
spec fn within(items: Seq<TaggedItem>, slot: (int, int)) -> bool {
    0 <= slot.0 < items.len() && 0 <= slot.1 < items[slot.0].fields.len()
}

spec fn all_within(items: Seq<TaggedItem>, slots: Seq<(int, int)>) -> bool {
    forall|i: int| 0 <= i < slots.len() ==> within(items, #[trigger] slots[i])
}

fn collect_slots(features: &Vec<MmFeatureSpec>) -> (slots: Vec<(usize, usize)>)
    requires
        carry_values(features@),
    ensures
        slot_views(slots@) == field_slots(tagged_all(features@)),
        all_within(tagged_all(features@), slot_views(slots@)),
{
    let mut slots: Vec<(usize, usize)> = Vec::new();
    let ghost items = tagged_all(features@);
    for f in 0..features.len()
        invariant
            carry_values(features@),
            items == tagged_all(features@),
            slot_views(slots@) == field_slots(items.take(f as int)),
            all_within(items, slot_views(slots@)),
    {
        let ghost before = slot_views(slots@);
        assert(features@[f as int].data is Some);
        if let Some(item) = &features[f].data {
            let fields = item.fields();
            for i in 0..fields.len()
                invariant
                    fields@ == item@,
                    f < features@.len(),
                    items == tagged_all(features@),
                    features@[f as int].data == Some(*item),
                    slot_views(slots@) == before + Seq::new(i as nat, |j: int| (f as int, j)),
                    all_within(items, slot_views(slots@)),
            {
                let ghost prior = slot_views(slots@);
                slots.push((f, i));
                assert(within(items, (f as int, i as int)));
                assert(slot_views(slots@) =~= prior.push((f as int, i as int)));
                assert(slot_views(slots@) =~= before + Seq::new(
                    (i + 1) as nat,
                    |j: int| (f as int, j),
                ));
            }
        }
        assert(items.take(f + 1).drop_last() =~= items.take(f as int));
        assert(items.take(f + 1).last() == items[f as int]);
        assert(slot_views(slots@) =~= field_slots(items.take(f + 1)));
    }
    assert(items.take(items.len() as int) =~= items);
    slots
}

fn is_same_identity(features: &Vec<MmFeatureSpec>, a: (usize, usize), b: (usize, usize)) -> (same:
    bool)
    requires
        carry_values(features@),
        within(tagged_all(features@), (a.0 as int, a.1 as int)),
        within(tagged_all(features@), (b.0 as int, b.1 as int)),
    ensures
        same == same_identity(
            tagged_all(features@),
            (a.0 as int, a.1 as int),
            (b.0 as int, b.1 as int),
        ),
{
    same_text(features[a.0].modality.as_str(), features[b.0].modality.as_str()) && same_text(
        field_at(features, a).0.as_str(),
        field_at(features, b).0.as_str(),
    )
}

fn field_at(features: &Vec<MmFeatureSpec>, slot: (usize, usize)) -> (field: &(
    String,
    MmFieldElem,
))
    requires
        carry_values(features@),
        within(tagged_all(features@), (slot.0 as int, slot.1 as int)),
    ensures
        *field == slot_entry(tagged_all(features@), (slot.0 as int, slot.1 as int)),
        field.1.data is Some,
{
    assert(features@[slot.0 as int].data is Some);
    let item = features[slot.0].data.as_ref().unwrap();
    assert(all_inline(item@));
    &item.fields()[slot.1]
}

fn count_occurrences(
    features: &Vec<MmFeatureSpec>,
    slots: &Vec<(usize, usize)>,
    slot: (usize, usize),
) -> (count: usize)
    requires
        carry_values(features@),
        all_within(tagged_all(features@), slot_views(slots@)),
        within(tagged_all(features@), (slot.0 as int, slot.1 as int)),
    ensures
        count == occurrences(
            tagged_all(features@),
            slot_views(slots@),
            (slot.0 as int, slot.1 as int),
        ),
{
    let ghost items = tagged_all(features@);
    let ghost all = slot_views(slots@);
    let mut count: usize = 0;
    for i in 0..slots.len()
        invariant
            carry_values(features@),
            items == tagged_all(features@),
            all == slot_views(slots@),
            all_within(items, all),
            within(items, (slot.0 as int, slot.1 as int)),
            count == occurrences(items, all.take(i as int), (slot.0 as int, slot.1 as int)),
            count <= i,
    {
        assert(within(items, all[i as int]));
        assert(all.take(i + 1).drop_last() =~= all.take(i as int));
        if is_same_identity(features, slots[i], slot) {
            count += 1;
        }
    }
    assert(all.take(all.len() as int) =~= all);
    count
}

fn agreeing(features: &Vec<MmFeatureSpec>, slots: &Vec<(usize, usize)>) -> (agree: bool)
    requires
        carry_values(features@),
        all_within(tagged_all(features@), slot_views(slots@)),
    ensures
        agree == configs_agree(tagged_all(features@), slot_views(slots@)),
{
    let ghost items = tagged_all(features@);
    let ghost all = slot_views(slots@);
    for b in 0..slots.len()
        invariant
            carry_values(features@),
            items == tagged_all(features@),
            all == slot_views(slots@),
            all_within(items, all),
            configs_agree(items, all.take(b as int)),
    {
        for a in 0..b
            invariant
                carry_values(features@),
                items == tagged_all(features@),
                all == slot_views(slots@),
                all_within(items, all),
                b < slots@.len(),
                forall|i: int|
                    0 <= i < a && same_identity(items, #[trigger] all[i], all[b as int])
                        ==> slot_config(items, all[i]) == slot_config(items, all[b as int]),
        {
            assert(within(items, all[a as int]) && within(items, all[b as int]));
            if is_same_identity(features, slots[a], slots[b]) && !same_field(
                &field_at(features, slots[a]).1.field,
                &field_at(features, slots[b]).1.field,
            ) {
                assert(same_identity(items, all[a as int], all[b as int]));
                return false;
            }
        }
        assert(configs_agree(items, all.take(b + 1))) by {
            let longer = all.take(b + 1);
            assert forall|i: int, j: int|
                #![trigger longer[i], longer[j]]
                0 <= i < j < longer.len() && same_identity(
                    items,
                    longer[i],
                    longer[j],
                ) implies slot_config(items, longer[i]) == slot_config(items, longer[j]) by {
                if j < b {
                    assert(all.take(b as int)[i] == longer[i] && all.take(b as int)[j]
                        == longer[j]);
                } else {
                    assert(all[i] == longer[i]);
                }
            }
        }
    }
    assert(all.take(all.len() as int) =~= all);
    true
}

/// Checks the layout of the fields that the items of a request carry.
pub fn validate_mm_field_metadata(features: &Vec<MmFeatureSpec>) -> (result: Result<(), Status>)
    requires
        carry_values(features@),
    ensures
        refusal(result) == metadata_refusal(tagged_all(features@)),
{
    let slots = collect_slots(features);
    let ghost items = tagged_all(features@);
    let ghost all = slot_views(slots@);
    if !agreeing(features, &slots) {
        return Err(
            Status::invalid_argument("multimodal field configuration differs across items"),
        );
    }
    for i in 0..slots.len()
        invariant
            carry_values(features@),
            items == tagged_all(features@),
            all == slot_views(slots@),
            all == field_slots(items),
            all_within(items, all),
            configs_agree(items, all),
            fields_refusal(items, all, all.take(i as int)) is None,
    {
        assert(within(items, all[i as int]));
        assert(all.take(i + 1).drop_last() =~= all.take(i as int));
        assert(all.take(i + 1).last() == all[i as int]);
        let count: usize = count_occurrences(features, &slots, slots[i]);
        let entry = field_at(features, slots[i]);
        if let Some(data) = &entry.1.data {
            match validate_mm_field(&entry.1.field, data, count) {
                Ok(()) => {},
                Err(status) => {
                    proof {
                        lemma_fields_refusal_prefix(items, all, all, i + 1);
                    }
                    return Err(status);
                },
            }
        }
    }
    assert(all.take(all.len() as int) =~= all);
    Ok(())
}

/// Whether an item belongs to that modality and has a field of that name.
pub open spec fn holds(item: TaggedItem, modality: Seq<char>, name: Seq<char>) -> bool {
    item.modality == modality && exists|i: int|
        0 <= i < item.fields.len() && (#[trigger] item.fields[i]).0@ == name
}

/// How many items of that modality have a field of that name.
pub open spec fn holders(items: Seq<TaggedItem>, modality: Seq<char>, name: Seq<char>) -> nat
    decreases items.len(),
{
    if items.len() == 0 {
        0
    } else if holds(items.last(), modality, name) {
        holders(items.drop_last(), modality, name) + 1
    } else {
        holders(items.drop_last(), modality, name)
    }
}

proof fn lemma_occurrences_add(
    items: Seq<TaggedItem>,
    a: Seq<(int, int)>,
    b: Seq<(int, int)>,
    slot: (int, int),
)
    ensures
        occurrences(items, a + b, slot) == occurrences(items, a, slot) + occurrences(
            items,
            b,
            slot,
        ),
    decreases b.len(),
{
    if b.len() == 0 {
        assert(a + b =~= a);
    } else {
        assert((a + b).drop_last() =~= a + b.drop_last());
        lemma_occurrences_add(items, a, b.drop_last(), slot);
    }
}

/// Among the first fields of one item, a name occurs once or not at all.
proof fn lemma_occurrences_in_item(
    items: Seq<TaggedItem>,
    at: int,
    n: nat,
    slot: (int, int),
)
    requires
        0 <= at < items.len(),
        n <= items[at].fields.len(),
        in_name_order(items[at].fields),
    ensures
        occurrences(items, Seq::new(n, |i: int| (at, i)), slot) == if holds(
            TaggedItem { fields: items[at].fields.take(n as int), ..items[at] },
            items[slot.0].modality,
            slot_entry(items, slot).0@,
        ) {
            1nat
        } else {
            0nat
        },
    decreases n,
{
    let name = slot_entry(items, slot).0@;
    let fields = items[at].fields;
    let some = fields.take(n as int);
    if n > 0 {
        let fewer = fields.take(n - 1);
        lemma_occurrences_in_item(items, at, (n - 1) as nat, slot);
        let slots = Seq::new(n, |i: int| (at, i));
        assert(slots.drop_last() =~= Seq::new((n - 1) as nat, |i: int| (at, i)));
        assert(slots.last() == (at, n - 1));
        assert(some[n - 1] == fields[n - 1]);
        let modality = items[slot.0].modality;
        let whole = TaggedItem { fields: some, ..items[at] };
        let part = TaggedItem { fields: fewer, ..items[at] };
        if fields[n - 1].0@ == name {
            assert forall|i: int| 0 <= i < n - 1 implies (#[trigger] fewer[i]).0@ != name by {
                ordered_names_are_distinct(fields, i, n - 1);
            }
            assert(!holds(part, modality, name));
            assert(whole.fields[n - 1].0@ == name);
        } else {
            if holds(part, modality, name) {
                let i = choose|i: int|
                    0 <= i < part.fields.len() && (#[trigger] part.fields[i]).0@ == name;
                assert(whole.fields[i].0@ == name);
            }
            if holds(whole, modality, name) {
                let i = choose|i: int|
                    0 <= i < whole.fields.len() && (#[trigger] whole.fields[i]).0@ == name;
                assert(part.fields[i].0@ == name);
            }
        }
    }
}

proof fn lemma_occurrences_up_to(items: Seq<TaggedItem>, n: int, slot: (int, int))
    requires
        0 <= n <= items.len(),
        forall|i: int| 0 <= i < items.len() ==> in_name_order((#[trigger] items[i]).fields),
    ensures
        occurrences(items, field_slots(items.take(n)), slot) == holders(
            items.take(n),
            items[slot.0].modality,
            slot_entry(items, slot).0@,
        ),
    decreases n,
{
    if n > 0 {
        let at = n - 1;
        assert(items.take(n).drop_last() =~= items.take(at));
        assert(items.take(n).last() == items[at]);
        lemma_occurrences_up_to(items, at, slot);
        let own = Seq::new(items[at].fields.len(), |i: int| (at, i));
        assert(field_slots(items.take(n)) =~= field_slots(items.take(at)) + own);
        lemma_occurrences_add(items, field_slots(items.take(at)), own, slot);
        lemma_occurrences_in_item(items, at, items[at].fields.len(), slot);
        assert(items[at].fields.take(items[at].fields.len() as int) =~= items[at].fields);
    }
}

/// A field occurs as often in a batch as there are items of its modality that have it: no item
/// has it twice.
pub proof fn fields_are_counted_by_items(items: Seq<TaggedItem>, slot: (int, int))
    requires
        forall|i: int| 0 <= i < items.len() ==> in_name_order((#[trigger] items[i]).fields),
    ensures
        occurrences(items, field_slots(items), slot) == holders(
            items,
            items[slot.0].modality,
            slot_entry(items, slot).0@,
        ),
        occurrences(items, field_slots(items), slot) <= items.len(),
{
    assert(items.take(items.len() as int) =~= items);
    lemma_occurrences_up_to(items, items.len() as int, slot);
    lemma_holders_bound(items, items[slot.0].modality, slot_entry(items, slot).0@);
}

proof fn lemma_holders_bound(items: Seq<TaggedItem>, modality: Seq<char>, name: Seq<char>)
    ensures
        holders(items, modality, name) <= items.len(),
    decreases items.len(),
{
    if items.len() > 0 {
        lemma_holders_bound(items.drop_last(), modality, name);
    }
}

proof fn lemma_slices_refused(slices: Seq<SliceConfig>)
    ensures
        slices_refusal(slices) is None <==> forall|i: int|
            0 <= i < slices.len() ==> slice_refusal(#[trigger] slices[i]) is None,
    decreases slices.len(),
{
    if slices.len() > 0 {
        let before = slices.drop_last();
        lemma_slices_refused(before);
        assert(forall|i: int| 0 <= i < before.len() ==> slices[i] == #[trigger] before[i]);
        assert(slices[slices.len() - 1] == slices.last());
        if slices_refusal(slices) is None {
            assert forall|i: int| 0 <= i < slices.len() implies slice_refusal(
                #[trigger] slices[i],
            ) is None by {
                if i < before.len() {
                    assert(slice_refusal(before[i]) is None);
                }
            }
        }
    }
}

/// Slices are accepted where no step is zero; a tuple of them has one to 32.
pub proof fn slices_need_a_step(slice: SliceConfig, slices: Seq<SliceConfig>)
    ensures
        slice matches SliceConfig::One(one) ==> (slice_refusal(slice) is None <==> one.step != Some(
            0isize,
        )),
        slice matches SliceConfig::Tuple(some) ==> (slice_refusal(slice) is None <==> 1
            <= some.len() <= 32 && forall|i: int|
            0 <= i < some.len() ==> (#[trigger] some[i]).step != Some(0isize)),
        slice_refusal(slice) matches Some(status) ==> status.code == Code::InvalidArgument,
        slices_refusal(slices) is None <==> forall|i: int|
            0 <= i < slices.len() ==> slice_refusal(#[trigger] slices[i]) is None,
{
    lemma_slices_refused(slices);
}

/// A field is accepted as it is laid out: a batched one always, a shared one where its batch has
/// as many items as carry it, and a flat one where it has a slice for each of them and its
/// dimension is one of the tensor, counted from either end.
pub proof fn fields_are_accepted_by_their_layout(
    field: FieldConfig,
    data: MmKwargValue,
    occurrences: nat,
)
    requires
        data matches MmKwargValue::Tensor(tensor) ==> tensor.shape@.len() <= 2147483647,
    ensures
        field is Batched ==> field_refusal(field, data, occurrences) is None,
        field matches FieldConfig::Shared(shared) ==> (field_refusal(
            field,
            data,
            occurrences,
        ) is None <==> shared.batch_size > 0 && shared.batch_size == occurrences),
        field matches FieldConfig::Flat { slices, dim, .. } ==> (field_refusal(
            field,
            data,
            occurrences,
        ) is None <==> {
            &&& slices.len() > 0 && slices.len() == occurrences
            &&& forall|i: int| 0 <= i < slices.len() ==> slice_refusal(#[trigger] slices[i]) is None
            &&& data matches MmKwargValue::Tensor(tensor) ==> 0 <= dim < tensor.shape@.len() || 0
                < -dim <= tensor.shape@.len()
            &&& !(data is Tensor) ==> dim == 0
        }),
{
    if let FieldConfig::Flat { slices, .. } = field {
        lemma_slices_refused(slices);
    }
}

/// Two layouts are the same where all that they say is: their sort, their sizes, where they are
/// kept and each of their slices.
pub proof fn layouts_are_compared_in_full(a: MmField, b: MmField)
    ensures
        a matches MmField::Batched(x) ==> (field_config(a) == field_config(b) <==> (
        b matches MmField::Batched(y) && x.keep_on_cpu == y.keep_on_cpu)),
        a matches MmField::Shared(x) ==> (field_config(a) == field_config(b) <==> (
        b matches MmField::Shared(y) && x.keep_on_cpu == y.keep_on_cpu && x.batch_size
            == y.batch_size)),
        a matches MmField::Flat(x) ==> (field_config(a) == field_config(b) <==> (
        b matches MmField::Flat(y) && x.keep_on_cpu == y.keep_on_cpu && x.dim == y.dim
            && x.slices@.len() == y.slices@.len() && forall|i: int|
            0 <= i < x.slices@.len() ==> same_selection(#[trigger] x.slices@[i], y.slices@[i]))),
{
    if let MmField::Flat(x) = a {
        if let MmField::Flat(y) = b {
            let left = slice_configs(x.slices@);
            let right = slice_configs(y.slices@);
            if field_config(a) == field_config(b) {
                assert(left.len() == x.slices@.len() && right.len() == y.slices@.len());
                assert forall|i: int| 0 <= i < x.slices@.len() implies same_selection(
                    #[trigger] x.slices@[i],
                    y.slices@[i],
                ) by {
                    assert(left[i] == right[i]);
                }
            }
            if x.slices@.len() == y.slices@.len() && forall|i: int|
                0 <= i < x.slices@.len() ==> same_selection(#[trigger] x.slices@[i], y.slices@[i]) {
                assert(left =~= right);
            }
        }
    }
}

/// Whether two slices, or two tuples of them, select the same.
pub open spec fn same_selection(a: MmSlice, b: MmSlice) -> bool {
    match (a, b) {
        (MmSlice::Slice(x), MmSlice::Slice(y)) => x.start == y.start && x.stop == y.stop && x.step
            == y.step,
        (MmSlice::Slices(x), MmSlice::Slices(y)) => x@ == y@,
        _ => false,
    }
}

proof fn lemma_slots_are_fields(items: Seq<TaggedItem>, n: int)
    requires
        0 <= n <= items.len(),
    ensures
        forall|at: int|
            0 <= at < field_slots(items.take(n)).len() ==> 0 <= (#[trigger] field_slots(
                items.take(n),
            )[at]).0 < n && 0 <= field_slots(items.take(n))[at].1 < items[field_slots(
                items.take(n),
            )[at].0].fields.len(),
        forall|i: int, j: int|
            0 <= i < n && 0 <= j < items[i].fields.len() ==> #[trigger] field_slots(
                items.take(n),
            ).contains((i, j)),
    decreases n,
{
    if n > 0 {
        lemma_slots_are_fields(items, n - 1);
        assert(items.take(n).drop_last() =~= items.take(n - 1));
        assert(items.take(n).last() == items[n - 1]);
        let before = field_slots(items.take(n - 1));
        let own = Seq::new(items[n - 1].fields.len(), |i: int| (n - 1, i));
        let all = field_slots(items.take(n));
        assert(all =~= before + own);
        assert forall|at: int| 0 <= at < all.len() implies 0 <= (#[trigger] all[at]).0 < n && 0
            <= all[at].1 < items[all[at].0].fields.len() by {
            if at < before.len() {
                assert(all[at] == before[at]);
            } else {
                assert(all[at] == own[at - before.len()]);
            }
        }
        assert forall|i: int, j: int|
            0 <= i < n && 0 <= j < items[i].fields.len() implies #[trigger] all.contains(
            (i, j),
        ) by {
            if i < n - 1 {
                assert(before.contains((i, j)));
                let at = choose|at: int| 0 <= at < before.len() && before[at] == (i, j);
                assert(all[at] == (i, j));
            } else {
                assert(own[j] == (i, j));
                assert(all[before.len() + j] == (i, j));
            }
        }
    }
}

proof fn lemma_fields_refused(
    items: Seq<TaggedItem>,
    all: Seq<(int, int)>,
    slots: Seq<(int, int)>,
)
    ensures
        fields_refusal(items, all, slots) is None <==> forall|at: int|
            0 <= at < slots.len() ==> field_refusal(
                slot_config(items, #[trigger] slots[at]),
                slot_entry(items, slots[at]).1.data->Some_0,
                occurrences(items, all, slots[at]),
            ) is None,
    decreases slots.len(),
{
    if slots.len() > 0 {
        let before = slots.drop_last();
        lemma_fields_refused(items, all, before);
        assert(forall|at: int| 0 <= at < before.len() ==> slots[at] == #[trigger] before[at]);
        assert(slots[slots.len() - 1] == slots.last());
        if fields_refusal(items, all, slots) is None {
            assert forall|at: int| 0 <= at < slots.len() implies field_refusal(
                slot_config(items, #[trigger] slots[at]),
                slot_entry(items, slots[at]).1.data->Some_0,
                occurrences(items, all, slots[at]),
            ) is None by {
                if at < before.len() {
                    assert(slots[at] == before[at]);
                }
            }
        }
    }
}

/// The fields of an accepted batch: each is accepted for as many items of its modality as have
/// it, and all of a name within a modality are laid out alike.
pub proof fn accepted_batches_agree(
    items: Seq<TaggedItem>,
    i: int,
    j: int,
    other: int,
    there: int,
)
    requires
        metadata_refusal(items) is None,
        forall|n: int| 0 <= n < items.len() ==> in_name_order((#[trigger] items[n]).fields),
        0 <= i < items.len(),
        0 <= j < items[i].fields.len(),
        0 <= other < items.len(),
        0 <= there < items[other].fields.len(),
    ensures
        field_refusal(
            field_config(items[i].fields[j].1.field),
            items[i].fields[j].1.data->Some_0,
            holders(items, items[i].modality, items[i].fields[j].0@),
        ) is None,
        items[i].modality == items[other].modality && items[i].fields[j].0@
            == items[other].fields[there].0@ ==> field_config(items[i].fields[j].1.field)
            == field_config(items[other].fields[there].1.field),
{
    let slots = field_slots(items);
    assert(items.take(items.len() as int) =~= items);
    lemma_slots_are_fields(items, items.len() as int);
    lemma_fields_refused(items, slots, slots);
    fields_are_counted_by_items(items, (i, j));
    assert(slots.contains((i, j)) && slots.contains((other, there)));
    let a = choose|a: int| 0 <= a < slots.len() && slots[a] == (i, j);
    let b = choose|b: int| 0 <= b < slots.len() && slots[b] == (other, there);
    assert(slots[a] == (i, j) && slots[b] == (other, there));
    if same_identity(items, (i, j), (other, there)) {
        assert(same_identity(items, (other, there), (i, j)));
        if a < b {
            assert(slot_config(items, slots[a]) == slot_config(items, slots[b]));
        } else if b < a {
            assert(slot_config(items, slots[b]) == slot_config(items, slots[a]));
        }
    }
}

/// A batch is refused for a field that is not accepted, or for two of a name within a modality
/// that are laid out otherwise.
pub proof fn refused_batches_disagree(items: Seq<TaggedItem>)
    requires
        metadata_refusal(items) is Some,
        forall|n: int| 0 <= n < items.len() ==> in_name_order((#[trigger] items[n]).fields),
    ensures
        (exists|i: int, j: int|
            0 <= i < items.len() && 0 <= j < items[i].fields.len() && field_refusal(
                field_config((#[trigger] items[i].fields[j]).1.field),
                items[i].fields[j].1.data->Some_0,
                holders(items, items[i].modality, items[i].fields[j].0@),
            ) is Some) || (exists|i: int, j: int, other: int, there: int|
            0 <= i < items.len() && 0 <= j < items[i].fields.len() && 0 <= other < items.len() && 0
                <= there < items[other].fields.len() && items[i].modality == items[other].modality
                && (#[trigger] items[i].fields[j]).0@ == (
            #[trigger] items[other].fields[there]).0@ && field_config(
                items[i].fields[j].1.field,
            ) != field_config(items[other].fields[there].1.field)),
{
    let slots = field_slots(items);
    assert(items.take(items.len() as int) =~= items);
    lemma_slots_are_fields(items, items.len() as int);
    lemma_fields_refused(items, slots, slots);
    if !configs_agree(items, slots) {
        let (a, b) = choose|a: int, b: int|
            #![trigger slots[a], slots[b]]
            0 <= a < b < slots.len() && same_identity(items, slots[a], slots[b]) && slot_config(
                items,
                slots[a],
            ) != slot_config(items, slots[b]);
        let s = slots[a];
        let t = slots[b];
        assert(items[s.0].fields[s.1].0@ == items[t.0].fields[t.1].0@);
        assert(field_config(items[s.0].fields[s.1].1.field) != field_config(
            items[t.0].fields[t.1].1.field,
        ));
    } else {
        let at = choose|at: int|
            0 <= at < slots.len() && field_refusal(
                slot_config(items, #[trigger] slots[at]),
                slot_entry(items, slots[at]).1.data->Some_0,
                occurrences(items, slots, slots[at]),
            ) is Some;
        let s = slots[at];
        fields_are_counted_by_items(items, s);
        assert(field_refusal(
            field_config(items[s.0].fields[s.1].1.field),
            items[s.0].fields[s.1].1.data->Some_0,
            holders(items, items[s.0].modality, items[s.0].fields[s.1].0@),
        ) is Some);
    }
}

/// The holders of a field are the items of its modality that have it.
pub proof fn holders_are_the_items_that_hold(
    items: Seq<TaggedItem>,
    modality: Seq<char>,
    name: Seq<char>,
    has: spec_fn(TaggedItem) -> bool,
)
    requires
        forall|item: TaggedItem| #[trigger]
            has(item) == (item.modality == modality && exists|i: int|
                0 <= i < item.fields.len() && (#[trigger] item.fields[i]).0@ == name),
    ensures
        holders(items, modality, name) == items.filter(has).len(),
    decreases items.len(),
{
    reveal(Seq::filter);
    if items.len() > 0 {
        holders_are_the_items_that_hold(items.drop_last(), modality, name, has);
        assert(has(items.last()) == holds(items.last(), modality, name));
    }
}

/// The item of a feature stands under the modality of the feature and has all its fields.
pub proof fn items_stand_under_their_modality(features: Seq<MmFeatureSpec>, i: int)
    ensures
        tagged_all(features).len() == features.len(),
        0 <= i < features.len() && features[i].data is Some ==> tagged_all(features)[i].modality
            == features[i].modality@ && tagged_all(features)[i].fields
            == features[i].data->Some_0@,
{
}

} // verus!
