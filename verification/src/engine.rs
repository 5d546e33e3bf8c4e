//! What the engine is sent and what it reports: tensors, multimodal features, structured
//! output constraints, and the handshake answer.

use crate::json::JsonValue;
use crate::numbers::Float64;
use crate::text::{
    is_text_before, lemma_bytes_before_irreflexive, lemma_bytes_before_trans, text_before,
};
use vstd::prelude::*;
use vstd::utf8::encode_utf8;

verus! {

/// The bytes of an array: in place, or at an index of a side channel.
#[derive(Clone, Debug, PartialEq, Eq)]
pub enum WireArrayData {
    RawView(Vec<u8>),
    AuxIndex(usize),
}

#[derive(Clone, Debug, PartialEq, Eq)]
pub struct WireTensor {
    pub dtype: String,
    pub shape: Vec<usize>,
    pub data: WireArrayData,
}

#[derive(Debug, PartialEq, Eq)]
pub enum MmKwargValue {
    Tensor(WireTensor),
    List(Vec<MmKwargValue>),
    Int(i64),
    Float(Float64),
}

#[derive(Clone, Copy, Debug, PartialEq, Eq, Structural)]
pub struct MmBatchedField {
    pub keep_on_cpu: bool,
}

#[derive(Clone, Copy, Debug, PartialEq, Eq, Structural)]
pub struct MmSharedField {
    pub batch_size: usize,
    pub keep_on_cpu: bool,
}

#[derive(Clone, Copy, Debug, PartialEq, Eq)]
pub struct SliceSpec {
    pub start: Option<isize>,
    pub stop: Option<isize>,
    pub step: Option<isize>,
}

#[derive(Clone, Debug, PartialEq, Eq)]
pub enum MmSlice {
    Slice(SliceSpec),
    Slices(Vec<SliceSpec>),
}

#[derive(Clone, Debug, PartialEq, Eq)]
pub struct MmFlatField {
    pub slices: Vec<MmSlice>,
    pub dim: i32,
    pub keep_on_cpu: bool,
}

/// How the values of one field are laid out over the items of a batch.
#[derive(Clone, Debug, PartialEq, Eq)]
pub enum MmField {
    Batched(MmBatchedField),
    Shared(MmSharedField),
    Flat(MmFlatField),
}

#[derive(Debug, PartialEq, Eq)]
pub struct MmFieldElem {
    pub data: Option<MmKwargValue>,
    pub field: MmField,
}

/// The fields of one multimodal item by name, in the order of their names. No name occurs twice.
#[derive(Debug, PartialEq, Eq)]
pub struct MmKwargsItem {
    fields: Vec<(String, MmFieldElem)>,
}

/// Whether fields stand in the order of their names, each name once.
pub open spec fn in_name_order(fields: Seq<(String, MmFieldElem)>) -> bool {
    forall|i: int, j: int|
        0 <= i < j < fields.len() ==> text_before((#[trigger] fields[i]).0@, (
        #[trigger] fields[j]).0@)
}

/// Fields in the order of their names have different names.
pub proof fn ordered_names_are_distinct(fields: Seq<(String, MmFieldElem)>, i: int, j: int)
    requires
        in_name_order(fields),
        0 <= i < j < fields.len(),
    ensures
        fields[i].0@ != fields[j].0@,
{
    lemma_bytes_before_irreflexive(encode_utf8(fields[i].0@));
}

impl View for MmKwargsItem {
    type V = Seq<(String, MmFieldElem)>;

    closed spec fn view(&self) -> Seq<(String, MmFieldElem)> {
        self.fields@
    }
}

impl MmKwargsItem {
    #[verifier::type_invariant]
    spec fn ordered(self) -> bool {
        in_name_order(self.fields@)
    }

    /// An item of these fields, if they stand in the order of their names, each name once.
    pub fn from_ordered(fields: Vec<(String, MmFieldElem)>) -> (item: Option<MmKwargsItem>)
        ensures
            match item {
                Some(item) => in_name_order(fields@) && item@ == fields@,
                None => !in_name_order(fields@),
            },
    {
        for n in 0..fields.len()
            invariant
                in_name_order(fields@.take(n as int)),
        {
            let ghost shorter = fields@.take(n as int);
            let ghost longer = fields@.take(n + 1);
            if n > 0 && !is_text_before(fields[n - 1].0.as_str(), fields[n].0.as_str()) {
                return None;
            }
            assert forall|i: int, j: int| 0 <= i < j < longer.len() implies text_before(
                (#[trigger] longer[i]).0@,
                (#[trigger] longer[j]).0@,
            ) by {
                if j < n {
                    assert(longer[i] == shorter[i] && longer[j] == shorter[j]);
                } else if i < n - 1 {
                    assert(text_before(shorter[i].0@, shorter[n - 1].0@));
                    lemma_bytes_before_trans(
                        encode_utf8(fields@[i].0@),
                        encode_utf8(fields@[n - 1].0@),
                        encode_utf8(fields@[n as int].0@),
                    );
                }
            }
        }
        assert(fields@.take(fields@.len() as int) =~= fields@);
        Some(MmKwargsItem { fields })
    }

    pub fn fields(&self) -> (fields: &Vec<(String, MmFieldElem)>)
        ensures
            fields@ == self@,
            in_name_order(self@),
    {
        proof {
            use_type_invariant(self);
        }
        &self.fields
    }
}

/// Where in the prompt a multimodal item stands.
#[derive(Clone, Debug, PartialEq, Eq)]
pub struct PlaceholderRange {
    pub offset: usize,
    pub length: usize,
    pub is_embed: Option<Vec<bool>>,
}

#[derive(Debug, PartialEq, Eq)]
pub struct MmFeatureSpec {
    pub data: Option<MmKwargsItem>,
    pub modality: String,
    pub identifier: String,
    pub mm_position: PlaceholderRange,
    pub mm_hash: Option<String>,
}

/// A part of a prompt that is not text.
#[derive(Clone, Debug, PartialEq, Eq)]
pub enum MediaContentPart {
    ImageUrl { url: String, detail: Option<String>, uuid: Option<String> },
    ImageData {
        data: Vec<u8>,
        mime_type: Option<String>,
        uuid: Option<String>,
        detail: Option<String>,
    },
}

#[derive(Debug, PartialEq, Eq)]
pub enum StructuredOutputConstraint {
    Json(JsonValue),
    Regex(String),
    Choice(Vec<String>),
    Grammar(String),
    JsonObject,
    StructuralTag(String),
}

#[derive(Clone, Debug, Default, PartialEq, Eq)]
pub struct StructuredOutputOptions {
    pub disable_any_whitespace: bool,
    pub disable_additional_properties: bool,
    pub whitespace_pattern: Option<String>,
}

#[derive(Clone, Copy, Debug, PartialEq, Eq, Structural)]
pub enum StructuredOutputBackend {
    Guidance,
    Xgrammar,
    Outlines,
    LmFormatEnforcer,
}

/// A constraint on the generated text. Without a backend of its own, the engine's default one
/// enforces it.
#[derive(Debug, PartialEq, Eq)]
pub struct StructuredOutputsParams {
    pub constraint: StructuredOutputConstraint,
    pub options: StructuredOutputOptions,
    pub backend: Option<StructuredOutputBackend>,
}

/// What one rank of the engine says of itself once it is ready.
#[derive(Clone, Debug, PartialEq, Eq)]
pub struct EngineCoreReadyResponse {
    pub vllm_version: String,
    pub instance_id: String,
    pub tensor_parallel_size: u32,
    pub pipeline_parallel_size: u32,
    pub data_parallel_size: u64,
    pub data_parallel_rank: u32,
    pub decode_context_parallel_size: u32,
    pub block_size: u64,
    pub kv_event_block_size: u64,
    pub num_gpu_blocks: u64,
    pub max_num_seqs: u32,
    pub max_num_batched_tokens: u32,
    pub max_loras: u32,
    pub supports_lora: bool,
    pub kv_role: Option<String>,
    pub kv_engine_id: Option<String>,
    pub kv_events_publisher: Option<String>,
    pub kv_events_endpoint: Option<String>,
    pub kv_events_topic: Option<String>,
}

} // verus!
