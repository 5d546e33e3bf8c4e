//! Preprocessed multimodal features of a request.

use super::fields::{
    all_inline, carry_values, metadata_refusal, tagged, tagged_all, validate_mm_field_metadata,
    TaggedItem,
};
use super::identity::{cache_identifier, mm_cache_identifier};
use super::msgpack::{
    accepted_values_are_bounded, preflight, preflight_msgpack, MAX_MM_NODES,
};
use super::tensors::{item_refusal, lemma_item_is_inline, validate_mm_kwargs_item};
use crate::engine::{in_name_order, MmFeatureSpec, MmFieldElem, MmKwargsItem, PlaceholderRange};
use crate::generation::Prompt;
use crate::grpc::pb;
use crate::status::{
    invalid_argument, refusal, resource_exhausted, Code, Status, StatusView,
};
use crate::text::same_text;
use vstd::prelude::*;
use vstd::utf8::encode_utf8;

verus! {

pub const MAX_MM_FEATURE_BYTES: usize = 16_777_216;

pub const MAX_MM_FEATURES: usize = 64;

pub const MAX_MM_MODALITY_BYTES: usize = 64;

pub const MAX_MM_HASH_BYTES: usize = 256;

/// What a decoder read from the kwargs of one feature, and how many bytes it took.
#[derive(Debug, PartialEq, Eq)]
pub struct DecodedKwargs {
    pub item: MmKwargsItem,
    pub consumed: u64,
}

/// What a feature says.
pub struct FeatureView {
    pub data: Option<Seq<(String, MmFieldElem)>>,
    pub modality: Seq<char>,
    pub identifier: Seq<char>,
    pub offset: nat,
    pub length: nat,
    pub is_embed: Option<Seq<bool>>,
    pub mm_hash: Option<Seq<char>>,
}

pub open spec fn feature_view(feature: MmFeatureSpec) -> FeatureView {
    FeatureView {
        data: match feature.data {
            Some(item) => Some(item@),
            None => None,
        },
        modality: feature.modality@,
        identifier: feature.identifier@,
        offset: feature.mm_position.offset as nat,
        length: feature.mm_position.length as nat,
        is_embed: match feature.mm_position.is_embed {
            Some(mask) => Some(mask@),
            None => None,
        },
        mm_hash: match feature.mm_hash {
            Some(hash) => Some(hash@),
            None => None,
        },
    }
}

pub open spec fn feature_views(features: Seq<MmFeatureSpec>) -> Seq<FeatureView> {
    Seq::new(features.len(), |i: int| feature_view(features[i]))
}

/// Whether every feature carries its item, with fields in the order of their names, each name
/// once.
pub open spec fn items_ordered(features: Seq<MmFeatureSpec>) -> bool {
    forall|i: int|
        0 <= i < features.len() ==> (#[trigger] features[i]).data is Some && in_name_order(
            features[i].data->Some_0@,
        )
}

/// The feature that a wire feature stands for, once its kwargs are decoded.
pub open spec fn wanted(
    feature: pb::PreprocessedMultimodalFeature,
    decoded: Result<DecodedKwargs, String>,
) -> FeatureView {
    let position = feature.position->Some_0;
    let identifier = cache_identifier(feature.modality@, feature.kwargs_msgpack->Some_0@);
    FeatureView {
        data: Some(decoded->Ok_0.item@),
        modality: feature.modality@,
        identifier,
        offset: position.offset as nat,
        length: position.length as nat,
        is_embed: if position.is_embed@.len() == 0 {
            None
        } else {
            Some(position.is_embed@)
        },
        mm_hash: Some(identifier),
    }
}

/// The first `n` features of a request.
pub open spec fn wanted_all(
    features: Seq<pb::PreprocessedMultimodalFeature>,
    decoded: Seq<Result<DecodedKwargs, String>>,
    n: nat,
) -> Seq<FeatureView> {
    Seq::new(n, |i: int| wanted(features[i], decoded[i]))
}

/// `sorted` with `feature` behind all that do not start later.
pub open spec fn insert_by_offset(sorted: Seq<FeatureView>, feature: FeatureView) -> Seq<
    FeatureView,
>
    decreases sorted.len(),
{
    if sorted.len() == 0 || sorted.last().offset <= feature.offset {
        sorted.push(feature)
    } else {
        insert_by_offset(sorted.drop_last(), feature).push(sorted.last())
    }
}

/// The features in the order in which they start; those that start together keep their order.
pub open spec fn by_offset(features: Seq<FeatureView>) -> Seq<FeatureView>
    decreases features.len(),
{
    if features.len() == 0 {
        Seq::empty()
    } else {
        insert_by_offset(by_offset(features.drop_last()), features.last())
    }
}

/// Whether two features lie over a common position of the prompt.
pub open spec fn overlap(a: FeatureView, b: FeatureView) -> bool {
    a.offset < b.offset + b.length && b.offset < a.offset + a.length
}

pub open spec fn any_overlap(features: Seq<FeatureView>) -> bool {
    exists|i: int, j: int|
        0 <= i < j < features.len() && overlap(#[trigger] features[i], #[trigger] features[j])
}

/// What the checks have counted so far, and the refusal that ended them.
pub struct Progress {
    pub encoded: nat,
    pub nodes: nat,
    pub refusal: Option<StatusView>,
}

/// The refusal of a feature that needs no look at its kwargs.
pub open spec fn outline_refusal(
    feature: pb::PreprocessedMultimodalFeature,
    prompt_len: nat,
) -> Option<StatusView> {
    let modality_bytes = encode_utf8(feature.modality@).len();
    let hash_bytes = encode_utf8(feature.mm_hash@).len();
    if modality_bytes == 0 || modality_bytes > MAX_MM_MODALITY_BYTES {
        Some(
            invalid_argument("multimodal feature modality must contain between 1 and 64 bytes"@),
        )
    } else if hash_bytes == 0 || hash_bytes > MAX_MM_HASH_BYTES {
        Some(
            invalid_argument("multimodal feature mm_hash must contain between 1 and 256 bytes"@),
        )
    } else {
        match feature.position {
            None => Some(invalid_argument("multimodal feature position is required"@)),
            Some(position) => if position.offset > usize::MAX {
                Some(invalid_argument("multimodal feature offset is too large"@))
            } else if position.length > usize::MAX {
                Some(invalid_argument("multimodal feature length is too large"@))
            } else if position.length == 0 {
                Some(invalid_argument("multimodal feature length must be positive"@))
            } else if position.offset + position.length > usize::MAX {
                Some(invalid_argument("multimodal feature range overflows"@))
            } else if position.offset + position.length > prompt_len {
                Some(invalid_argument("multimodal feature range exceeds token_ids"@))
            } else if position.is_embed@.len() != 0 && position.is_embed@.len()
                != position.length {
                Some(
                    invalid_argument(
                        "multimodal feature is_embed length must match position length"@,
                    ),
                )
            } else if feature.kwargs_msgpack is None {
                Some(
                    invalid_argument(
                        "multimodal feature kwargs_msgpack is required; unverified cache hits are unsupported"@,
                    ),
                )
            } else {
                None
            },
        }
    }
}

/// The checks on the next feature that come before its kwargs are decoded.
pub open spec fn before_decode(
    so_far: Progress,
    feature: pb::PreprocessedMultimodalFeature,
    prompt_len: nat,
) -> Progress {
    match outline_refusal(feature, prompt_len) {
        Some(status) => Progress { refusal: Some(status), ..so_far },
        None => {
            let raw = feature.kwargs_msgpack->Some_0@;
            let encoded = so_far.encoded + raw.len();
            let scan = preflight(raw, so_far.nodes);
            if encoded > usize::MAX {
                Progress {
                    refusal: Some(
                        resource_exhausted("multimodal feature payload is too large"@),
                    ),
                    ..so_far
                }
            } else if encoded > MAX_MM_FEATURE_BYTES {
                Progress {
                    refusal: Some(
                        resource_exhausted("multimodal feature payload exceeds 16 MiB"@),
                    ),
                    ..so_far
                }
            } else {
                Progress { encoded, nodes: scan.nodes, refusal: scan.refusal }
            }
        },
    }
}

/// The checks that need the decoded kwargs of a feature.
pub open spec fn decoded_refusal(
    feature: pb::PreprocessedMultimodalFeature,
    decoded: Result<DecodedKwargs, String>,
) -> Option<StatusView> {
    let raw = feature.kwargs_msgpack->Some_0@;
    let identifier = cache_identifier(feature.modality@, raw);
    match decoded {
        Err(error) => Some(
            invalid_argument("invalid multimodal kwargs msgpack: "@ + error@),
        ),
        Ok(decoded) => if decoded.consumed != raw.len() {
            Some(invalid_argument("multimodal kwargs msgpack contains trailing data"@))
        } else if item_refusal(decoded.item@) is Some {
            item_refusal(decoded.item@)
        } else if feature.cache_identifier@ != identifier {
            Some(
                invalid_argument(
                    "multimodal feature cache_identifier does not match its canonical payload identity"@,
                ),
            )
        } else if feature.mm_hash@ != identifier {
            Some(
                invalid_argument(
                    "multimodal feature mm_hash does not match its canonical payload identity"@,
                ),
            )
        } else {
            None
        },
    }
}

/// Where the checks stand after the first `n` features, each checked in full before the next.
pub open spec fn progress(
    features: Seq<pb::PreprocessedMultimodalFeature>,
    decoded: Seq<Result<DecodedKwargs, String>>,
    prompt_len: nat,
    n: nat,
) -> Progress
    decreases n,
{
    if n == 0 {
        Progress { encoded: 0, nodes: 0, refusal: None }
    } else {
        let so_far = progress(features, decoded, prompt_len, (n - 1) as nat);
        if so_far.refusal is Some {
            so_far
        } else {
            let next = before_decode(so_far, features[n - 1], prompt_len);
            if next.refusal is Some {
                next
            } else {
                Progress {
                    refusal: decoded_refusal(features[n - 1], decoded[n - 1]),
                    ..next
                }
            }
        }
    }
}

/// Where the checks that come before decoding stand after the first `n` features.
pub open spec fn outline(
    features: Seq<pb::PreprocessedMultimodalFeature>,
    prompt_len: nat,
    n: nat,
) -> Progress
    decreases n,
{
    if n == 0 {
        Progress { encoded: 0, nodes: 0, refusal: None }
    } else {
        let so_far = outline(features, prompt_len, (n - 1) as nat);
        if so_far.refusal is Some {
            so_far
        } else {
            before_decode(so_far, features[n - 1], prompt_len)
        }
    }
}

/// How many features, counted from the first, pass the checks that come before decoding, where
/// the first `n` do.
pub open spec fn decodable_from(
    features: Seq<pb::PreprocessedMultimodalFeature>,
    prompt_len: nat,
    n: nat,
) -> nat
    decreases features.len() - n,
{
    if n < features.len() && outline(features, prompt_len, n + 1).refusal is None {
        decodable_from(features, prompt_len, n + 1)
    } else {
        n
    }
}

/// The refusal of a batch of features that needs no look at any of them.
pub open spec fn batch_refusal(
    features: Seq<pb::PreprocessedMultimodalFeature>,
    prompt: Prompt,
) -> Option<StatusView> {
    match prompt {
        Prompt::Text(_) => Some(
            invalid_argument("preprocessed multimodal features require token_ids input"@),
        ),
        Prompt::TokenIds(ids) => if features.len() > MAX_MM_FEATURES || features.len()
            > ids@.len() {
            Some(resource_exhausted("too many preprocessed multimodal features"@))
        } else {
            None
        },
    }
}

/// How many features, counted from the first, have kwargs that are to be decoded, for a prompt
/// of `prompt_len` token ids.
pub open spec fn decodable_tokens(
    features: Seq<pb::PreprocessedMultimodalFeature>,
    prompt_len: nat,
) -> nat {
    if features.len() > MAX_MM_FEATURES || features.len() > prompt_len {
        0
    } else {
        decodable_from(features, prompt_len, 0)
    }
}

/// How many features, counted from the first, have kwargs that are to be decoded.
pub open spec fn decodable(
    features: Seq<pb::PreprocessedMultimodalFeature>,
    prompt: Prompt,
) -> nat {
    match prompt {
        Prompt::TokenIds(ids) => decodable_tokens(features, ids@.len()),
        Prompt::Text(_) => 0,
    }
}

pub open spec fn tags(features: Seq<FeatureView>) -> Seq<TaggedItem> {
    Seq::new(
        features.len(),
        |i: int| TaggedItem { modality: features[i].modality, fields: features[i].data->Some_0 },
    )
}

pub open spec fn mm_features_refusal(
    features: Seq<pb::PreprocessedMultimodalFeature>,
    decoded: Seq<Result<DecodedKwargs, String>>,
    prompt: Prompt,
) -> Option<StatusView> {
    if features.len() == 0 {
        None
    } else if batch_refusal(features, prompt) is Some {
        batch_refusal(features, prompt)
    } else {
        let prompt_len = prompt->TokenIds_0@.len();
        let sorted = by_offset(wanted_all(features, decoded, features.len()));
        match progress(features, decoded, prompt_len, features.len()).refusal {
            Some(status) => Some(status),
            None => if any_overlap(sorted) {
                Some(invalid_argument("multimodal feature ranges must not overlap"@))
            } else {
                metadata_refusal(tags(sorted))
            },
        }
    }
}

proof fn lemma_progress_refused(
    features: Seq<pb::PreprocessedMultimodalFeature>,
    decoded: Seq<Result<DecodedKwargs, String>>,
    prompt_len: nat,
    n: nat,
    m: nat,
)
    requires
        n <= m,
        progress(features, decoded, prompt_len, n).refusal is Some,
    ensures
        progress(features, decoded, prompt_len, m) == progress(features, decoded, prompt_len, n),
    decreases m,
{
    if n < m {
        lemma_progress_refused(features, decoded, prompt_len, n, (m - 1) as nat);
    }
}

proof fn lemma_progress_outline(
    features: Seq<pb::PreprocessedMultimodalFeature>,
    decoded: Seq<Result<DecodedKwargs, String>>,
    prompt_len: nat,
    n: nat,
)
    requires
        progress(features, decoded, prompt_len, n).refusal is None,
    ensures
        outline(features, prompt_len, n) == progress(features, decoded, prompt_len, n),
    decreases n,
{
    if n > 0 {
        lemma_progress_outline(features, decoded, prompt_len, (n - 1) as nat);
    }
}

proof fn lemma_outline_prefix(
    features: Seq<pb::PreprocessedMultimodalFeature>,
    prompt_len: nat,
    n: nat,
    m: nat,
)
    requires
        n <= m,
        outline(features, prompt_len, m).refusal is None,
    ensures
        outline(features, prompt_len, n).refusal is None,
    decreases m,
{
    if n < m {
        lemma_outline_prefix(features, prompt_len, n, (m - 1) as nat);
    }
}

proof fn lemma_decodable(
    features: Seq<pb::PreprocessedMultimodalFeature>,
    prompt_len: nat,
    n: nat,
    m: nat,
)
    requires
        n <= m <= features.len(),
        outline(features, prompt_len, m).refusal is None,
    ensures
        decodable_from(features, prompt_len, n) >= m,
    decreases m - n,
{
    if n < m {
        lemma_outline_prefix(features, prompt_len, n + 1, m);
        lemma_decodable(features, prompt_len, n + 1, m);
    } else {
        lemma_decodable_bounds(features, prompt_len, n);
    }
}

proof fn lemma_decodable_bounds(
    features: Seq<pb::PreprocessedMultimodalFeature>,
    prompt_len: nat,
    n: nat,
)
    requires
        n <= features.len(),
    ensures
        n <= decodable_from(features, prompt_len, n) <= features.len(),
    decreases features.len() - n,
{
    if n < features.len() && outline(features, prompt_len, n + 1).refusal is None {
        lemma_decodable_bounds(features, prompt_len, n + 1);
    }
}

/// Checks a feature before its kwargs are decoded, and adds what it holds to the totals.
fn check_before_decode(
    feature: &pb::PreprocessedMultimodalFeature,
    prompt_len: usize,
    encoded_bytes: &mut usize,
    wire_nodes: &mut usize,
) -> (result: Result<(), Status>)
    ensures
        ({
            let so_far = Progress {
                encoded: *old(encoded_bytes) as nat,
                nodes: *old(wire_nodes) as nat,
                refusal: None,
            };
            let next = before_decode(so_far, *feature, prompt_len as nat);
            &&& refusal(result) == next.refusal
            &&& result is Ok ==> *final(encoded_bytes) == next.encoded && *final(wire_nodes)
                == next.nodes && outline_refusal(*feature, prompt_len as nat) is None
        }),
{
    let modality_bytes: usize = feature.modality.as_str().as_bytes().len();
    if modality_bytes == 0 || modality_bytes > MAX_MM_MODALITY_BYTES {
        return Err(
            Status::invalid_argument(
                "multimodal feature modality must contain between 1 and 64 bytes",
            ),
        );
    }
    let hash_bytes: usize = feature.mm_hash.as_str().as_bytes().len();
    if hash_bytes == 0 || hash_bytes > MAX_MM_HASH_BYTES {
        return Err(
            Status::invalid_argument(
                "multimodal feature mm_hash must contain between 1 and 256 bytes",
            ),
        );
    }
    let position = match &feature.position {
        Some(position) => position,
        None => {
            return Err(Status::invalid_argument("multimodal feature position is required"));
        },
    };
    if position.offset > usize::MAX as u64 {
        return Err(Status::invalid_argument("multimodal feature offset is too large"));
    }
    if position.length > usize::MAX as u64 {
        return Err(Status::invalid_argument("multimodal feature length is too large"));
    }
    let offset: usize = position.offset as usize;
    let length: usize = position.length as usize;
    if length == 0 {
        return Err(Status::invalid_argument("multimodal feature length must be positive"));
    }
    let end: usize = match offset.checked_add(length) {
        Some(end) => end,
        None => {
            return Err(Status::invalid_argument("multimodal feature range overflows"));
        },
    };
    if end > prompt_len {
        return Err(Status::invalid_argument("multimodal feature range exceeds token_ids"));
    }
    if position.is_embed.len() != 0 && position.is_embed.len() != length {
        return Err(
            Status::invalid_argument(
                "multimodal feature is_embed length must match position length",
            ),
        );
    }
    let raw = match &feature.kwargs_msgpack {
        Some(raw) => raw,
        None => {
            return Err(
                Status::invalid_argument(
                    "multimodal feature kwargs_msgpack is required; unverified cache hits are unsupported",
                ),
            );
        },
    };
    let encoded: usize = match encoded_bytes.checked_add(raw.len()) {
        Some(encoded) => encoded,
        None => {
            return Err(Status::resource_exhausted("multimodal feature payload is too large"));
        },
    };
    if encoded > MAX_MM_FEATURE_BYTES {
        return Err(Status::resource_exhausted("multimodal feature payload exceeds 16 MiB"));
    }
    *encoded_bytes = encoded;
    preflight_msgpack(raw.as_slice(), wire_nodes)
}

/// Builds a feature from its decoded kwargs.
fn finish_feature(
    feature: &pb::PreprocessedMultimodalFeature,
    decoded: Result<DecodedKwargs, String>,
    prompt_len: usize,
) -> (result: Result<MmFeatureSpec, Status>)
    requires
        outline_refusal(*feature, prompt_len as nat) is None,
    ensures
        refusal(result) == decoded_refusal(*feature, decoded),
        result matches Ok(built) ==> feature_view(built) == wanted(*feature, decoded)
            && built.data is Some && all_inline(built.data->Some_0@) && in_name_order(
            built.data->Some_0@,
        ),
{
    let decoded = match decoded {
        Ok(decoded) => decoded,
        Err(error) => {
            let message = "invalid multimodal kwargs msgpack: ".to_string().concat(error.as_str());
            return Err(Status::invalid_argument(message.as_str()));
        },
    };
    let raw = feature.kwargs_msgpack.as_ref().unwrap();
    let position = feature.position.as_ref().unwrap();
    if decoded.consumed != raw.len() as u64 {
        return Err(
            Status::invalid_argument("multimodal kwargs msgpack contains trailing data"),
        );
    }
    let item = decoded.item;
    match validate_mm_kwargs_item(&item) {
        Ok(()) => {},
        Err(status) => {
            return Err(status);
        },
    }
    let identifier = mm_cache_identifier(feature.modality.as_str(), raw.as_slice());
    if !same_text(feature.cache_identifier.as_str(), identifier.as_str()) {
        return Err(
            Status::invalid_argument(
                "multimodal feature cache_identifier does not match its canonical payload identity",
            ),
        );
    }
    if !same_text(feature.mm_hash.as_str(), identifier.as_str()) {
        return Err(
            Status::invalid_argument(
                "multimodal feature mm_hash does not match its canonical payload identity",
            ),
        );
    }
    proof {
        lemma_item_is_inline(item@);
    }
    let is_embed = if position.is_embed.len() == 0 {
        None
    } else {
        Some(position.is_embed.clone())
    };
    Ok(
        MmFeatureSpec {
            data: Some(item),
            modality: feature.modality.clone(),
            identifier: identifier.clone(),
            mm_position: PlaceholderRange {
                offset: position.offset as usize,
                length: position.length as usize,
                is_embed,
            },
            mm_hash: Some(identifier),
        },
    )
}

/// The number of features, counted from the first, whose kwargs are to be decoded for
/// `convert_mm_features`, where the prompt has `prompt_len` token ids. With a prompt that is
/// text, none are.
pub fn mm_features_to_decode(
    features: &Vec<pb::PreprocessedMultimodalFeature>,
    prompt_len: usize,
) -> (count: usize)
    ensures
        count == decodable_tokens(features@, prompt_len as nat),
        count <= features@.len(),
{
    if features.len() > MAX_MM_FEATURES || features.len() > prompt_len {
        return 0;
    }
    let mut encoded_bytes: usize = 0;
    let mut wire_nodes: usize = 0;
    for i in 0..features.len()
        invariant
            features@.len() <= MAX_MM_FEATURES,
            features@.len() <= prompt_len,
            outline(features@, prompt_len as nat, i as nat) == (Progress {
                encoded: encoded_bytes as nat,
                nodes: wire_nodes as nat,
                refusal: None,
            }),
            decodable_from(features@, prompt_len as nat, 0) == decodable_from(
                features@,
                prompt_len as nat,
                i as nat,
            ),
    {
        match check_before_decode(&features[i], prompt_len, &mut encoded_bytes, &mut wire_nodes) {
            Ok(()) => {},
            Err(_) => {
                return i;
            },
        }
    }
    features.len()
}

proof fn lemma_insert_position(sorted: Seq<FeatureView>, feature: FeatureView, at: int)
    requires
        0 <= at <= sorted.len(),
        at == 0 || sorted[at - 1].offset <= feature.offset,
        forall|i: int| at <= i < sorted.len() ==> (#[trigger] sorted[i]).offset > feature.offset,
    ensures
        insert_by_offset(sorted, feature) == sorted.insert(at, feature),
    decreases sorted.len(),
{
    if at < sorted.len() {
        assert(sorted.last().offset > feature.offset);
        lemma_insert_position(sorted.drop_last(), feature, at);
        assert(sorted.drop_last().insert(at, feature).push(sorted.last()) =~= sorted.insert(
            at,
            feature,
        ));
    } else {
        assert(sorted.insert(at, feature) =~= sorted.push(feature));
    }
}

/// Puts a feature behind all that do not start later.
fn insert_feature(features: &mut Vec<MmFeatureSpec>, feature: MmFeatureSpec)
    ensures
        feature_views(final(features)@) == insert_by_offset(
            feature_views(old(features)@),
            feature_view(feature),
        ),
        carry_values(old(features)@) && carry_values(seq![feature]) ==> carry_values(
            final(features)@,
        ),
{
    let ghost before = features@;
    let ghost sorted = feature_views(features@);
    let mut at: usize = features.len();
    while at > 0 && features[at - 1].mm_position.offset > feature.mm_position.offset
        invariant
            features@ == before,
            sorted == feature_views(features@),
            at <= features@.len(),
            forall|i: int|
                at <= i < sorted.len() ==> (#[trigger] sorted[i]).offset > feature_view(
                    feature,
                ).offset,
        decreases at,
    {
        assert(sorted[at - 1] == feature_view(features@[at - 1]));
        at -= 1;
    }
    proof {
        if at > 0 {
            assert(sorted[at - 1] == feature_view(features@[at - 1]));
        }
        lemma_insert_position(sorted, feature_view(feature), at as int);
    }
    features.insert(at, feature);
    assert(feature_views(features@) =~= sorted.insert(at as int, feature_view(feature)));
    assert(carry_values(before) && carry_values(seq![feature]) ==> carry_values(features@)) by {
        if carry_values(before) && carry_values(seq![feature]) {
            assert(seq![feature][0].data is Some);
            assert forall|i: int| 0 <= i < features@.len() implies (
            #[trigger] features@[i]).data is Some && all_inline(
                features@[i].data->Some_0@,
            ) by {
                if i < at {
                    assert(features@[i] == before[i]);
                } else if i > at {
                    assert(features@[i] == before[i - 1]);
                }
            }
        }
    }
}

/// Whether the features stand in the order in which they start.
pub open spec fn in_order(features: Seq<FeatureView>) -> bool {
    forall|i: int, j: int|
        0 <= i <= j < features.len() ==> (#[trigger] features[i]).offset <= (
        #[trigger] features[j]).offset
}

proof fn lemma_insert_in_order(sorted: Seq<FeatureView>, feature: FeatureView)
    requires
        in_order(sorted),
    ensures
        in_order(insert_by_offset(sorted, feature)),
        insert_by_offset(sorted, feature).len() == sorted.len() + 1,
        insert_by_offset(sorted, feature).to_multiset() == sorted.to_multiset().insert(feature),
        forall|bound: nat|
            #![trigger starts_by(insert_by_offset(sorted, feature), bound)]
            starts_by(sorted, bound) && feature.offset <= bound ==> starts_by(
                insert_by_offset(sorted, feature),
                bound,
            ),
    decreases sorted.len(),
{
    broadcast use vstd::seq_lib::group_to_multiset_ensures;

    if sorted.len() == 0 || sorted.last().offset <= feature.offset {
    } else {
        let shorter = insert_by_offset(sorted.drop_last(), feature);
        lemma_insert_in_order(sorted.drop_last(), feature);
        assert(starts_by(sorted.drop_last(), sorted.last().offset));
        assert(starts_by(shorter, sorted.last().offset));
        assert(sorted.drop_last().push(sorted.last()) =~= sorted);
        assert(shorter.push(sorted.last()).to_multiset() =~= sorted.to_multiset().insert(feature));
    }
}

/// Whether every feature starts at `bound` or before.
spec fn starts_by(features: Seq<FeatureView>, bound: nat) -> bool {
    forall|i: int| 0 <= i < features.len() ==> (#[trigger] features[i]).offset <= bound
}

/// Ordering features keeps them all and puts them in the order in which they start.
pub proof fn ordering_is_sorted_and_complete(features: Seq<FeatureView>)
    ensures
        in_order(by_offset(features)),
        by_offset(features).len() == features.len(),
        by_offset(features).to_multiset() == features.to_multiset(),
    decreases features.len(),
{
    broadcast use vstd::seq_lib::group_to_multiset_ensures;

    if features.len() > 0 {
        ordering_is_sorted_and_complete(features.drop_last());
        lemma_insert_in_order(by_offset(features.drop_last()), features.last());
        assert(features.drop_last().push(features.last()) =~= features);
    }
}

/// Whether some feature of an ordered batch reaches into the one behind it.
fn reaches_into_next(features: &Vec<MmFeatureSpec>, prompt_len: usize) -> (found: bool)
    requires
        in_order(feature_views(features@)),
        forall|i: int|
            0 <= i < features@.len() ==> 0 < (#[trigger] features@[i]).mm_position.length
                && features@[i].mm_position.offset + features@[i].mm_position.length <= prompt_len,
    ensures
        found == any_overlap(feature_views(features@)),
{
    let ghost views = feature_views(features@);
    if features.len() < 2 {
        return false;
    }
    for i in 0..features.len() - 1
        invariant
            2 <= features@.len(),
            views == feature_views(features@),
            in_order(views),
            forall|i: int|
                0 <= i < features@.len() ==> 0 < (#[trigger] features@[i]).mm_position.length
                    && features@[i].mm_position.offset + features@[i].mm_position.length
                    <= prompt_len,
            forall|j: int|
                0 <= j < i ==> (#[trigger] views[j]).offset + views[j].length <= views[j
                    + 1].offset,
    {
        let previous = &features[i].mm_position;
        assert(features@[i as int].mm_position.length > 0);
        assert(features@[i + 1].mm_position.length > 0);
        if previous.offset + previous.length > features[i + 1].mm_position.offset {
            assert(overlap(views[i as int], views[i + 1]));
            return true;
        }
    }
    assert(!any_overlap(views)) by {
        assert forall|i: int, j: int| 0 <= i < j < views.len() implies !overlap(
            #[trigger] views[i],
            #[trigger] views[j],
        ) by {
            assert(views[i + 1].offset <= views[j].offset);
        }
    }
    false
}

/// Converts the preprocessed multimodal features of a request. `decoded` holds what was decoded
/// from the kwargs of the features, for at least as many of them as
/// `mm_features_to_decode` tells.
pub fn convert_mm_features(
    features: &Vec<pb::PreprocessedMultimodalFeature>,
    decoded: Vec<Result<DecodedKwargs, String>>,
    prompt: &Prompt,
) -> (result: Result<Option<Vec<MmFeatureSpec>>, Status>)
    requires
        decoded@.len() >= decodable(features@, *prompt),
    ensures
        refusal(result) == mm_features_refusal(features@, decoded@, *prompt),
        result matches Ok(converted) ==> match converted {
            None => features@.len() == 0,
            Some(converted) => features@.len() > 0 && items_ordered(converted@) && feature_views(
                converted@,
            ) == by_offset(wanted_all(features@, decoded@, features@.len())),
        },
{
    if features.len() == 0 {
        return Ok(None);
    }
    let ids = match prompt {
        Prompt::TokenIds(ids) => ids,
        Prompt::Text(_) => {
            return Err(
                Status::invalid_argument(
                    "preprocessed multimodal features require token_ids input",
                ),
            );
        },
    };
    if features.len() > MAX_MM_FEATURES || features.len() > ids.len() {
        return Err(Status::resource_exhausted("too many preprocessed multimodal features"));
    }
    let ghost all = decoded@;
    let mut rest = decoded;
    let mut encoded_bytes: usize = 0;
    let mut wire_nodes: usize = 0;
    let mut converted: Vec<MmFeatureSpec> = Vec::new();
    assert(all.skip(0) =~= all);
    assert(feature_views(converted@) =~= by_offset(wanted_all(features@, all, 0)));
    for i in 0..features.len()
        invariant
            features@.len() > 0,
            all == decoded@,
            *prompt == Prompt::TokenIds(*ids),
            batch_refusal(features@, *prompt) is None,
            all.len() >= decodable(features@, *prompt),
            i <= all.len(),
            rest@ == all.skip(i as int),
            progress(features@, all, ids@.len(), i as nat) == (Progress {
                encoded: encoded_bytes as nat,
                nodes: wire_nodes as nat,
                refusal: None,
            }),
            feature_views(converted@) == by_offset(wanted_all(features@, all, i as nat)),
            carry_values(converted@),
            forall|k: int|
                0 <= k < i ==> outline_refusal(#[trigger] features@[k], ids@.len()) is None
                    && in_name_order(wanted(features@[k], all[k]).data->Some_0),
    {
        proof {
            lemma_progress_outline(features@, all, ids@.len(), i as nat);
        }
        match check_before_decode(&features[i], ids.len(), &mut encoded_bytes, &mut wire_nodes) {
            Ok(()) => {},
            Err(status) => {
                proof {
                    lemma_progress_refused(
                        features@,
                        all,
                        ids@.len(),
                        (i + 1) as nat,
                        features@.len(),
                    );
                }
                return Err(status);
            },
        }
        proof {
            lemma_decodable(features@, ids@.len(), 0, (i + 1) as nat);
        }
        let next = rest.remove(0);
        assert(next == all[i as int]);
        assert(rest@ =~= all.skip(i + 1));
        match finish_feature(&features[i], next, ids.len()) {
            Ok(feature) => {
                let ghost so_far = wanted_all(features@, all, i as nat);
                let ghost longer = wanted_all(features@, all, (i + 1) as nat);
                assert(longer.drop_last() =~= so_far);
                assert(carry_values(seq![feature]));
                insert_feature(&mut converted, feature);
            },
            Err(status) => {
                proof {
                    lemma_progress_refused(
                        features@,
                        all,
                        ids@.len(),
                        (i + 1) as nat,
                        features@.len(),
                    );
                }
                return Err(status);
            },
        }
    }
    let ghost request = wanted_all(features@, all, features@.len());
    let ghost sorted = by_offset(request);
    proof {
        ordering_is_sorted_and_complete(request);
        assert forall|i: int| 0 <= i < converted@.len() implies 0 < (
        #[trigger] converted@[i]).mm_position.length && converted@[i].mm_position.offset
            + converted@[i].mm_position.length <= ids@.len() by {
            lemma_same_members(sorted, request, i);
            assert(feature_views(converted@)[i] == feature_view(converted@[i]));
            let k = choose|k: int| 0 <= k < request.len() && request[k] == sorted[i];
            assert(outline_refusal(features@[k], ids@.len()) is None);
        }
        assert forall|i: int| 0 <= i < converted@.len() implies (
        #[trigger] converted@[i]).data is Some && in_name_order(
            converted@[i].data->Some_0@,
        ) by {
            lemma_same_members(sorted, request, i);
            assert(feature_views(converted@)[i] == feature_view(converted@[i]));
            let k = choose|k: int| 0 <= k < request.len() && request[k] == sorted[i];
            assert(outline_refusal(features@[k], ids@.len()) is None);
        }
        assert(tagged_all(converted@) =~= tags(sorted)) by {
            assert forall|i: int| 0 <= i < converted@.len() implies tagged(
                #[trigger] converted@[i],
            ) == tags(sorted)[i] by {
                assert(feature_views(converted@)[i] == feature_view(converted@[i]));
            }
        }
    }
    if reaches_into_next(&converted, ids.len()) {
        return Err(Status::invalid_argument("multimodal feature ranges must not overlap"));
    }
    match validate_mm_field_metadata(&converted) {
        Ok(()) => Ok(Some(converted)),
        Err(status) => Err(status),
    }
}

proof fn lemma_progress_accepts(
    features: Seq<pb::PreprocessedMultimodalFeature>,
    decoded: Seq<Result<DecodedKwargs, String>>,
    prompt_len: nat,
    n: nat,
    k: int,
)
    requires
        progress(features, decoded, prompt_len, n).refusal is None,
        0 <= k < n,
    ensures
        outline_refusal(features[k], prompt_len) is None,
        decoded_refusal(features[k], decoded[k]) is None,
    decreases n,
{
    if k < n - 1 {
        lemma_progress_accepts(features, decoded, prompt_len, (n - 1) as nat, k);
    }
}

proof fn lemma_progress_bounds(
    features: Seq<pb::PreprocessedMultimodalFeature>,
    decoded: Seq<Result<DecodedKwargs, String>>,
    prompt_len: nat,
    n: nat,
)
    requires
        n <= features.len(),
        progress(features, decoded, prompt_len, n).refusal is None,
    ensures
        progress(features, decoded, prompt_len, n).encoded == payload_bytes(
            features.take(n as int),
        ),
        progress(features, decoded, prompt_len, n).encoded <= MAX_MM_FEATURE_BYTES,
        progress(features, decoded, prompt_len, n).nodes <= MAX_MM_NODES,
    decreases n,
{
    if n > 0 {
        let before = progress(features, decoded, prompt_len, (n - 1) as nat);
        lemma_progress_bounds(features, decoded, prompt_len, (n - 1) as nat);
        accepted_values_are_bounded(features[n - 1].kwargs_msgpack->Some_0@, before.nodes);
        assert(features.take(n as int).drop_last() =~= features.take(n - 1));
    } else {
        assert(features.take(0).len() == 0);
    }
}

/// The number of bytes of kwargs that some features carry.
pub open spec fn payload_bytes(features: Seq<pb::PreprocessedMultimodalFeature>) -> nat
    decreases features.len(),
{
    if features.len() == 0 {
        0
    } else {
        payload_bytes(features.drop_last()) + features.last().kwargs_msgpack->Some_0@.len()
    }
}

/// Accepted features lie within the prompt, one behind the other, each under the identity of
/// its own payload, and their payloads together stay within the limit.
pub proof fn accepted_features_are_disjoint(
    features: Seq<pb::PreprocessedMultimodalFeature>,
    decoded: Seq<Result<DecodedKwargs, String>>,
    prompt: Prompt,
)
    requires
        features.len() > 0,
        mm_features_refusal(features, decoded, prompt) is None,
    ensures
        ({
            let sorted = by_offset(wanted_all(features, decoded, features.len()));
            &&& prompt is TokenIds
            &&& sorted.len() == features.len() <= MAX_MM_FEATURES
            &&& forall|i: int|
                0 <= i < sorted.len() ==> 0 < (#[trigger] sorted[i]).length && sorted[i].offset
                    + sorted[i].length <= prompt->TokenIds_0@.len()
            &&& forall|i: int, j: int|
                0 <= i < j < sorted.len() ==> (#[trigger] sorted[i]).offset + sorted[i].length <= (
                #[trigger] sorted[j]).offset
            &&& forall|k: int|
                0 <= k < features.len() ==> (#[trigger] features[k]).mm_hash@ == cache_identifier(
                    features[k].modality@,
                    features[k].kwargs_msgpack->Some_0@,
                ) && features[k].cache_identifier@ == features[k].mm_hash@
            &&& payload_bytes(features) <= MAX_MM_FEATURE_BYTES
        }),
{
    let ids = prompt->TokenIds_0@;
    let request = wanted_all(features, decoded, features.len());
    let sorted = by_offset(request);
    ordering_is_sorted_and_complete(request);
    lemma_progress_bounds(features, decoded, ids.len(), features.len());
    assert(features.take(features.len() as int) =~= features);
    assert forall|i: int| 0 <= i < sorted.len() implies 0 < (#[trigger] sorted[i]).length
        && sorted[i].offset + sorted[i].length <= ids.len() by {
        lemma_same_members(sorted, request, i);
        let k = choose|k: int| 0 <= k < request.len() && request[k] == sorted[i];
        lemma_progress_accepts(features, decoded, ids.len(), features.len(), k);
    }
    assert forall|i: int, j: int| 0 <= i < j < sorted.len() implies (#[trigger] sorted[i]).offset
        + sorted[i].length <= (#[trigger] sorted[j]).offset by {
        assert(!overlap(sorted[i], sorted[j]));
    }
    assert forall|k: int| 0 <= k < features.len() implies (#[trigger] features[k]).mm_hash@
        == cache_identifier(features[k].modality@, features[k].kwargs_msgpack->Some_0@)
        && features[k].cache_identifier@ == features[k].mm_hash@ by {
        lemma_progress_accepts(features, decoded, ids.len(), features.len(), k);
    }
}

proof fn lemma_insert_somewhere(sorted: Seq<FeatureView>, feature: FeatureView) -> (at: int)
    ensures
        0 <= at <= sorted.len(),
        insert_by_offset(sorted, feature) == sorted.insert(at, feature),
    decreases sorted.len(),
{
    if sorted.len() == 0 || sorted.last().offset <= feature.offset {
        assert(sorted.insert(sorted.len() as int, feature) =~= sorted.push(feature));
        sorted.len() as int
    } else {
        let at = lemma_insert_somewhere(sorted.drop_last(), feature);
        assert(sorted.drop_last().insert(at, feature).push(sorted.last()) =~= sorted.insert(
            at,
            feature,
        ));
        at
    }
}

/// Whether `feature` overlaps one of `features`.
spec fn overlaps_one(features: Seq<FeatureView>, feature: FeatureView) -> bool {
    exists|i: int| 0 <= i < features.len() && overlap(#[trigger] features[i], feature)
}

proof fn lemma_insert_overlap(features: Seq<FeatureView>, at: int, feature: FeatureView)
    requires
        0 <= at <= features.len(),
    ensures
        any_overlap(features.insert(at, feature)) == (any_overlap(features) || overlaps_one(
            features,
            feature,
        )),
        forall|other: FeatureView|
            #![trigger overlaps_one(features.insert(at, feature), other)]
            overlaps_one(features.insert(at, feature), other) == (overlaps_one(features, other)
                || overlap(feature, other)),
{
    let longer = features.insert(at, feature);
    assert(longer[at] == feature);
    assert(forall|i: int| 0 <= i < at ==> longer[i] == #[trigger] features[i]);
    assert(forall|i: int| at <= i < features.len() ==> longer[i + 1] == #[trigger] features[i]);
    if any_overlap(features) {
        let (i, j) = choose|i: int, j: int|
            0 <= i < j < features.len() && overlap(#[trigger] features[i], #[trigger] features[j]);
        let a = if i < at {
            i
        } else {
            i + 1
        };
        let b = if j < at {
            j
        } else {
            j + 1
        };
        assert(overlap(longer[a], longer[b]));
    }
    if overlaps_one(features, feature) {
        let i = choose|i: int|
            0 <= i < features.len() && overlap(#[trigger] features[i], feature);
        if i < at {
            assert(overlap(longer[i], longer[at]));
        } else {
            assert(overlap(longer[at], longer[i + 1]));
        }
    }
    if any_overlap(longer) {
        let (i, j) = choose|i: int, j: int|
            0 <= i < j < longer.len() && overlap(#[trigger] longer[i], #[trigger] longer[j]);
        if i == at {
            assert(overlap(features[j - 1], feature));
        } else if j == at {
            assert(overlap(features[i], feature));
        } else {
            let a = if i < at {
                i
            } else {
                i - 1
            };
            let b = if j < at {
                j
            } else {
                j - 1
            };
            assert(overlap(features[a], features[b]));
        }
    }
    assert forall|other: FeatureView|
        #![trigger overlaps_one(longer, other)]
        overlaps_one(longer, other) == (overlaps_one(features, other) || overlap(
            feature,
            other,
        )) by {
        if overlaps_one(longer, other) {
            let i = choose|i: int| 0 <= i < longer.len() && overlap(#[trigger] longer[i], other);
            if i < at {
                assert(overlap(features[i], other));
            } else if i > at {
                assert(overlap(features[i - 1], other));
            }
        }
        if overlaps_one(features, other) {
            let i = choose|i: int|
                0 <= i < features.len() && overlap(#[trigger] features[i], other);
            if i < at {
                assert(overlap(longer[i], other));
            } else {
                assert(overlap(longer[i + 1], other));
            }
        }
        if overlap(feature, other) {
            assert(overlap(longer[at], other));
        }
    }
}

proof fn lemma_order_overlap(features: Seq<FeatureView>)
    ensures
        any_overlap(by_offset(features)) == any_overlap(features),
        forall|other: FeatureView| #[trigger]
            overlaps_one(by_offset(features), other) == overlaps_one(features, other),
    decreases features.len(),
{
    if features.len() > 0 {
        let shorter = features.drop_last();
        lemma_order_overlap(shorter);
        let at = lemma_insert_somewhere(by_offset(shorter), features.last());
        lemma_insert_overlap(by_offset(shorter), at, features.last());
        lemma_insert_overlap(shorter, shorter.len() as int, features.last());
        assert(shorter.insert(shorter.len() as int, features.last()) =~= features);
    }
}

/// Whether features overlap does not depend on the order in which a request lists them.
pub proof fn overlap_does_not_depend_on_order(features: Seq<FeatureView>)
    ensures
        any_overlap(by_offset(features)) == any_overlap(features),
{
    lemma_order_overlap(features);
}

proof fn lemma_same_members(sorted: Seq<FeatureView>, request: Seq<FeatureView>, i: int)
    requires
        sorted.to_multiset() == request.to_multiset(),
        0 <= i < sorted.len(),
    ensures
        exists|k: int| 0 <= k < request.len() && request[k] == sorted[i],
{
    broadcast use vstd::seq_lib::group_to_multiset_ensures;

    assert(sorted.contains(sorted[i]));
    assert(request.to_multiset().count(sorted[i]) > 0);
    assert(request.contains(sorted[i]));
}

proof fn lemma_insert_keeps_order(
    sorted: Seq<FeatureView>,
    feature: FeatureView,
    start: nat,
    starts: spec_fn(FeatureView) -> bool,
)
    requires
        in_order(sorted),
        forall|f: FeatureView| #[trigger] starts(f) == (f.offset == start),
    ensures
        insert_by_offset(sorted, feature).filter(starts) == if feature.offset == start {
            sorted.filter(starts).push(feature)
        } else {
            sorted.filter(starts)
        },
    decreases sorted.len(),
{
    reveal(Seq::filter);
    assert(starts(feature) == (feature.offset == start));
    if sorted.len() == 0 || sorted.last().offset <= feature.offset {
        assert(sorted.push(feature).drop_last() =~= sorted);
    } else {
        let shorter = sorted.drop_last();
        assert(in_order(shorter)) by {
            assert forall|i: int, j: int| 0 <= i <= j < shorter.len() implies (
            #[trigger] shorter[i]).offset <= (#[trigger] shorter[j]).offset by {
                assert(sorted[i].offset <= sorted[j].offset);
            }
        }
        lemma_insert_keeps_order(shorter, feature, start, starts);
        let inserted = insert_by_offset(shorter, feature);
        assert(inserted.push(sorted.last()).drop_last() =~= inserted);
        assert(starts(sorted.last()) == (sorted.last().offset == start));
    }
}

/// Features that start together keep their order when all are put in the order in which they
/// start.
pub proof fn ordering_keeps_what_starts_together(
    features: Seq<FeatureView>,
    start: nat,
    starts: spec_fn(FeatureView) -> bool,
)
    requires
        forall|f: FeatureView| #[trigger] starts(f) == (f.offset == start),
    ensures
        by_offset(features).filter(starts) == features.filter(starts),
    decreases features.len(),
{
    reveal(Seq::filter);
    if features.len() > 0 {
        ordering_keeps_what_starts_together(features.drop_last(), start, starts);
        ordering_is_sorted_and_complete(features.drop_last());
        lemma_insert_keeps_order(
            by_offset(features.drop_last()),
            features.last(),
            start,
            starts,
        );
        assert(starts(features.last()) == (features.last().offset == start));
    }
}

/// Every feature of a request is converted to one that says the same: its modality, where it
/// stands, what was decoded for it, and the identity of its payload as both identifier and hash.
/// A mask that is empty is no mask.
pub proof fn features_carry_the_request(
    converted: Seq<MmFeatureSpec>,
    features: Seq<pb::PreprocessedMultimodalFeature>,
    decoded: Seq<Result<DecodedKwargs, String>>,
    k: int,
)
    requires
        feature_views(converted) == by_offset(wanted_all(features, decoded, features.len())),
        0 <= k < features.len(),
    ensures
        converted.len() == features.len(),
        exists|i: int|
            0 <= i < converted.len() && {
                let feature = #[trigger] converted[i];
                let position = features[k].position->Some_0;
                let identity = cache_identifier(
                    features[k].modality@,
                    features[k].kwargs_msgpack->Some_0@,
                );
                &&& feature.modality@ == features[k].modality@
                &&& feature.mm_position.offset == position.offset
                &&& feature.mm_position.length == position.length
                &&& position.is_embed@.len() == 0 ==> feature.mm_position.is_embed is None
                &&& position.is_embed@.len() > 0 ==> (
                feature.mm_position.is_embed matches Some(mask) && mask@ == position.is_embed@)
                &&& feature.identifier@ == identity
                &&& feature.mm_hash matches Some(hash) && hash@ == identity
                &&& feature.data matches Some(item) && item@ == decoded[k]->Ok_0.item@
            },
{
    let request = wanted_all(features, decoded, features.len());
    let views = feature_views(converted);
    ordering_is_sorted_and_complete(request);
    assert(views.len() == converted.len());
    lemma_same_members(request, views, k);
    let i = choose|i: int| 0 <= i < views.len() && views[i] == request[k];
    assert(views[i] == feature_view(converted[i]));
    assert(request[k] == wanted(features[k], decoded[k]));
}

/// Features need a prompt of token ids, are at most 64 and no more than the prompt has tokens.
pub proof fn batches_are_bounded(
    features: Seq<pb::PreprocessedMultimodalFeature>,
    prompt: Prompt,
)
    ensures
        batch_refusal(features, prompt) is None <==> (prompt matches Prompt::TokenIds(ids)
            && features.len() <= 64 && features.len() <= ids@.len()),
        prompt is Text ==> (batch_refusal(features, prompt) matches Some(status) && status.code
            == Code::InvalidArgument),
        prompt is TokenIds ==> (batch_refusal(features, prompt) matches Some(status) ==> status.code
            == Code::ResourceExhausted),
{
}

/// A feature is well described where its modality has one to 64 bytes and its hash one to 256,
/// it has a position within the prompt that is not empty, its mask, if there is one, is as long,
/// and its payload is there.
pub proof fn features_are_well_described(
    feature: pb::PreprocessedMultimodalFeature,
    prompt_len: nat,
)
    requires
        prompt_len <= usize::MAX,
    ensures
        outline_refusal(feature, prompt_len) is None <==> {
            &&& 1 <= encode_utf8(feature.modality@).len() <= 64
            &&& 1 <= encode_utf8(feature.mm_hash@).len() <= 256
            &&& feature.position matches Some(position) && 0 < position.length && position.offset
                + position.length <= prompt_len && (position.is_embed@.len() == 0
                || position.is_embed@.len() == position.length)
            &&& feature.kwargs_msgpack is Some
        },
        outline_refusal(feature, prompt_len) matches Some(status) ==> status.code
            == Code::InvalidArgument,
{
}

/// The payloads of features add up to at most 16777216 bytes, and each is walked with the count
/// of the values before it.
pub proof fn payloads_add_up(
    so_far: Progress,
    feature: pb::PreprocessedMultimodalFeature,
    prompt_len: nat,
)
    requires
        so_far.refusal is None,
        outline_refusal(feature, prompt_len) is None,
    ensures
        ({
            let raw = feature.kwargs_msgpack->Some_0@;
            let next = before_decode(so_far, feature, prompt_len);
            &&& next.refusal is None <==> so_far.encoded + raw.len() <= 16777216 && preflight(
                raw,
                so_far.nodes,
            ).refusal is None
            &&& next.refusal is None ==> next.encoded == so_far.encoded + raw.len() && next.nodes
                == preflight(raw, so_far.nodes).nodes
            &&& so_far.encoded + raw.len() > 16777216 ==> (next.refusal matches Some(status)
                && status.code == Code::ResourceExhausted)
        }),
{
}

/// What was decoded is accepted where it took the whole payload, its item is accepted, and the
/// feature names the identity of its payload both as identifier and as hash.
pub proof fn decoded_payloads_are_identified(
    feature: pb::PreprocessedMultimodalFeature,
    decoded: Result<DecodedKwargs, String>,
)
    ensures
        ({
            let raw = feature.kwargs_msgpack->Some_0@;
            let identity = cache_identifier(feature.modality@, raw);
            decoded_refusal(feature, decoded) is None <==> (decoded matches Ok(kwargs)
                && kwargs.consumed == raw.len() && item_refusal(kwargs.item@) is None
                && feature.cache_identifier@ == identity && feature.mm_hash@ == identity)
        }),
{
}

/// Features are accepted exactly where their number is, each is well described, their payloads
/// are within bounds and identified, none lie over each other, and their fields agree. Without
/// any there is nothing to refuse.
pub proof fn features_are_accepted_one_by_one(
    features: Seq<pb::PreprocessedMultimodalFeature>,
    decoded: Seq<Result<DecodedKwargs, String>>,
    prompt: Prompt,
)
    ensures
        features.len() == 0 ==> mm_features_refusal(features, decoded, prompt) is None,
        features.len() > 0 ==> (mm_features_refusal(features, decoded, prompt) is None <==> {
            &&& batch_refusal(features, prompt) is None
            &&& forall|k: int|
                0 <= k < features.len() ==> outline_refusal(
                    #[trigger] features[k],
                    prompt->TokenIds_0@.len(),
                ) is None && before_decode(
                    progress(features, decoded, prompt->TokenIds_0@.len(), k as nat),
                    features[k],
                    prompt->TokenIds_0@.len(),
                ).refusal is None && decoded_refusal(features[k], decoded[k]) is None
            &&& !any_overlap(wanted_all(features, decoded, features.len()))
            &&& metadata_refusal(
                tags(by_offset(wanted_all(features, decoded, features.len()))),
            ) is None
        }),
{
    let prompt_len = prompt->TokenIds_0@.len();
    overlap_does_not_depend_on_order(wanted_all(features, decoded, features.len()));
    lemma_progress_step_by_step(features, decoded, prompt_len, features.len());
    assert forall|k: int| 0 <= k < features.len() implies passes_at(
        features,
        decoded,
        prompt_len,
        k,
    ) == (outline_refusal(#[trigger] features[k], prompt_len) is None && before_decode(
        progress(features, decoded, prompt_len, k as nat),
        features[k],
        prompt_len,
    ).refusal is None && decoded_refusal(features[k], decoded[k]) is None) by {}
    if forall|k: int| 0 <= k < features.len() ==> #[trigger] passes_at(
        features,
        decoded,
        prompt_len,
        k,
    ) {
        assert forall|k: int| 0 <= k < features.len() implies outline_refusal(
            #[trigger] features[k],
            prompt_len,
        ) is None && before_decode(
            progress(features, decoded, prompt_len, k as nat),
            features[k],
            prompt_len,
        ).refusal is None && decoded_refusal(features[k], decoded[k]) is None by {
            assert(passes_at(features, decoded, prompt_len, k));
        }
    } else {
        let k = choose|k: int| 0 <= k < features.len() && !#[trigger] passes_at(
            features,
            decoded,
            prompt_len,
            k,
        );
        assert(!(outline_refusal(features[k], prompt_len) is None && before_decode(
            progress(features, decoded, prompt_len, k as nat),
            features[k],
            prompt_len,
        ).refusal is None && decoded_refusal(features[k], decoded[k]) is None));
    }
}

/// Whether the feature at `k` passes all checks, where those before it were counted.
spec fn passes_at(
    features: Seq<pb::PreprocessedMultimodalFeature>,
    decoded: Seq<Result<DecodedKwargs, String>>,
    prompt_len: nat,
    k: int,
) -> bool {
    &&& before_decode(
        progress(features, decoded, prompt_len, k as nat),
        features[k],
        prompt_len,
    ).refusal is None
    &&& decoded_refusal(features[k], decoded[k]) is None
}

proof fn lemma_progress_step(
    features: Seq<pb::PreprocessedMultimodalFeature>,
    decoded: Seq<Result<DecodedKwargs, String>>,
    prompt_len: nat,
    n: nat,
)
    requires
        n > 0,
    ensures
        progress(features, decoded, prompt_len, n).refusal is None <==> progress(
            features,
            decoded,
            prompt_len,
            (n - 1) as nat,
        ).refusal is None && passes_at(features, decoded, prompt_len, n - 1),
{
    let before = progress(features, decoded, prompt_len, (n - 1) as nat);
    let next = before_decode(before, features[n - 1], prompt_len);
    assert(progress(features, decoded, prompt_len, n) == if before.refusal is Some {
        before
    } else if next.refusal is Some {
        next
    } else {
        Progress { refusal: decoded_refusal(features[n - 1], decoded[n - 1]), ..next }
    });
}

proof fn lemma_progress_step_by_step(
    features: Seq<pb::PreprocessedMultimodalFeature>,
    decoded: Seq<Result<DecodedKwargs, String>>,
    prompt_len: nat,
    n: nat,
)
    ensures
        progress(features, decoded, prompt_len, n).refusal is None <==> forall|k: int|
            0 <= k < n ==> #[trigger] passes_at(features, decoded, prompt_len, k),
    decreases n,
{
    if n > 0 {
        lemma_progress_step(features, decoded, prompt_len, n);
        lemma_progress_step_by_step(features, decoded, prompt_len, (n - 1) as nat);
    }
}

proof fn lemma_decodable_ends(
    features: Seq<pb::PreprocessedMultimodalFeature>,
    prompt_len: nat,
    n: nat,
)
    requires
        n <= features.len(),
        outline(features, prompt_len, n).refusal is None,
    ensures
        ({
            let count = decodable_from(features, prompt_len, n);
            &&& count <= features.len()
            &&& outline(features, prompt_len, count).refusal is None
            &&& count < features.len() ==> outline(
                features,
                prompt_len,
                count + 1,
            ).refusal is Some
        }),
    decreases features.len() - n,
{
    if n < features.len() && outline(features, prompt_len, n + 1).refusal is None {
        lemma_decodable_ends(features, prompt_len, n + 1);
    }
}

/// The payloads that are decoded are those of the features before the first that is refused
/// without a look at what it decodes to; none are where there are too many features.
pub proof fn payloads_are_decoded_up_to_a_refusal(
    features: Seq<pb::PreprocessedMultimodalFeature>,
    prompt_len: nat,
)
    ensures
        ({
            let count = decodable_tokens(features, prompt_len);
            &&& features.len() > 64 || features.len() > prompt_len ==> count == 0
            &&& features.len() <= 64 && features.len() <= prompt_len ==> count <= features.len()
                && outline(features, prompt_len, count).refusal is None && (count < features.len()
                ==> before_decode(
                outline(features, prompt_len, count),
                features[count as int],
                prompt_len,
            ).refusal is Some)
        }),
{
    lemma_decodable_ends(features, prompt_len, 0);
}

/// Two features that are not empty overlap where some position of the prompt belongs to both.
pub proof fn overlapping_features_share_a_position(a: FeatureView, b: FeatureView, at: nat)
    requires
        a.length > 0,
        b.length > 0,
    ensures
        a.offset <= at < a.offset + a.length && b.offset <= at < b.offset + b.length ==> overlap(
            a,
            b,
        ),
        overlap(a, b) ==> exists|at: nat|
            a.offset <= at < a.offset + a.length && #[trigger] covers(b, at),
{
    if overlap(a, b) {
        let at = if a.offset < b.offset {
            b.offset
        } else {
            a.offset
        };
        assert(covers(b, at));
    }
}

/// Whether a position of the prompt belongs to a feature.
pub open spec fn covers(feature: FeatureView, at: nat) -> bool {
    feature.offset <= at < feature.offset + feature.length
}

} // verus!
