use std::collections::BTreeMap;

use engine_gateway::engine::{
    MmBatchedField, MmField, MmFieldElem, MmFlatField, MmKwargValue, MmKwargsItem, MmSharedField,
    MmSlice, SliceSpec, WireArrayData, WireTensor,
};
use engine_gateway::generation::Prompt;
use engine_gateway::grpc::convert::features::{
    convert_mm_features, mm_features_to_decode, DecodedKwargs,
};
use engine_gateway::grpc::convert::identity::mm_cache_identifier;
use engine_gateway::grpc::convert::msgpack::preflight_msgpack;
use engine_gateway::grpc::convert::request::{request_features_to_decode, to_text_request};
use engine_gateway::grpc::convert::tensors::validate_mm_kwargs_item;
use engine_gateway::grpc::pb;
use engine_gateway::status::{Code, Status};

fn names() -> Vec<String> {
    vec!["test-model".to_string()]
}

fn base_request() -> pb::GenerateRequest {
    pb::GenerateRequest {
        request_id: "req".to_string(),
        model: "test-model".to_string(),
        prompt: Some(pb::PromptInput::Text("hi".to_string())),
        ..Default::default()
    }
}

fn token_prompt(ids: Vec<u32>) -> Option<pb::PromptInput> {
    Some(pb::PromptInput::TokenIds(pb::TokenIds { ids }))
}

fn batched() -> MmField {
    MmField::Batched(MmBatchedField { keep_on_cpu: true })
}

fn item(fields: Vec<(String, MmFieldElem)>) -> MmKwargsItem {
    MmKwargsItem::from_ordered(fields).unwrap()
}

fn integer_field(key: &str, value: i64) -> (String, MmFieldElem) {
    (key.to_string(), MmFieldElem { data: Some(MmKwargValue::Int(value)), field: batched() })
}

fn integer_item(key: &str, value: i64) -> MmKwargsItem {
    item(vec![integer_field(key, value)])
}

fn encoded(key: &str, value: i64) -> Vec<u8> {
    rmp_serde::to_vec_named(&BTreeMap::from([(key.to_string(), value)])).unwrap()
}

fn decoded(item: MmKwargsItem, raw: &[u8]) -> Result<DecodedKwargs, String> {
    Ok(DecodedKwargs { item, consumed: raw.len() as u64 })
}

fn feature(offset: u64, length: u64, raw: &[u8]) -> pb::PreprocessedMultimodalFeature {
    let identifier = mm_cache_identifier("image", raw);
    pb::PreprocessedMultimodalFeature {
        modality: "image".to_string(),
        mm_hash: identifier.clone(),
        position: Some(pb::MultimodalPlaceholder { offset, length, is_embed: Vec::new() }),
        cache_identifier: identifier,
        kwargs_msgpack: Some(raw.to_vec()),
    }
}

fn tokens(n: usize) -> Prompt {
    Prompt::TokenIds(vec![9; n])
}

fn refusal(
    features: Vec<pb::PreprocessedMultimodalFeature>,
    items: Vec<MmKwargsItem>,
    prompt: &Prompt,
) -> Status {
    let answers: Vec<Result<DecodedKwargs, String>> = features
        .iter()
        .zip(items)
        .map(|(feature, item)| decoded(item, feature.kwargs_msgpack.as_deref().unwrap_or(&[])))
        .collect();
    convert_mm_features(&features, answers, prompt).unwrap_err()
}

#[test]
fn preprocessed_multimodal_features_reach_text_request() {
    let kwargs = integer_item("num_tiles", 2);
    let kwargs_msgpack = encoded("num_tiles", 2);
    let identifier = mm_cache_identifier("image", &kwargs_msgpack);
    let req = pb::GenerateRequest {
        prompt: token_prompt(vec![10, 99, 99, 20]),
        mm_features: vec![pb::PreprocessedMultimodalFeature {
            modality: "image".to_string(),
            mm_hash: identifier.clone(),
            position: Some(pb::MultimodalPlaceholder {
                offset: 1,
                length: 2,
                is_embed: vec![true, false],
            }),
            cache_identifier: identifier.clone(),
            kwargs_msgpack: Some(kwargs_msgpack.clone()),
        }],
        ..base_request()
    };
    assert_eq!(request_features_to_decode(&req), 1);

    let answers = vec![decoded(integer_item("num_tiles", 2), &kwargs_msgpack)];
    let text = to_text_request(req, answers, false, &names()).unwrap();
    let features = text.mm_features.unwrap();

    assert_eq!(features.len(), 1);
    assert_eq!(features[0].modality, "image");
    assert!(features[0].identifier.starts_with("grpc-mm:"));
    assert_eq!(features[0].mm_hash.as_deref(), Some(identifier.as_str()));
    assert_eq!(features[0].data.as_ref(), Some(&kwargs));
    assert_eq!(features[0].mm_position.offset, 1);
    assert_eq!(features[0].mm_position.length, 2);
    assert!(features[0].mm_position.is_embed.is_some());
}

#[test]
fn multimodal_lora_is_rejected_until_tower_cache_semantics_are_advertised() {
    for request in [
        pb::GenerateRequest {
            lora_name: "adapter-a".to_string(),
            media: vec![pb::MediaItem::default()],
            ..base_request()
        },
        pb::GenerateRequest {
            lora_name: "adapter-a".to_string(),
            mm_features: vec![pb::PreprocessedMultimodalFeature::default()],
            ..base_request()
        },
    ] {
        let error = to_text_request(request, Vec::new(), false, &names()).unwrap_err();
        assert_eq!(error.code, Code::InvalidArgument);
        assert!(error.message.contains("tower-LoRA"));
    }
}

#[test]
fn preprocessed_multimodal_cache_hit_without_data_is_rejected() {
    let req = pb::GenerateRequest {
        prompt: token_prompt(vec![10, 99, 20]),
        mm_features: vec![pb::PreprocessedMultimodalFeature {
            modality: "image".to_string(),
            mm_hash: "image-hash".to_string(),
            position: Some(pb::MultimodalPlaceholder {
                offset: 1,
                length: 1,
                is_embed: Vec::new(),
            }),
            kwargs_msgpack: None,
            cache_identifier: String::new(),
        }],
        ..base_request()
    };
    assert_eq!(request_features_to_decode(&req), 0);

    let error = to_text_request(req, Vec::new(), false, &names()).unwrap_err();
    assert_eq!(error.code, Code::InvalidArgument);
}

#[test]
fn multimodal_cache_identity_is_data_bound_without_language_lora_scoping() {
    let convert = |value: i64| {
        let raw = encoded("value", value);
        let request = pb::GenerateRequest {
            prompt: token_prompt(vec![10, 99, 20]),
            mm_features: vec![feature(1, 1, &raw)],
            ..base_request()
        };
        let answers = vec![decoded(integer_item("value", value), &raw)];
        to_text_request(request, answers, false, &names()).unwrap()
    };

    let first = convert(1);
    let second = convert(2);
    assert_ne!(
        first.mm_features.as_ref().unwrap()[0].identifier,
        second.mm_features.as_ref().unwrap()[0].identifier
    );
    assert!(first.mm_features.as_ref().unwrap()[0].identifier.starts_with("grpc-mm:"));
}

#[test]
fn multimodal_cache_identity_has_a_cross_language_fixed_vector() {
    assert_eq!(
        mm_cache_identifier("image", b"abc"),
        "grpc-mm:c2f2df4bb94911d850921fa6d577ee0713ad5884c276f85330a8e50137f6a59d"
    );
}

#[test]
fn multimodal_cache_identity_mismatch_is_rejected() {
    let kwargs_msgpack = encoded("value", 1);
    let req = pb::GenerateRequest {
        prompt: token_prompt(vec![10, 99, 20]),
        mm_features: vec![pb::PreprocessedMultimodalFeature {
            modality: "image".to_string(),
            mm_hash: "image-hash".to_string(),
            position: Some(pb::MultimodalPlaceholder {
                offset: 1,
                length: 1,
                is_embed: Vec::new(),
            }),
            kwargs_msgpack: Some(kwargs_msgpack.clone()),
            cache_identifier: mm_cache_identifier("image", &kwargs_msgpack),
        }],
        ..base_request()
    };

    let answers = vec![decoded(integer_item("value", 1), &kwargs_msgpack)];
    let error = to_text_request(req, answers, false, &names()).unwrap_err();
    assert_eq!(error.code, Code::InvalidArgument);
    assert_eq!(
        error.message,
        "multimodal feature mm_hash does not match its canonical payload identity"
    );
}

#[test]
fn msgpack_preflight_rejects_trailing_and_amplified_values() {
    let mut nodes = 0;
    assert!(preflight_msgpack(&[0xc0, 0xc0], &mut nodes).is_err());

    let mut nodes = 0;
    let oversized_array = [0xdd, 0x00, 0x01, 0x00, 0x01];
    assert!(preflight_msgpack(&oversized_array, &mut nodes).is_err());
}

#[test]
fn msgpack_preflight_walks_every_kind_of_value() {
    let accepted: Vec<Vec<u8>> = vec![
        vec![0xc0],
        vec![0x7f],
        vec![0xe0],
        vec![0xa2, b'h', b'i'],
        vec![0x92, 0x01, 0xc3],
        vec![0x81, 0xa1, b'k', 0x05],
        vec![0xc4, 0x02, 0, 0],
        vec![0xc5, 0x00, 0x01, 0],
        vec![0xc6, 0, 0, 0, 1, 0],
        vec![0xc7, 0x01, 0x7f, 0],
        vec![0xca, 0, 0, 0, 0],
        vec![0xcb, 0, 0, 0, 0, 0, 0, 0, 0],
        vec![0xcd, 0, 0],
        vec![0xd4, 1, 2],
        vec![0xd9, 0x01, b'x'],
        vec![0xda, 0x00, 0x01, b'x'],
        vec![0xdc, 0x00, 0x01, 0xc0],
        vec![0xde, 0x00, 0x01, 0xc0, 0xc0],
    ];
    for raw in accepted {
        let mut nodes = 0;
        assert!(preflight_msgpack(&raw, &mut nodes).is_ok(), "{raw:?}");
        let mut nodes = 0;
        assert!(preflight_msgpack(&raw[..raw.len() - 1], &mut nodes).is_err(), "{raw:?}");
        let mut longer = raw.clone();
        longer.push(0);
        let mut nodes = 0;
        assert_eq!(
            preflight_msgpack(&longer, &mut nodes).unwrap_err().message,
            "multimodal kwargs msgpack contains trailing data"
        );
    }
    let mut nodes = 0;
    assert_eq!(
        preflight_msgpack(&[0xc1], &mut nodes).unwrap_err().message,
        "reserved MessagePack marker"
    );
    let mut nodes = 0;
    preflight_msgpack(&[0x92, 0x01, 0x81, 0xa1, b'k', 0xc0], &mut nodes).unwrap();
    assert_eq!(nodes, 5);
}

#[test]
fn msgpack_preflight_limits_depth_and_count() {
    let nested = |n: usize| {
        let mut raw = vec![0x91; n];
        raw.push(0xc0);
        raw
    };
    let mut nodes = 0;
    assert!(preflight_msgpack(&nested(32), &mut nodes).is_ok());
    let mut nodes = 0;
    assert_eq!(
        preflight_msgpack(&nested(33), &mut nodes).unwrap_err().code,
        Code::ResourceExhausted
    );
    let mut nodes = 65_535;
    assert!(preflight_msgpack(&[0xc0], &mut nodes).is_ok());
    assert_eq!(
        preflight_msgpack(&[0xc0], &mut nodes).unwrap_err().message,
        "multimodal kwargs contain too many values"
    );
}

#[test]
fn malformed_preprocessed_multimodal_feature_is_rejected() {
    let req = pb::GenerateRequest {
        prompt: token_prompt(vec![1, 2]),
        mm_features: vec![pb::PreprocessedMultimodalFeature {
            modality: "image".to_string(),
            mm_hash: "image-hash".to_string(),
            position: Some(pb::MultimodalPlaceholder {
                offset: 1,
                length: 2,
                is_embed: Vec::new(),
            }),
            kwargs_msgpack: Some(vec![0xc1]),
            cache_identifier: "invalid".to_string(),
        }],
        ..base_request()
    };

    let error = to_text_request(req, Vec::new(), false, &names()).unwrap_err();
    assert_eq!(error.code, Code::InvalidArgument);
}

#[test]
fn features_are_put_in_the_order_of_their_positions() {
    let first = encoded("value", 1);
    let second = encoded("value", 2);
    let features = vec![feature(3, 2, &first), feature(0, 3, &second)];
    assert_eq!(mm_features_to_decode(&features, 5), 2);
    let answers = vec![
        decoded(integer_item("value", 1), &first),
        decoded(integer_item("value", 2), &second),
    ];
    let converted = convert_mm_features(&features, answers, &tokens(5)).unwrap().unwrap();
    assert_eq!(converted[0].mm_position.offset, 0);
    assert_eq!(converted[0].data, Some(integer_item("value", 2)));
    assert_eq!(converted[1].mm_position.offset, 3);
    assert_eq!(converted[1].data, Some(integer_item("value", 1)));
}

#[test]
fn overlapping_features_are_refused_in_either_order() {
    let raw = encoded("value", 1);
    for features in [
        vec![feature(0, 3, &raw), feature(2, 2, &raw)],
        vec![feature(2, 2, &raw), feature(0, 3, &raw)],
        vec![feature(1, 1, &raw), feature(1, 1, &raw)],
    ] {
        let items = vec![integer_item("value", 1), integer_item("value", 1)];
        assert_eq!(
            refusal(features, items, &tokens(5)).message,
            "multimodal feature ranges must not overlap"
        );
    }
}

#[test]
fn no_features_convert_to_none() {
    assert_eq!(
        convert_mm_features(&Vec::new(), Vec::new(), &Prompt::Text("hi".into())).unwrap(),
        None
    );
}

#[test]
fn feature_outlines_are_checked() {
    let raw = encoded("value", 1);
    let base = || feature(1, 2, &raw);
    let message = |changed: pb::PreprocessedMultimodalFeature| {
        refusal(vec![changed], vec![integer_item("value", 1)], &tokens(4)).message
    };
    assert_eq!(
        refusal(vec![base()], Vec::new(), &Prompt::Text("hi".into())).message,
        "preprocessed multimodal features require token_ids input"
    );
    assert_eq!(
        refusal(vec![base()], Vec::new(), &tokens(0)).message,
        "too many preprocessed multimodal features"
    );
    let mut changed = base();
    changed.modality = String::new();
    assert_eq!(
        message(changed),
        "multimodal feature modality must contain between 1 and 64 bytes"
    );
    let mut changed = base();
    changed.mm_hash = "x".repeat(257);
    assert_eq!(
        message(changed),
        "multimodal feature mm_hash must contain between 1 and 256 bytes"
    );
    let mut changed = base();
    changed.position = None;
    assert_eq!(message(changed), "multimodal feature position is required");
    assert_eq!(message(feature(1, 0, &raw)), "multimodal feature length must be positive");
    assert_eq!(message(feature(u64::MAX, 1, &raw)), "multimodal feature range overflows");
    assert_eq!(message(feature(3, 2, &raw)), "multimodal feature range exceeds token_ids");
    let mut changed = base();
    changed.position.as_mut().unwrap().is_embed = vec![true];
    assert_eq!(
        message(changed),
        "multimodal feature is_embed length must match position length"
    );
    let large = vec![0xc0; 16 * 1024 * 1024 + 1];
    assert_eq!(
        message(feature(1, 2, &large)),
        "multimodal feature payload exceeds 16 MiB"
    );
}

#[test]
fn decoded_kwargs_are_checked() {
    let raw = encoded("value", 1);
    let features = vec![feature(1, 1, &raw)];
    let convert = |answer: Result<DecodedKwargs, String>| {
        convert_mm_features(&features, vec![answer], &tokens(4)).unwrap_err().message
    };
    assert_eq!(
        convert(Err("bad".to_string())),
        "invalid multimodal kwargs msgpack: bad"
    );
    assert_eq!(
        convert(Ok(DecodedKwargs { item: integer_item("value", 1), consumed: 1 })),
        "multimodal kwargs msgpack contains trailing data"
    );
    assert_eq!(
        convert(decoded(item(Vec::new()), &raw)),
        "multimodal kwargs item must contain between 1 and 256 fields"
    );
    let mut other = feature(1, 1, &raw);
    other.cache_identifier = "grpc-mm:0".to_string();
    assert_eq!(
        refusal(vec![other], vec![integer_item("value", 1)], &tokens(4)).message,
        "multimodal feature cache_identifier does not match its canonical payload identity"
    );
}

fn tensor_item(dtype: &str, shape: Vec<usize>, data: WireArrayData) -> MmKwargsItem {
    item(vec![(
        "pixels".to_string(),
        MmFieldElem {
            data: Some(MmKwargValue::Tensor(WireTensor { dtype: dtype.to_string(), shape, data })),
            field: batched(),
        },
    )])
}

#[test]
fn tensors_are_checked() {
    let raw = |n: usize| WireArrayData::RawView(vec![0; n]);
    assert!(validate_mm_kwargs_item(&tensor_item("float32", vec![2, 3], raw(24))).is_ok());
    assert!(validate_mm_kwargs_item(&tensor_item("bool", Vec::new(), raw(1))).is_ok());
    let message = |item: MmKwargsItem| validate_mm_kwargs_item(&item).unwrap_err().message;
    assert_eq!(
        message(tensor_item("float32", vec![2, 3], raw(20))),
        "multimodal tensor byte length 20 does not match expected 24"
    );
    assert_eq!(
        message(tensor_item("complex\"64", vec![1], raw(8))),
        "unsupported multimodal tensor dtype \"complex\\\"64\""
    );
    assert_eq!(
        message(tensor_item("int8", vec![1; 33], raw(1))),
        "multimodal tensor rank exceeds 32"
    );
    assert_eq!(
        message(tensor_item("int8", vec![usize::MAX, 2], raw(0))),
        "multimodal tensor shape overflows"
    );
    assert_eq!(
        message(tensor_item("int16", vec![usize::MAX], raw(0))),
        "multimodal tensor byte length overflows"
    );
    assert_eq!(
        message(tensor_item("int8", vec![1], WireArrayData::AuxIndex(0))),
        "multimodal kwargs must encode tensors inline"
    );
}

#[test]
fn items_hold_each_name_once_in_order() {
    let fields = |names: &[&str]| names.iter().map(|name| integer_field(name, 1)).collect();
    let ordered: fn(Vec<(String, MmFieldElem)>) -> bool =
        |fields| MmKwargsItem::from_ordered(fields).is_some();
    assert!(ordered(Vec::new()));
    assert!(ordered(fields(&["", "a", "ab", "b", "\u{e9}", "\u{1f600}"])));
    assert!(!ordered(fields(&["a", "a"])));
    assert!(!ordered(fields(&["ab", "a"])));
    assert!(!ordered(fields(&["a", "c", "b"])));
    let two = item(fields(&["a", "b"]));
    assert_eq!(two.fields().len(), 2);
    assert_eq!(two.fields()[1].0, "b");
}

#[test]
fn kwargs_are_checked() {
    let message = |item: MmKwargsItem| validate_mm_kwargs_item(&item).unwrap_err().message;
    assert_eq!(
        message(integer_item("", 1)),
        "multimodal kwargs keys must contain between 1 and 256 bytes"
    );
    assert_eq!(
        message(item(vec![("a".to_string(), MmFieldElem { data: None, field: batched() })])),
        "multimodal kwargs fields must carry inline data"
    );
    let nested = |n: usize| {
        let mut value = MmKwargValue::Int(0);
        for _ in 0..n {
            value = MmKwargValue::List(vec![value]);
        }
        item(vec![("a".to_string(), MmFieldElem { data: Some(value), field: batched() })])
    };
    assert!(validate_mm_kwargs_item(&nested(32)).is_ok());
    assert_eq!(message(nested(33)), "multimodal kwargs nesting exceeds 32 levels");
}

fn laid_out(field: MmField, data: MmKwargValue) -> MmKwargsItem {
    item(vec![("a".to_string(), MmFieldElem { data: Some(data), field })])
}

fn one_slice(step: Option<isize>) -> MmSlice {
    MmSlice::Slice(SliceSpec { start: None, stop: None, step })
}

fn flat(slices: Vec<MmSlice>, dim: i32) -> MmField {
    MmField::Flat(MmFlatField { slices, dim, keep_on_cpu: false })
}

fn metadata_message(items: Vec<MmKwargsItem>) -> Option<String> {
    let raw = encoded("a", 1);
    let features: Vec<pb::PreprocessedMultimodalFeature> =
        (0..items.len()).map(|i| feature(i as u64, 1, &raw)).collect();
    let answers = items.into_iter().map(|item| decoded(item, &raw)).collect();
    convert_mm_features(&features, answers, &tokens(4)).err().map(|status| status.message)
}

#[test]
fn field_layouts_are_checked_over_the_batch() {
    let shared = |batch_size: usize| {
        laid_out(
            MmField::Shared(MmSharedField { batch_size, keep_on_cpu: false }),
            MmKwargValue::Int(1),
        )
    };
    assert_eq!(metadata_message(vec![shared(2), shared(2)]), None);
    assert_eq!(
        metadata_message(vec![shared(1), shared(1)]).unwrap(),
        "multimodal shared-field batch_size must match item count"
    );
    assert_eq!(
        metadata_message(vec![shared(2), shared(1)]).unwrap(),
        "multimodal field configuration differs across items"
    );
    let flat_item = |slices: Vec<MmSlice>, dim: i32| {
        laid_out(flat(slices, dim), MmKwargValue::Int(1))
    };
    assert_eq!(metadata_message(vec![flat_item(vec![one_slice(Some(1))], 0)]), None);
    assert_eq!(
        metadata_message(vec![flat_item(Vec::new(), 0)]).unwrap(),
        "multimodal flat-field slices must match item count"
    );
    assert_eq!(
        metadata_message(vec![flat_item(vec![one_slice(Some(0))], 0)]).unwrap(),
        "multimodal slice step must not be zero"
    );
    assert_eq!(
        metadata_message(vec![flat_item(vec![MmSlice::Slices(Vec::new())], 0)]).unwrap(),
        "multimodal flat-field slice tuple must contain 1 to 32 slices"
    );
    assert_eq!(
        metadata_message(vec![flat_item(vec![one_slice(None)], 1)]).unwrap(),
        "multimodal non-tensor flat fields require dim=0"
    );
    let tensor = |dim: i32| {
        laid_out(
            flat(vec![one_slice(None)], dim),
            MmKwargValue::Tensor(WireTensor {
                dtype: "uint8".to_string(),
                shape: vec![1, 2],
                data: WireArrayData::RawView(vec![0, 0]),
            }),
        )
    };
    assert_eq!(metadata_message(vec![tensor(-2)]), None);
    assert_eq!(
        metadata_message(vec![tensor(2)]).unwrap(),
        "multimodal flat-field dim is outside the tensor rank"
    );
}
