//! Media items of a request.

use crate::engine::MediaContentPart;
use crate::grpc::pb;
use crate::status::{invalid_argument, refusal, unimplemented, Code, Status, StatusView};
use crate::text::{integer, integer_text};
use vstd::prelude::*;

verus! {

/// A text that may be left out, where the empty text stands for none.
pub open spec fn given(text: String) -> Option<String> {
    if text@.len() == 0 {
        None
    } else {
        Some(text)
    }
}

fn given_text(text: &String) -> (given_text: Option<String>)
    ensures
        given_text == given(*text),
{
    if text.as_str().is_empty() {
        None
    } else {
        Some(text.clone())
    }
}

pub open spec fn unsupported_modality(name: Seq<char>) -> StatusView {
    unimplemented("media modality "@ + name + " is not supported by the gRPC service"@)
}

fn refuse_modality(name: &str) -> (status: Status)
    ensures
        status@ == unsupported_modality(name@),
{
    let message = "media modality ".to_string().concat(name).concat(
        " is not supported by the gRPC service",
    );
    Status::unimplemented(message.as_str())
}

pub open spec fn media_refusal(item: pb::MediaItem) -> Option<StatusView> {
    match item.modality {
        pb::WireModality::Unknown(number) => Some(
            invalid_argument("unknown media modality "@ + integer(number as int)),
        ),
        pb::WireModality::Known(pb::Modality::Audio) => Some(unsupported_modality("Audio"@)),
        pb::WireModality::Known(pb::Modality::Other(name)) => Some(unsupported_modality(name@)),
        pb::WireModality::Known(_) => if item.source is None {
            Some(invalid_argument("media item has no source"@))
        } else {
            None
        },
    }
}

/// Whether `part` carries what `item` gives.
pub open spec fn part_carries(part: MediaContentPart, item: pb::MediaItem) -> bool {
    match item.source {
        Some(pb::MediaSource::Url(url)) | Some(pb::MediaSource::DataUri(url)) => part
            == MediaContentPart::ImageUrl { url, detail: None, uuid: given(item.uuid) },
        Some(pb::MediaSource::RawBytes(bytes)) => part matches MediaContentPart::ImageData {
            data,
            mime_type,
            uuid,
            detail,
        } && data@ == bytes@ && mime_type == given(item.mime_type) && uuid == given(item.uuid)
            && detail is None,
        None => false,
    }
}

/// The refusal of the first media item that is refused.
pub open spec fn media_items_refusal(media: Seq<pb::MediaItem>) -> Option<StatusView>
    decreases media.len(),
{
    if media.len() == 0 {
        None
    } else {
        match media_items_refusal(media.drop_last()) {
            Some(status) => Some(status),
            None => media_refusal(media.last()),
        }
    }
}

proof fn lemma_media_items_refusal_prefix(media: Seq<pb::MediaItem>, n: int)
    requires
        0 <= n <= media.len(),
        media_items_refusal(media.take(n)) is Some,
    ensures
        media_items_refusal(media) == media_items_refusal(media.take(n)),
    decreases media.len() - n,
{
    if n < media.len() {
        assert(media.take(n + 1).drop_last() =~= media.take(n));
        lemma_media_items_refusal_prefix(media, n + 1);
    } else {
        assert(media.take(n) =~= media);
    }
}

fn media_part(item: &pb::MediaItem) -> (result: Result<MediaContentPart, Status>)
    ensures
        refusal(result) == media_refusal(*item),
        result matches Ok(part) ==> part_carries(part, *item),
{
    match &item.modality {
        pb::WireModality::Unknown(number) => {
            let message = "unknown media modality ".to_string().concat(
                integer_text(*number).as_str(),
            );
            return Err(Status::invalid_argument(message.as_str()));
        },
        pb::WireModality::Known(pb::Modality::Audio) => {
            return Err(refuse_modality("Audio"));
        },
        pb::WireModality::Known(pb::Modality::Other(name)) => {
            return Err(refuse_modality(name.as_str()));
        },
        pb::WireModality::Known(_) => {},
    }
    let uuid = given_text(&item.uuid);
    match &item.source {
        Some(pb::MediaSource::Url(url)) => Ok(
            MediaContentPart::ImageUrl { url: url.clone(), detail: None, uuid },
        ),
        Some(pb::MediaSource::DataUri(url)) => Ok(
            MediaContentPart::ImageUrl { url: url.clone(), detail: None, uuid },
        ),
        Some(pb::MediaSource::RawBytes(bytes)) => Ok(
            MediaContentPart::ImageData {
                data: bytes.clone(),
                mime_type: given_text(&item.mime_type),
                uuid,
                detail: None,
            },
        ),
        None => Err(Status::invalid_argument("media item has no source")),
    }
}

pub fn media_parts_from_request(media: &Vec<pb::MediaItem>) -> (result: Result<
    Vec<MediaContentPart>,
    Status,
>)
    ensures
        refusal(result) == media_items_refusal(media@),
        result matches Ok(parts) ==> parts@.len() == media@.len() && forall|i: int|
            0 <= i < media@.len() ==> part_carries(#[trigger] parts@[i], media@[i]),
{
    let mut parts: Vec<MediaContentPart> = Vec::new();
    for i in 0..media.len()
        invariant
            media_items_refusal(media@.take(i as int)) is None,
            parts@.len() == i,
            forall|j: int| 0 <= j < i ==> part_carries(#[trigger] parts@[j], media@[j]),
    {
        assert(media@.take(i + 1).drop_last() =~= media@.take(i as int));
        assert(media@.take(i + 1).last() == media@[i as int]);
        match media_part(&media[i]) {
            Ok(part) => parts.push(part),
            Err(status) => {
                proof {
                    lemma_media_items_refusal_prefix(media@, i + 1);
                }
                return Err(status);
            },
        }
    }
    assert(media@.take(media@.len() as int) =~= media@);
    Ok(parts)
}

/// Media are taken where they are images, or leave open what they are, and say where they come
/// from. All others are not supported, and a number that stands for nothing is wrong.
pub proof fn media_are_refused_for_these_reasons(item: pb::MediaItem)
    ensures
        ({
            let refused = media_refusal(item);
            &&& item.modality matches pb::WireModality::Unknown(number) ==> (refused matches Some(
                status,
            ) && status.code == Code::InvalidArgument && status.message
                == "unknown media modality "@ + integer(number as int))
            &&& item.modality == pb::WireModality::Known(pb::Modality::Audio) ==> (
            refused matches Some(status) && status.code == Code::Unimplemented && status.message
                == "media modality "@ + "Audio"@ + " is not supported by the gRPC service"@)
            &&& item.modality matches pb::WireModality::Known(pb::Modality::Other(name)) ==> (
            refused matches Some(status) && status.code == Code::Unimplemented && status.message
                == "media modality "@ + name@ + " is not supported by the gRPC service"@)
            &&& item.modality == pb::WireModality::Known(pb::Modality::Image) || item.modality
                == pb::WireModality::Known(pb::Modality::Unspecified) ==> if item.source is Some {
                refused is None
            } else {
                refused matches Some(status) && status.code == Code::InvalidArgument
                    && status.message == "media item has no source"@
            }
        }),
{
}

/// Media are refused for one of them; where each is taken, all are.
pub proof fn media_are_taken_one_by_one(media: Seq<pb::MediaItem>)
    ensures
        media_items_refusal(media) is None <==> forall|i: int|
            0 <= i < media.len() ==> media_refusal(#[trigger] media[i]) is None,
    decreases media.len(),
{
    if media.len() > 0 {
        let before = media.drop_last();
        media_are_taken_one_by_one(before);
        assert(forall|i: int| 0 <= i < before.len() ==> media[i] == #[trigger] before[i]);
        assert(media[media.len() - 1] == media.last());
        if media_items_refusal(media) is None {
            assert forall|i: int| 0 <= i < media.len() implies media_refusal(
                #[trigger] media[i],
            ) is None by {
                if i < before.len() {
                    assert(media_refusal(before[i]) is None);
                }
            }
        }
    }
}

/// A part of a prompt holds its item's address or bytes, its id and its type, as they are; a
/// text that is empty is left out.
pub proof fn parts_carry_their_item(part: MediaContentPart, item: pb::MediaItem)
    requires
        part_carries(part, item),
    ensures
        item.source is Some,
        (item.source matches Some(pb::MediaSource::Url(url)) ==> (
        part matches MediaContentPart::ImageUrl { url: same, .. } && same@ == url@)),
        (item.source matches Some(pb::MediaSource::DataUri(uri)) ==> (
        part matches MediaContentPart::ImageUrl { url: same, .. } && same@ == uri@)),
        (item.source matches Some(pb::MediaSource::RawBytes(bytes)) ==> (
        part matches MediaContentPart::ImageData { data, mime_type, .. } && data@ == bytes@ && (
        item.mime_type@.len() == 0 ==> mime_type is None) && (item.mime_type@.len() > 0 ==> (
        mime_type matches Some(same) && same@ == item.mime_type@)))),
        match part {
            MediaContentPart::ImageUrl { uuid, detail, .. } => detail is None && (
            item.uuid@.len() == 0 ==> uuid is None) && (item.uuid@.len() > 0 ==> (
            uuid matches Some(same) && same@ == item.uuid@)),
            MediaContentPart::ImageData { uuid, detail, .. } => detail is None && (
            item.uuid@.len() == 0 ==> uuid is None) && (item.uuid@.len() > 0 ==> (
            uuid matches Some(same) && same@ == item.uuid@)),
        },
{
}

} // verus!
