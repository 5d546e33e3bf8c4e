//! A walk over MessagePack bytes that decodes nothing: it only bounds how deep the values nest,
//! how many there are, and that the bytes are all there.

use crate::status::{
    invalid_argument, refusal, resource_exhausted, Code, Status, StatusView,
};
use vstd::prelude::*;

verus! {

pub const MAX_MM_DEPTH: usize = 32;

pub const MAX_MM_NODES: usize = 65_536;

/// Where a walk stands: the next byte, the number of values counted so far, and the refusal
/// where it was cut short.
pub struct Scan {
    pub cursor: nat,
    pub nodes: nat,
    pub refusal: Option<StatusView>,
}

/// The number that `n` bytes from `at` on write, most significant byte first.
pub open spec fn big_endian(raw: Seq<u8>, at: int, n: nat) -> nat
    decreases n,
{
    if n == 0 {
        0
    } else {
        big_endian(raw, at, (n - 1) as nat) * 256 + raw[at + n - 1] as nat
    }
}

/// How many bytes behind a marker hold a size.
pub open spec fn size_width(marker: u8) -> nat {
    if marker == 0xc4 || marker == 0xc7 || marker == 0xd9 {
        1
    } else if marker == 0xc5 || marker == 0xc8 || marker == 0xda || marker == 0xdc || marker
        == 0xde {
        2
    } else if marker == 0xc6 || marker == 0xc9 || marker == 0xdb || marker == 0xdd || marker
        == 0xdf {
        4
    } else {
        0
    }
}

/// Whether a marker starts an array or a map.
pub open spec fn holds_values(marker: u8) -> bool {
    0x80 <= marker <= 0x9f || 0xdc <= marker <= 0xdf
}

/// Whether a marker starts a map, which holds two values for each entry.
pub open spec fn is_map(marker: u8) -> bool {
    0x80 <= marker <= 0x8f || marker == 0xde || marker == 0xdf
}

/// How many values an array or a map holds, given the size behind its marker.
pub open spec fn value_count(marker: u8, size: nat) -> nat {
    if 0x80 <= marker <= 0x8f {
        2 * ((marker - 0x80) as nat)
    } else if 0x90 <= marker <= 0x9f {
        (marker - 0x90) as nat
    } else if is_map(marker) {
        2 * size
    } else {
        size
    }
}

/// How many bytes a scalar takes behind its marker and size.
pub open spec fn payload_len(marker: u8, size: nat) -> nat {
    if 0xa0 <= marker <= 0xbf {
        (marker - 0xa0) as nat
    } else if 0xc4 <= marker <= 0xc6 || 0xd9 <= marker <= 0xdb {
        size
    } else if 0xc7 <= marker <= 0xc9 {
        size + 1
    } else if marker == 0xcc || marker == 0xd0 {
        1
    } else if marker == 0xcd || marker == 0xd1 || marker == 0xd4 {
        2
    } else if marker == 0xd5 {
        3
    } else if marker == 0xca || marker == 0xce || marker == 0xd2 {
        4
    } else if marker == 0xd6 {
        5
    } else if marker == 0xcb || marker == 0xcf || marker == 0xd3 {
        8
    } else if marker == 0xd7 {
        9
    } else if marker == 0xd8 {
        17
    } else {
        0
    }
}

pub open spec fn truncated() -> StatusView {
    invalid_argument("truncated multimodal kwargs msgpack"@)
}

pub open spec fn too_many_values() -> StatusView {
    resource_exhausted("multimodal kwargs contain too many values"@)
}

/// The walk over one value that stands at `cursor`, `depth` levels down, after `nodes` others.
pub open spec fn scan_value(raw: Seq<u8>, cursor: nat, depth: nat, nodes: nat) -> Scan
    decreases 34 - depth, 0nat,
{
    if depth > MAX_MM_DEPTH {
        Scan {
            cursor,
            nodes,
            refusal: Some(resource_exhausted("multimodal kwargs nesting exceeds 32 levels"@)),
        }
    } else if nodes + 1 > usize::MAX {
        Scan {
            cursor,
            nodes,
            refusal: Some(resource_exhausted("multimodal kwargs are too complex"@)),
        }
    } else if nodes + 1 > MAX_MM_NODES {
        Scan { cursor, nodes: nodes + 1, refusal: Some(too_many_values()) }
    } else if cursor + 1 > raw.len() {
        Scan { cursor, nodes: nodes + 1, refusal: Some(truncated()) }
    } else {
        let marker = raw[cursor as int];
        let width = size_width(marker);
        let size = big_endian(raw, (cursor + 1) as int, width);
        if marker == 0xc1 {
            Scan {
                cursor: cursor + 1,
                nodes: nodes + 1,
                refusal: Some(invalid_argument("reserved MessagePack marker"@)),
            }
        } else if cursor + 1 + width > raw.len() {
            Scan { cursor: cursor + 1, nodes: nodes + 1, refusal: Some(truncated()) }
        } else if holds_values(marker) {
            if value_count(marker, size) > usize::MAX {
                Scan {
                    cursor: cursor + 1 + width,
                    nodes: nodes + 1,
                    refusal: Some(resource_exhausted("MessagePack map is too large"@)),
                }
            } else if value_count(marker, size) > MAX_MM_NODES - (nodes + 1) {
                Scan {
                    cursor: cursor + 1 + width,
                    nodes: nodes + 1,
                    refusal: Some(too_many_values()),
                }
            } else {
                scan_values(
                    raw,
                    cursor + 1 + width,
                    depth + 1,
                    nodes + 1,
                    value_count(marker, size),
                )
            }
        } else if cursor + 1 + width + payload_len(marker, size) > raw.len() {
            Scan { cursor: cursor + 1 + width, nodes: nodes + 1, refusal: Some(truncated()) }
        } else {
            Scan {
                cursor: cursor + 1 + width + payload_len(marker, size),
                nodes: nodes + 1,
                refusal: None,
            }
        }
    }
}

/// The walk over `count` values in a row.
pub open spec fn scan_values(
    raw: Seq<u8>,
    cursor: nat,
    depth: nat,
    nodes: nat,
    count: nat,
) -> Scan
    decreases 34 - depth, count,
{
    if count == 0 {
        Scan { cursor, nodes, refusal: None }
    } else {
        let first = scan_value(raw, cursor, depth, nodes);
        if first.refusal is Some {
            first
        } else {
            scan_values(raw, first.cursor, depth, first.nodes, (count - 1) as nat)
        }
    }
}

/// The walk over bytes that must hold one value and nothing else.
pub open spec fn preflight(raw: Seq<u8>, nodes: nat) -> Scan {
    let scan = scan_value(raw, 0, 0, nodes);
    if scan.refusal is None && scan.cursor != raw.len() {
        Scan {
            refusal: Some(
                invalid_argument("multimodal kwargs msgpack contains trailing data"@),
            ),
            ..scan
        }
    } else {
        scan
    }
}

/// Walks over `raw`, which must hold one MessagePack value and nothing else, and adds the
/// number of values in it to `nodes`.
pub fn preflight_msgpack(raw: &[u8], nodes: &mut usize) -> (result: Result<(), Status>)
    ensures
        refusal(result) == preflight(raw@, *old(nodes) as nat).refusal,
        *final(nodes) == preflight(raw@, *old(nodes) as nat).nodes,
{
    let mut cursor: usize = 0;
    scan_msgpack_value(raw, &mut cursor, 0, nodes)?;
    if cursor != raw.len() {
        return Err(
            Status::invalid_argument("multimodal kwargs msgpack contains trailing data"),
        );
    }
    Ok(())
}

fn scan_msgpack_value(
    raw: &[u8],
    cursor: &mut usize,
    depth: usize,
    nodes: &mut usize,
) -> (result: Result<(), Status>)
    requires
        *old(cursor) <= raw@.len(),
        depth <= MAX_MM_DEPTH + 1,
    ensures
        ({
            let scan = scan_value(
                raw@,
                *old(cursor) as nat,
                depth as nat,
                *old(nodes) as nat,
            );
            &&& refusal(result) == scan.refusal
            &&& *final(cursor) == scan.cursor
            &&& *final(nodes) == scan.nodes
        }),
        *final(cursor) <= raw@.len(),
    decreases 34 - depth, 0nat,
{
    if depth > MAX_MM_DEPTH {
        return Err(Status::resource_exhausted("multimodal kwargs nesting exceeds 32 levels"));
    }
    match nodes.checked_add(1) {
        Some(counted) => {
            *nodes = counted;
        },
        None => {
            return Err(Status::resource_exhausted("multimodal kwargs are too complex"));
        },
    }
    if *nodes > MAX_MM_NODES {
        return Err(Status::resource_exhausted("multimodal kwargs contain too many values"));
    }
    let marker = take_msgpack(raw, cursor, 1)?[0];
    if marker == 0xc1 {
        return Err(Status::invalid_argument("reserved MessagePack marker"));
    }
    let ghost start = *cursor as int;
    proof {
        reveal_with_fuel(big_endian, 5);
    }
    let size: usize = if marker == 0xc4 || marker == 0xc7 || marker == 0xd9 {
        read_msgpack_u8(raw, cursor)? as usize
    } else if marker == 0xc5 || marker == 0xc8 || marker == 0xda || marker == 0xdc || marker
        == 0xde {
        read_msgpack_u16(raw, cursor)? as usize
    } else if marker == 0xc6 || marker == 0xc9 || marker == 0xdb || marker == 0xdd || marker
        == 0xdf {
        read_msgpack_u32(raw, cursor)? as usize
    } else {
        0
    };
    assert(size == big_endian(raw@, start, size_width(marker)));
    if 0x80 <= marker && marker <= 0x8f {
        scan_msgpack_children(raw, cursor, depth, nodes, (marker - 0x80) as usize * 2)
    } else if 0x90 <= marker && marker <= 0x9f {
        scan_msgpack_children(raw, cursor, depth, nodes, (marker - 0x90) as usize)
    } else if marker == 0xdc || marker == 0xdd {
        scan_msgpack_children(raw, cursor, depth, nodes, size)
    } else if marker == 0xde || marker == 0xdf {
        match size.checked_mul(2) {
            Some(count) => scan_msgpack_children(raw, cursor, depth, nodes, count),
            None => Err(Status::resource_exhausted("MessagePack map is too large")),
        }
    } else {
        skip_msgpack(raw, cursor, scalar_len(marker, size))
    }
}

/// How many bytes a scalar takes behind its marker and size.
fn scalar_len(marker: u8, size: usize) -> (len: usize)
    ensures
        payload_len(marker, size as nat) <= usize::MAX ==> len == payload_len(
            marker,
            size as nat,
        ),
        payload_len(marker, size as nat) > usize::MAX ==> len == usize::MAX,
{
    if 0xa0 <= marker && marker <= 0xbf {
        (marker - 0xa0) as usize
    } else if (0xc4 <= marker && marker <= 0xc6) || (0xd9 <= marker && marker <= 0xdb) {
        size
    } else if 0xc7 <= marker && marker <= 0xc9 {
        size.saturating_add(1)
    } else if marker == 0xcc || marker == 0xd0 {
        1
    } else if marker == 0xcd || marker == 0xd1 || marker == 0xd4 {
        2
    } else if marker == 0xd5 {
        3
    } else if marker == 0xca || marker == 0xce || marker == 0xd2 {
        4
    } else if marker == 0xd6 {
        5
    } else if marker == 0xcb || marker == 0xcf || marker == 0xd3 {
        8
    } else if marker == 0xd7 {
        9
    } else if marker == 0xd8 {
        17
    } else {
        0
    }
}

/// Walks over the `count` values that an array or a map `depth` levels down holds.
fn scan_msgpack_children(
    raw: &[u8],
    cursor: &mut usize,
    depth: usize,
    nodes: &mut usize,
    count: usize,
) -> (result: Result<(), Status>)
    requires
        *old(cursor) <= raw@.len(),
        depth <= MAX_MM_DEPTH,
        *old(nodes) <= MAX_MM_NODES,
    ensures
        count > MAX_MM_NODES - *old(nodes) ==> {
            &&& refusal(result) == Some(too_many_values())
            &&& *final(cursor) == *old(cursor)
            &&& *final(nodes) == *old(nodes)
        },
        count <= MAX_MM_NODES - *old(nodes) ==> {
            let scan = scan_values(
                raw@,
                *old(cursor) as nat,
                (depth + 1) as nat,
                *old(nodes) as nat,
                count as nat,
            );
            &&& refusal(result) == scan.refusal
            &&& *final(cursor) == scan.cursor
            &&& *final(nodes) == scan.nodes
        },
        *final(cursor) <= raw@.len(),
    decreases 33 - depth, count + 1,
{
    if count > MAX_MM_NODES.saturating_sub(*nodes) {
        return Err(Status::resource_exhausted("multimodal kwargs contain too many values"));
    }
    let ghost whole = scan_values(
        raw@,
        *cursor as nat,
        (depth + 1) as nat,
        *nodes as nat,
        count as nat,
    );
    for i in 0..count
        invariant
            *cursor <= raw@.len(),
            depth <= MAX_MM_DEPTH,
            count <= MAX_MM_NODES - *old(nodes),
            whole == scan_values(
                raw@,
                *old(cursor) as nat,
                (depth + 1) as nat,
                *old(nodes) as nat,
                count as nat,
            ),
            whole == scan_values(
                raw@,
                *cursor as nat,
                (depth + 1) as nat,
                *nodes as nat,
                (count - i) as nat,
            ),
    {
        scan_msgpack_value(raw, cursor, depth + 1, nodes)?;
    }
    Ok(())
}

fn take_msgpack<'a>(raw: &'a [u8], cursor: &mut usize, len: usize) -> (taken: Result<
    &'a [u8],
    Status,
>)
    requires
        *old(cursor) <= raw@.len(),
    ensures
        match taken {
            Ok(bytes) => {
                &&& *final(cursor) == *old(cursor) + len
                &&& *old(cursor) + len <= raw@.len()
                &&& bytes@ == raw@.subrange(*old(cursor) as int, *old(cursor) + len)
            },
            Err(status) => {
                &&& *old(cursor) + len > raw@.len()
                &&& *final(cursor) == *old(cursor)
                &&& status@ == truncated()
            },
        },
{
    let total: usize = raw.len();
    if len > total - *cursor {
        return Err(Status::invalid_argument("truncated multimodal kwargs msgpack"));
    }
    let start: usize = *cursor;
    let end: usize = start + len;
    *cursor = end;
    Ok(vstd::slice::slice_subrange(raw, start, end))
}

fn skip_msgpack(raw: &[u8], cursor: &mut usize, len: usize) -> (result: Result<(), Status>)
    requires
        *old(cursor) <= raw@.len(),
    ensures
        match result {
            Ok(()) => *old(cursor) + len <= raw@.len() && *final(cursor) == *old(cursor) + len,
            Err(status) => {
                &&& *old(cursor) + len > raw@.len()
                &&& *final(cursor) == *old(cursor)
                &&& status@ == truncated()
            },
        },
{
    take_msgpack(raw, cursor, len)?;
    Ok(())
}

/// What reading a number of `width` bytes at a cursor does.
pub open spec fn reads<N>(
    raw: Seq<u8>,
    before: nat,
    after: nat,
    width: nat,
    number: Result<N, Status>,
    value: spec_fn(N) -> nat,
) -> bool {
    match number {
        Ok(n) => {
            &&& before + width <= raw.len()
            &&& after == before + width
            &&& value(n) == big_endian(raw, before as int, width)
        },
        Err(status) => {
            &&& before + width > raw.len()
            &&& after == before
            &&& status@ == truncated()
        },
    }
}

fn read_msgpack_u8(raw: &[u8], cursor: &mut usize) -> (number: Result<u8, Status>)
    requires
        *old(cursor) <= raw@.len(),
    ensures
        reads(raw@, *old(cursor) as nat, *final(cursor) as nat, 1, number, |n: u8| n as nat),
{
    let bytes = take_msgpack(raw, cursor, 1)?;
    proof {
        reveal_with_fuel(big_endian, 2);
    }
    Ok(bytes[0])
}

fn read_msgpack_u16(raw: &[u8], cursor: &mut usize) -> (number: Result<u16, Status>)
    requires
        *old(cursor) <= raw@.len(),
    ensures
        reads(raw@, *old(cursor) as nat, *final(cursor) as nat, 2, number, |n: u16| n as nat),
{
    let bytes = take_msgpack(raw, cursor, 2)?;
    proof {
        reveal_with_fuel(big_endian, 3);
    }
    Ok(bytes[0] as u16 * 256 + bytes[1] as u16)
}

fn read_msgpack_u32(raw: &[u8], cursor: &mut usize) -> (number: Result<u32, Status>)
    requires
        *old(cursor) <= raw@.len(),
    ensures
        reads(raw@, *old(cursor) as nat, *final(cursor) as nat, 4, number, |n: u32| n as nat),
{
    let bytes = take_msgpack(raw, cursor, 4)?;
    proof {
        reveal_with_fuel(big_endian, 5);
    }
    Ok(
        bytes[0] as u32 * 0x100_0000 + bytes[1] as u32 * 0x1_0000 + bytes[2] as u32 * 0x100
            + bytes[3] as u32,
    )
}

proof fn lemma_big_endian_local(raw: Seq<u8>, tail: Seq<u8>, at: int, n: nat)
    requires
        0 <= at,
        at + n <= raw.len(),
    ensures
        big_endian(raw + tail, at, n) == big_endian(raw, at, n),
    decreases n,
{
    if n > 0 {
        lemma_big_endian_local(raw, tail, at, (n - 1) as nat);
    }
}

proof fn lemma_scan_value_local(
    raw: Seq<u8>,
    tail: Seq<u8>,
    cursor: nat,
    depth: nat,
    nodes: nat,
)
    requires
        scan_value(raw, cursor, depth, nodes).refusal is None,
    ensures
        scan_value(raw + tail, cursor, depth, nodes) == scan_value(raw, cursor, depth, nodes),
    decreases 34 - depth, 0nat,
{
    let marker = raw[cursor as int];
    let width = size_width(marker);
    assert((raw + tail)[cursor as int] == marker);
    lemma_big_endian_local(raw, tail, (cursor + 1) as int, width);
    if holds_values(marker) {
        let size = big_endian(raw, (cursor + 1) as int, width);
        lemma_scan_values_local(
            raw,
            tail,
            cursor + 1 + width,
            depth + 1,
            nodes + 1,
            value_count(marker, size),
        );
    }
}

proof fn lemma_scan_values_local(
    raw: Seq<u8>,
    tail: Seq<u8>,
    cursor: nat,
    depth: nat,
    nodes: nat,
    count: nat,
)
    requires
        scan_values(raw, cursor, depth, nodes, count).refusal is None,
    ensures
        scan_values(raw + tail, cursor, depth, nodes, count) == scan_values(
            raw,
            cursor,
            depth,
            nodes,
            count,
        ),
    decreases 34 - depth, count,
{
    if count > 0 {
        lemma_scan_value_local(raw, tail, cursor, depth, nodes);
        let first = scan_value(raw, cursor, depth, nodes);
        lemma_scan_values_local(
            raw,
            tail,
            first.cursor,
            depth,
            first.nodes,
            (count - 1) as nat,
        );
    }
}

/// Bytes behind a payload that was accepted make it refused: nothing may follow the one value.
pub proof fn trailing_bytes_are_refused(raw: Seq<u8>, tail: Seq<u8>, nodes: nat)
    requires
        preflight(raw, nodes).refusal is None,
        tail.len() > 0,
    ensures
        preflight(raw + tail, nodes).refusal == Some(
            invalid_argument("multimodal kwargs msgpack contains trailing data"@),
        ),
{
    lemma_scan_value_local(raw, tail, 0, 0, nodes);
}

/// A payload that was accepted is refused when bytes are missing at its end.
pub proof fn missing_bytes_are_refused(raw: Seq<u8>, len: int, nodes: nat)
    requires
        preflight(raw, nodes).refusal is None,
        0 <= len < raw.len(),
    ensures
        preflight(raw.take(len), nodes).refusal is Some,
{
    if preflight(raw.take(len), nodes).refusal is None {
        trailing_bytes_are_refused(raw.take(len), raw.skip(len), nodes);
        assert(raw.take(len) + raw.skip(len) =~= raw);
    }
}

proof fn lemma_scan_value_bounds(raw: Seq<u8>, cursor: nat, depth: nat, nodes: nat)
    requires
        scan_value(raw, cursor, depth, nodes).refusal is None,
    ensures
        ({
            let scan = scan_value(raw, cursor, depth, nodes);
            &&& nodes < scan.nodes <= MAX_MM_NODES
            &&& scan.nodes - nodes <= scan.cursor - cursor
            &&& scan.cursor <= raw.len()
        }),
    decreases 34 - depth, 0nat,
{
    let marker = raw[cursor as int];
    let width = size_width(marker);
    if holds_values(marker) {
        let size = big_endian(raw, (cursor + 1) as int, width);
        lemma_scan_values_bounds(
            raw,
            cursor + 1 + width,
            depth + 1,
            nodes + 1,
            value_count(marker, size),
        );
    }
}

proof fn lemma_scan_values_bounds(
    raw: Seq<u8>,
    cursor: nat,
    depth: nat,
    nodes: nat,
    count: nat,
)
    requires
        cursor <= raw.len(),
        nodes <= MAX_MM_NODES,
        scan_values(raw, cursor, depth, nodes, count).refusal is None,
    ensures
        ({
            let scan = scan_values(raw, cursor, depth, nodes, count);
            &&& nodes + count <= scan.nodes <= MAX_MM_NODES
            &&& scan.nodes - nodes <= scan.cursor - cursor
            &&& scan.cursor <= raw.len()
        }),
    decreases 34 - depth, count,
{
    if count > 0 {
        lemma_scan_value_bounds(raw, cursor, depth, nodes);
        let first = scan_value(raw, cursor, depth, nodes);
        lemma_scan_values_bounds(
            raw,
            first.cursor,
            depth,
            first.nodes,
            (count - 1) as nat,
        );
    }
}

/// An accepted payload holds at least one value, at most as many as it has bytes, and keeps
/// the running count within the budget.
pub proof fn accepted_values_are_bounded(raw: Seq<u8>, nodes: nat)
    requires
        preflight(raw, nodes).refusal is None,
    ensures
        nodes < preflight(raw, nodes).nodes <= MAX_MM_NODES,
        preflight(raw, nodes).nodes - nodes <= raw.len(),
{
    lemma_scan_value_bounds(raw, 0, 0, nodes);
}

/// How far down the deepest value lies that a walk over the value at `cursor` meets.
pub open spec fn deepest_value(raw: Seq<u8>, cursor: nat, depth: nat, nodes: nat) -> nat
    decreases 34 - depth, 0nat,
{
    let marker = raw[cursor as int];
    let width = size_width(marker);
    let size = big_endian(raw, (cursor + 1) as int, width);
    if depth <= MAX_MM_DEPTH && holds_values(marker) {
        deepest_of_values(
            raw,
            cursor + 1 + width,
            depth + 1,
            nodes + 1,
            value_count(marker, size),
        )
    } else {
        depth
    }
}

/// How far down the deepest of `count` values in a row lies, or what holds them where there are
/// none.
pub open spec fn deepest_of_values(
    raw: Seq<u8>,
    cursor: nat,
    depth: nat,
    nodes: nat,
    count: nat,
) -> nat
    decreases 34 - depth, count,
{
    if count == 0 {
        (depth - 1) as nat
    } else {
        let first = scan_value(raw, cursor, depth, nodes);
        let here = deepest_value(raw, cursor, depth, nodes);
        let behind = deepest_of_values(
            raw,
            first.cursor,
            depth,
            first.nodes,
            (count - 1) as nat,
        );
        if here < behind {
            behind
        } else {
            here
        }
    }
}

proof fn lemma_scan_value_shallow(raw: Seq<u8>, cursor: nat, depth: nat, nodes: nat)
    requires
        scan_value(raw, cursor, depth, nodes).refusal is None,
    ensures
        deepest_value(raw, cursor, depth, nodes) <= MAX_MM_DEPTH,
    decreases 34 - depth, 0nat,
{
    let marker = raw[cursor as int];
    let width = size_width(marker);
    if holds_values(marker) {
        let size = big_endian(raw, (cursor + 1) as int, width);
        lemma_scan_values_shallow(
            raw,
            cursor + 1 + width,
            depth + 1,
            nodes + 1,
            value_count(marker, size),
        );
    }
}

proof fn lemma_scan_values_shallow(
    raw: Seq<u8>,
    cursor: nat,
    depth: nat,
    nodes: nat,
    count: nat,
)
    requires
        0 < depth <= MAX_MM_DEPTH + 1,
        scan_values(raw, cursor, depth, nodes, count).refusal is None,
    ensures
        deepest_of_values(raw, cursor, depth, nodes, count) <= MAX_MM_DEPTH,
    decreases 34 - depth, count,
{
    if count > 0 {
        lemma_scan_value_shallow(raw, cursor, depth, nodes);
        let first = scan_value(raw, cursor, depth, nodes);
        lemma_scan_values_shallow(
            raw,
            first.cursor,
            depth,
            first.nodes,
            (count - 1) as nat,
        );
    }
}

/// No value of an accepted payload lies further down than the limit.
pub proof fn accepted_values_are_shallow(raw: Seq<u8>, nodes: nat)
    requires
        preflight(raw, nodes).refusal is None,
    ensures
        deepest_value(raw, 0, 0, nodes) <= MAX_MM_DEPTH,
{
    lemma_scan_value_shallow(raw, 0, 0, nodes);
}

/// Whether a walk passes over `total` bytes as one value, or tells that they are not all there.
pub open spec fn passes(scan: Scan, len: nat, cursor: nat, nodes: nat, total: int) -> bool {
    &&& cursor + total <= len ==> scan.refusal is None && scan.cursor == cursor + total
        && scan.nodes == nodes + 1
    &&& cursor + total > len ==> (scan.refusal matches Some(status) && status.code
        == Code::InvalidArgument)
}

/// A scalar takes its marker and the bytes behind it, as MessagePack lays them out, wherever it
/// stands: none for the values that are their own marker, as many as the name of a number says,
/// and for texts, bytes and extensions as many as their size says.
pub proof fn scalars_take_their_bytes(raw: Seq<u8>, cursor: nat, depth: nat, nodes: nat)
    requires
        cursor < raw.len(),
        depth <= 32,
        nodes < 65536,
    ensures
        ({
            let scan = scan_value(raw, cursor, depth, nodes);
            let len = raw.len();
            let at = cursor as int;
            let marker = raw[at];
            let one = raw[at + 1] as int;
            let two = raw[at + 1] * 256 + raw[at + 2];
            let four = raw[at + 1] * 16777216 + raw[at + 2] * 65536 + raw[at + 3] * 256 + raw[at
                + 4];
            &&& marker <= 0x7f || marker >= 0xe0 || marker == 0xc0 || marker == 0xc2 || marker
                == 0xc3 ==> passes(scan, len, cursor, nodes, 1)
            &&& 0xa0 <= marker <= 0xbf ==> passes(scan, len, cursor, nodes, 1 + (marker - 0xa0))
            &&& marker == 0xcc || marker == 0xd0 ==> passes(scan, len, cursor, nodes, 2)
            &&& marker == 0xcd || marker == 0xd1 ==> passes(scan, len, cursor, nodes, 3)
            &&& marker == 0xce || marker == 0xd2 || marker == 0xca ==> passes(
                scan,
                len,
                cursor,
                nodes,
                5,
            )
            &&& marker == 0xcf || marker == 0xd3 || marker == 0xcb ==> passes(
                scan,
                len,
                cursor,
                nodes,
                9,
            )
            &&& marker == 0xd4 ==> passes(scan, len, cursor, nodes, 3)
            &&& marker == 0xd5 ==> passes(scan, len, cursor, nodes, 4)
            &&& marker == 0xd6 ==> passes(scan, len, cursor, nodes, 6)
            &&& marker == 0xd7 ==> passes(scan, len, cursor, nodes, 10)
            &&& marker == 0xd8 ==> passes(scan, len, cursor, nodes, 18)
            &&& cursor + 2 <= len && (marker == 0xc4 || marker == 0xd9) ==> passes(
                scan,
                len,
                cursor,
                nodes,
                2 + one,
            )
            &&& cursor + 3 <= len && (marker == 0xc5 || marker == 0xda) ==> passes(
                scan,
                len,
                cursor,
                nodes,
                3 + two,
            )
            &&& cursor + 5 <= len && (marker == 0xc6 || marker == 0xdb) ==> passes(
                scan,
                len,
                cursor,
                nodes,
                5 + four,
            )
            &&& cursor + 2 <= len && marker == 0xc7 ==> passes(scan, len, cursor, nodes, 3 + one)
            &&& cursor + 3 <= len && marker == 0xc8 ==> passes(scan, len, cursor, nodes, 4 + two)
            &&& cursor + 5 <= len && marker == 0xc9 ==> passes(scan, len, cursor, nodes, 6 + four)
            &&& marker == 0xc1 ==> (scan.refusal matches Some(status) && status.code
                == Code::InvalidArgument && status.message == "reserved MessagePack marker"@)
        }),
{
    reveal_with_fuel(big_endian, 5);
}

/// Arrays and maps are walked value by value, one level further down, and a map holds two values
/// for each of its entries. Where there is no room for as many, they are refused at once.
pub proof fn containers_hold_their_values(raw: Seq<u8>, cursor: nat, depth: nat, nodes: nat)
    requires
        cursor < raw.len(),
        depth <= 32,
        nodes < 65536,
    ensures
        ({
            let scan = scan_value(raw, cursor, depth, nodes);
            let len = raw.len();
            let at = cursor as int;
            let marker = raw[at];
            let two = (raw[at + 1] * 256 + raw[at + 2]) as nat;
            let four = (raw[at + 1] * 16777216 + raw[at + 2] * 65536 + raw[at + 3] * 256 + raw[at
                + 4]) as nat;
            &&& 0x90 <= marker <= 0x9f ==> walks(
                scan,
                raw,
                cursor + 1,
                depth,
                nodes,
                (marker - 0x90) as nat,
            )
            &&& 0x80 <= marker <= 0x8f ==> walks(
                scan,
                raw,
                cursor + 1,
                depth,
                nodes,
                ((marker - 0x80) * 2) as nat,
            )
            &&& marker == 0xdc && cursor + 3 <= len ==> walks(
                scan,
                raw,
                cursor + 3,
                depth,
                nodes,
                two,
            )
            &&& marker == 0xdd && cursor + 5 <= len ==> walks(
                scan,
                raw,
                cursor + 5,
                depth,
                nodes,
                four,
            )
            &&& marker == 0xde && cursor + 3 <= len ==> walks(
                scan,
                raw,
                cursor + 3,
                depth,
                nodes,
                two * 2,
            )
            &&& marker == 0xdf && cursor + 5 <= len ==> walks(
                scan,
                raw,
                cursor + 5,
                depth,
                nodes,
                four * 2,
            )
        }),
{
    reveal_with_fuel(big_endian, 5);
}

/// Whether a walk over an array or a map is one over its `count` values, which stand at `start`.
pub open spec fn walks(
    scan: Scan,
    raw: Seq<u8>,
    start: nat,
    depth: nat,
    nodes: nat,
    count: nat,
) -> bool {
    &&& nodes + 1 + count <= 65536 ==> scan == scan_values(
        raw,
        start,
        depth + 1,
        nodes + 1,
        count,
    )
    &&& nodes + 1 + count > 65536 ==> (scan.refusal matches Some(status) && status.code
        == Code::ResourceExhausted)
}

/// Values in a row are walked one behind the other, each from where the one before it ended.
/// None move nothing, and the first refusal ends the walk.
pub proof fn values_are_walked_in_a_row(
    raw: Seq<u8>,
    cursor: nat,
    depth: nat,
    nodes: nat,
    some: nat,
    more: nat,
)
    ensures
        ({
            let first = scan_values(raw, cursor, depth, nodes, some);
            let all = scan_values(raw, cursor, depth, nodes, some + more);
            &&& first.refusal is Some ==> all == first
            &&& first.refusal is None ==> all == scan_values(
                raw,
                first.cursor,
                depth,
                first.nodes,
                more,
            )
        }),
        scan_values(raw, cursor, depth, nodes, 0).refusal is None,
        scan_values(raw, cursor, depth, nodes, 0).cursor == cursor,
        scan_values(raw, cursor, depth, nodes, 0).nodes == nodes,
        scan_values(raw, cursor, depth, nodes, 1) == scan_value(raw, cursor, depth, nodes),
    decreases some,
{
    reveal_with_fuel(scan_values, 2);
    if some > 0 {
        let one = scan_value(raw, cursor, depth, nodes);
        if one.refusal is None {
            values_are_walked_in_a_row(
                raw,
                one.cursor,
                depth,
                one.nodes,
                (some - 1) as nat,
                more,
            );
            assert((some + more - 1) as nat == (some - 1) as nat + more);
        }
    }
}

/// A value is refused where it lies more than 32 levels down or comes behind 65536 others, and
/// where no byte is left for it. Bytes are accepted as one value that takes them all.
pub proof fn walks_stop_at_their_bounds(raw: Seq<u8>, cursor: nat, depth: nat, nodes: nat)
    ensures
        depth > 32 || nodes >= 65536 ==> (scan_value(
            raw,
            cursor,
            depth,
            nodes,
        ).refusal matches Some(status) && status.code == Code::ResourceExhausted),
        depth <= 32 && nodes < 65536 && cursor >= raw.len() ==> (scan_value(
            raw,
            cursor,
            depth,
            nodes,
        ).refusal matches Some(status) && status.code == Code::InvalidArgument),
        preflight(raw, nodes).refusal is None <==> scan_value(raw, 0, 0, nodes).refusal is None
            && scan_value(raw, 0, 0, nodes).cursor == raw.len(),
        preflight(raw, nodes).nodes == scan_value(raw, 0, 0, nodes).nodes,
{
}

} // verus!
