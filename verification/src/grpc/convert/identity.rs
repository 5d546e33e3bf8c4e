//! The cache identity of a preprocessed multimodal feature.

use vstd::prelude::*;
use vstd::utf8::encode_utf8;

verus! {

/// What `sha2::Sha256::digest` returns.
pub uninterp spec fn sha256(data: Seq<u8>) -> Seq<u8>;

/// Calls `sha2::Sha256::digest`: the digest is a function of the data alone and has 32 bytes.
#[verifier::external_body]
fn sha256_digest(data: &[u8]) -> (digest: Vec<u8>)
    ensures
        digest@ == sha256(data@),
        digest@.len() == 32,
{
    <sha2::Sha256 as sha2::Digest>::digest(data).to_vec()
}

/// `n` in `len` bytes, most significant byte first.
pub open spec fn be_bytes(n: nat, len: nat) -> Seq<u8>
    decreases len,
{
    if len == 0 {
        Seq::empty()
    } else {
        be_bytes(n / 256, (len - 1) as nat).push((n % 256) as u8)
    }
}

/// The lower-case hexadecimal digit for `n`, which is below sixteen.
pub open spec fn hex_digit(n: int) -> char {
    if n < 10 {
        (('0' as u32) + n) as char
    } else {
        (('a' as u32) + (n - 10)) as char
    }
}

/// `bytes` in lower-case hexadecimal.
pub open spec fn hex(bytes: Seq<u8>) -> Seq<char>
    decreases bytes.len(),
{
    if bytes.len() == 0 {
        Seq::empty()
    } else {
        hex(bytes.drop_last()) + seq![
            hex_digit((bytes.last() / 16) as int),
            hex_digit((bytes.last() % 16) as int),
        ]
    }
}

/// What is hashed: a domain tag, then the modality and the payload, each behind its length.
pub open spec fn identity_preimage(modality: Seq<char>, raw: Seq<u8>) -> Seq<u8> {
    encode_utf8("vllm.grpc.preprocessed-mm.v1"@) + be_bytes(encode_utf8(modality).len(), 8)
        + encode_utf8(modality) + be_bytes(raw.len(), 8) + raw
}

pub open spec fn cache_identifier(modality: Seq<char>, raw: Seq<u8>) -> Seq<char> {
    "grpc-mm:"@ + hex(sha256(identity_preimage(modality, raw)))
}

fn push_be_bytes(bytes: &mut Vec<u8>, n: u64)
    ensures
        final(bytes)@ == old(bytes)@ + be_bytes(n as nat, 8),
{
    proof {
        reveal_with_fuel(be_bytes, 9);
    }
    bytes.push((n / 0x100_0000_0000_0000 % 256) as u8);
    bytes.push((n / 0x1_0000_0000_0000 % 256) as u8);
    bytes.push((n / 0x100_0000_0000 % 256) as u8);
    bytes.push((n / 0x1_0000_0000 % 256) as u8);
    bytes.push((n / 0x100_0000 % 256) as u8);
    bytes.push((n / 0x1_0000 % 256) as u8);
    bytes.push((n / 0x100 % 256) as u8);
    bytes.push((n % 256) as u8);
    assert(bytes@ =~= old(bytes)@ + be_bytes(n as nat, 8));
}

fn push_bytes(bytes: &mut Vec<u8>, more: &[u8])
    ensures
        final(bytes)@ == old(bytes)@ + more@,
{
    bytes.extend_from_slice(more);
    assert(bytes@ =~= old(bytes)@ + more@);
}

fn hex_digit_text(n: u8) -> (text: &'static str)
    requires
        n < 16,
    ensures
        text@ == seq![hex_digit(n as int)],
{
    proof {
        reveal_strlit("0");
        reveal_strlit("1");
        reveal_strlit("2");
        reveal_strlit("3");
        reveal_strlit("4");
        reveal_strlit("5");
        reveal_strlit("6");
        reveal_strlit("7");
        reveal_strlit("8");
        reveal_strlit("9");
        reveal_strlit("a");
        reveal_strlit("b");
        reveal_strlit("c");
        reveal_strlit("d");
        reveal_strlit("e");
        reveal_strlit("f");
    }
    let text = match n {
        0 => "0",
        1 => "1",
        2 => "2",
        3 => "3",
        4 => "4",
        5 => "5",
        6 => "6",
        7 => "7",
        8 => "8",
        9 => "9",
        10 => "a",
        11 => "b",
        12 => "c",
        13 => "d",
        14 => "e",
        _ => "f",
    };
    assert(text@ =~= seq![hex_digit(n as int)]);
    text
}

fn append_hex(text: &mut String, bytes: &[u8])
    ensures
        final(text)@ == old(text)@ + hex(bytes@),
{
    let ghost start = text@;
    assert(bytes@.take(0) =~= Seq::<u8>::empty());
    for i in 0..bytes.len()
        invariant
            text@ == start + hex(bytes@.take(i as int)),
    {
        let byte = bytes[i];
        text.append(hex_digit_text(byte / 16));
        text.append(hex_digit_text(byte % 16));
        proof {
            assert(bytes@.take(i + 1).drop_last() =~= bytes@.take(i as int));
            assert(text@ =~= start + hex(bytes@.take(i + 1)));
        }
    }
    assert(bytes@.take(bytes@.len() as int) =~= bytes@);
}

/// The cache identity of a payload: bound to its modality and to every byte of it.
pub fn mm_cache_identifier(modality: &str, raw: &[u8]) -> (identifier: String)
    ensures
        identifier@ == cache_identifier(modality@, raw@),
        identifier@.len() == 72,
{
    let mut preimage: Vec<u8> = Vec::new();
    push_bytes(&mut preimage, "vllm.grpc.preprocessed-mm.v1".as_bytes());
    push_be_bytes(&mut preimage, modality.as_bytes().len() as u64);
    push_bytes(&mut preimage, modality.as_bytes());
    push_be_bytes(&mut preimage, raw.len() as u64);
    push_bytes(&mut preimage, raw);
    assert(preimage@ =~= identity_preimage(modality@, raw@));
    let digest = sha256_digest(preimage.as_slice());
    let mut identifier = "grpc-mm:".to_string();
    append_hex(&mut identifier, digest.as_slice());
    proof {
        reveal_strlit("grpc-mm:");
        lemma_hex_len(digest@);
    }
    identifier
}

proof fn lemma_hex_len(bytes: Seq<u8>)
    ensures
        hex(bytes).len() == 2 * bytes.len(),
    decreases bytes.len(),
{
    if bytes.len() > 0 {
        lemma_hex_len(bytes.drop_last());
    }
}

proof fn lemma_be_bytes_len(n: nat, len: nat)
    ensures
        be_bytes(n, len).len() == len,
    decreases len,
{
    if len > 0 {
        lemma_be_bytes_len(n / 256, (len - 1) as nat);
    }
}

proof fn lemma_be_bytes_injective(n: nat, m: nat)
    requires
        n <= u64::MAX,
        m <= u64::MAX,
        be_bytes(n, 8) == be_bytes(m, 8),
    ensures
        n == m,
{
    reveal_with_fuel(be_bytes, 9);
    let a = be_bytes(n, 8);
    let b = be_bytes(m, 8);
    assert(a[0] == b[0] && a[1] == b[1] && a[2] == b[2] && a[3] == b[3] && a[4] == b[4] && a[5]
        == b[5] && a[6] == b[6] && a[7] == b[7]);
}

/// Two features are hashed over the same bytes only where their modality and their payload
/// are the same.
pub proof fn identity_preimage_is_injective(
    modality: Seq<char>,
    raw: Seq<u8>,
    other_modality: Seq<char>,
    other_raw: Seq<u8>,
)
    requires
        encode_utf8(modality).len() <= u64::MAX,
        encode_utf8(other_modality).len() <= u64::MAX,
        identity_preimage(modality, raw) == identity_preimage(other_modality, other_raw),
    ensures
        modality == other_modality,
        raw == other_raw,
{
    let tag = encode_utf8("vllm.grpc.preprocessed-mm.v1"@);
    let name = encode_utf8(modality);
    let other_name = encode_utf8(other_modality);
    let whole = identity_preimage(modality, raw);
    let t = tag.len() as int;
    lemma_be_bytes_len(name.len(), 8);
    lemma_be_bytes_len(other_name.len(), 8);
    lemma_be_bytes_len(raw.len(), 8);
    lemma_be_bytes_len(other_raw.len(), 8);
    assert(whole.subrange(t, t + 8) =~= be_bytes(name.len(), 8));
    assert(whole.subrange(t, t + 8) =~= be_bytes(other_name.len(), 8));
    lemma_be_bytes_injective(name.len(), other_name.len());
    let n = name.len() as int;
    assert(whole.subrange(t + 8, t + 8 + n) =~= name);
    assert(whole.subrange(t + 8, t + 8 + n) =~= other_name);
    vstd::utf8::encode_utf8_decode_utf8(modality);
    vstd::utf8::encode_utf8_decode_utf8(other_modality);
    assert(whole.skip(t + 16 + n) =~= raw);
    assert(whole.skip(t + 16 + n) =~= other_raw);
}

proof fn lemma_hex_injective(a: Seq<u8>, b: Seq<u8>)
    requires
        hex(a) == hex(b),
    ensures
        a == b,
    decreases a.len(),
{
    lemma_hex_len(a);
    lemma_hex_len(b);
    if a.len() > 0 {
        let text = hex(a);
        let n = text.len() as int;
        assert(text.take(n - 2) =~= hex(a.drop_last()));
        assert(text.take(n - 2) =~= hex(b.drop_last()));
        lemma_hex_injective(a.drop_last(), b.drop_last());
        assert(text[n - 2] == hex_digit((a.last() / 16) as int));
        assert(text[n - 2] == hex_digit((b.last() / 16) as int));
        assert(text[n - 1] == hex_digit((a.last() % 16) as int));
        assert(text[n - 1] == hex_digit((b.last() % 16) as int));
        assert(a =~= a.drop_last().push(a.last()));
        assert(b =~= b.drop_last().push(b.last()));
    } else {
        assert(a =~= b);
    }
}

/// Two features have the same identity exactly where the digests over their bytes are the same.
pub proof fn identity_is_the_digest(
    modality: Seq<char>,
    raw: Seq<u8>,
    other_modality: Seq<char>,
    other_raw: Seq<u8>,
)
    ensures
        cache_identifier(modality, raw) == cache_identifier(other_modality, other_raw) <==> sha256(
            identity_preimage(modality, raw),
        ) == sha256(identity_preimage(other_modality, other_raw)),
{
    let prefix = "grpc-mm:"@;
    let a = sha256(identity_preimage(modality, raw));
    let b = sha256(identity_preimage(other_modality, other_raw));
    if cache_identifier(modality, raw) == cache_identifier(other_modality, other_raw) {
        assert((prefix + hex(a)).skip(prefix.len() as int) =~= hex(a));
        assert((prefix + hex(b)).skip(prefix.len() as int) =~= hex(b));
        lemma_hex_injective(a, b);
    }
}

/// Each byte is written as two digits, the higher one first: the digits read back are the byte.
pub proof fn bytes_are_read_back_from_their_digits(bytes: Seq<u8>, i: int)
    requires
        0 <= i < bytes.len(),
    ensures
        hex(bytes).len() == 2 * bytes.len(),
        ({
            let high = hex(bytes)[2 * i];
            let low = hex(bytes)[2 * i + 1];
            &&& '0' <= high <= '9' || 'a' <= high <= 'f'
            &&& '0' <= low <= '9' || 'a' <= low <= 'f'
            &&& bytes[i] == 16 * (if high <= '9' {
                high as int - 48
            } else {
                high as int - 87
            }) + (if low <= '9' {
                low as int - 48
            } else {
                low as int - 87
            })
        }),
    decreases bytes.len(),
{
    lemma_hex_len(bytes);
    lemma_hex_len(bytes.drop_last());
    if i < bytes.len() - 1 {
        bytes_are_read_back_from_their_digits(bytes.drop_last(), i);
        assert(hex(bytes)[2 * i] == hex(bytes.drop_last())[2 * i]);
        assert(hex(bytes)[2 * i + 1] == hex(bytes.drop_last())[2 * i + 1]);
        assert(bytes.drop_last()[i] == bytes[i]);
    } else {
        assert(hex(bytes)[2 * i] == hex_digit((bytes.last() / 16) as int));
        assert(hex(bytes)[2 * i + 1] == hex_digit((bytes.last() % 16) as int));
    }
}

proof fn lemma_length_is_read_back(n: nat, value: spec_fn(nat, u8) -> nat)
    requires
        n <= u64::MAX,
        forall|v: nat, b: u8| #[trigger] value(v, b) == v * 256 + b,
    ensures
        be_bytes(n, 8).fold_left(0nat, value) == n,
{
    reveal_with_fuel(be_bytes, 9);
    reveal_with_fuel(Seq::fold_left, 9);
    let all = be_bytes(n, 8);
    let s7 = all.drop_last();
    let s6 = s7.drop_last();
    let s5 = s6.drop_last();
    let s4 = s5.drop_last();
    let s3 = s4.drop_last();
    let s2 = s3.drop_last();
    let s1 = s2.drop_last();
    assert(s1.drop_last().len() == 0);
    assert(s1.fold_left(0nat, value) == value(0, all[0]));
    assert(s2.fold_left(0nat, value) == value(s1.fold_left(0nat, value), all[1]));
    assert(s3.fold_left(0nat, value) == value(s2.fold_left(0nat, value), all[2]));
    assert(s4.fold_left(0nat, value) == value(s3.fold_left(0nat, value), all[3]));
    assert(s5.fold_left(0nat, value) == value(s4.fold_left(0nat, value), all[4]));
    assert(s6.fold_left(0nat, value) == value(s5.fold_left(0nat, value), all[5]));
    assert(s7.fold_left(0nat, value) == value(s6.fold_left(0nat, value), all[6]));
    assert(all.fold_left(0nat, value) == value(s7.fold_left(0nat, value), all[7]));
}

/// What is hashed is a tag of 28 bytes, the length of the modality, the modality, the length of
/// the payload and the payload, each length in eight bytes that read back as it.
pub proof fn preimages_hold_all_parts(
    modality: Seq<char>,
    raw: Seq<u8>,
    value: spec_fn(nat, u8) -> nat,
)
    requires
        encode_utf8(modality).len() <= u64::MAX,
        raw.len() <= u64::MAX,
        forall|v: nat, b: u8| #[trigger] value(v, b) == v * 256 + b,
    ensures
        ({
            let whole = identity_preimage(modality, raw);
            let tag = encode_utf8("vllm.grpc.preprocessed-mm.v1"@);
            let name = encode_utf8(modality);
            let t = tag.len() as int;
            let n = name.len() as int;
            &&& whole.len() == t + 8 + n + 8 + raw.len()
            &&& whole.take(t) == tag
            &&& whole.subrange(t, t + 8).fold_left(0nat, value) == n
            &&& whole.subrange(t + 8, t + 8 + n) == name
            &&& whole.subrange(t + 8 + n, t + 16 + n).fold_left(0nat, value) == raw.len()
            &&& whole.skip(t + 16 + n) == raw
        }),
{
    let whole = identity_preimage(modality, raw);
    let tag = encode_utf8("vllm.grpc.preprocessed-mm.v1"@);
    let name = encode_utf8(modality);
    let t = tag.len() as int;
    let n = name.len() as int;
    lemma_be_bytes_len(name.len(), 8);
    lemma_be_bytes_len(raw.len(), 8);
    lemma_length_is_read_back(name.len(), value);
    lemma_length_is_read_back(raw.len(), value);
    assert(whole.take(t) =~= tag);
    assert(whole.subrange(t, t + 8) =~= be_bytes(name.len(), 8));
    assert(whole.subrange(t + 8, t + 8 + n) =~= name);
    assert(whole.subrange(t + 8 + n, t + 16 + n) =~= be_bytes(raw.len(), 8));
    assert(whole.skip(t + 16 + n) =~= raw);
}

/// An identity is its tag and the digest over the bytes of the feature, digit by digit.
pub proof fn identities_tell_the_digest(modality: Seq<char>, raw: Seq<u8>, i: int)
    requires
        sha256(identity_preimage(modality, raw)).len() == 32,
        0 <= i < 32,
    ensures
        cache_identifier(modality, raw).len() == 72,
        cache_identifier(modality, raw).take(8) == "grpc-mm:"@,
        ({
            let high = cache_identifier(modality, raw)[8 + 2 * i];
            let low = cache_identifier(modality, raw)[9 + 2 * i];
            sha256(identity_preimage(modality, raw))[i] == 16 * (if high <= '9' {
                high as int - 48
            } else {
                high as int - 87
            }) + (if low <= '9' {
                low as int - 48
            } else {
                low as int - 87
            })
        }),
{
    reveal_strlit("grpc-mm:");
    let digest = sha256(identity_preimage(modality, raw));
    bytes_are_read_back_from_their_digits(digest, i);
    assert(cache_identifier(modality, raw).take(8) =~= "grpc-mm:"@);
}

} // verus!
