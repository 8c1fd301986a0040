//! Specification-level model of the wire format: byte-sequence editing and
//! the little-endian encodings that every buffer accessor is specified by.

use vstd::prelude::*;
use vstd::bytes::{
    spec_u16_to_le_bytes, spec_u32_to_le_bytes, spec_u64_to_le_bytes, spec_u16_from_le_bytes,
    spec_u32_from_le_bytes, spec_u64_from_le_bytes,
};

verus! {

/// `b` with `patch` written over the bytes starting at `at`; bytes outside
/// the patched span are unchanged and the length is kept.
pub open spec fn splice(b: Seq<u8>, at: int, patch: Seq<u8>) -> Seq<u8> {
    Seq::new(b.len(), |i: int| if at <= i < at + patch.len() { patch[i - at] } else { b[i] })
}

/// A run of `n` zero bytes (the content of freshly grown capacity).
pub open spec fn zeros(n: int) -> Seq<u8> {
    Seq::new(n as nat, |i: int| 0u8)
}

/// Inside the patched span a splice reads the patch back.
pub proof fn lemma_splice_patch(b: Seq<u8>, at: int, patch: Seq<u8>)
    requires
        0 <= at,
        at + patch.len() <= b.len(),
    ensures
        splice(b, at, patch).subrange(at, at + patch.len()) == patch,
{
    assert(splice(b, at, patch).subrange(at, at + patch.len()) =~= patch);
}

/// The 16-bit little-endian value stored at position `j`.
pub open spec fn le16_at(b: Seq<u8>, j: int) -> u16 {
    spec_u16_from_le_bytes(b.subrange(j, j + 2))
}

/// The 32-bit little-endian value stored at position `j`.
pub open spec fn le32_at(b: Seq<u8>, j: int) -> u32 {
    spec_u32_from_le_bytes(b.subrange(j, j + 4))
}

/// The 64-bit little-endian value stored at position `j`.
pub open spec fn le64_at(b: Seq<u8>, j: int) -> u64 {
    spec_u64_from_le_bytes(b.subrange(j, j + 8))
}

/// The payload of the length-prefixed block at position `j`.
pub open spec fn dec_block(b: Seq<u8>, j: int) -> Seq<u8> {
    b.subrange(j + 4, j + 4 + le32_at(b, j) as int)
}

/// The vector decoded from base `base` and field offset `off`: a zero
/// pointer stands for the empty vector, otherwise the pointer leads to a
/// count and that many 4-byte elements.
pub open spec fn dec_vector_i32(b: Seq<u8>, base: int, off: int) -> Seq<i32> {
    let p = le32_at(b, base + off) as int;
    if p == 0 {
        Seq::empty()
    } else {
        let n = le32_at(b, base + p) as int;
        Seq::new(n as nat, |i: int| le32_at(b, base + p + 4 + 4 * i) as i32)
    }
}

/// The map decoded from base `base` and field offset `off`.
pub open spec fn dec_map_i32(b: Seq<u8>, base: int, off: int) -> Seq<(i32, i32)> {
    let p = le32_at(b, base + off) as int;
    if p == 0 {
        Seq::empty()
    } else {
        let n = le32_at(b, base + p) as int;
        Seq::new(
            n as nat,
            |i: int|
                (
                    le32_at(b, base + p + 4 + 8 * i) as i32,
                    le32_at(b, base + p + 4 + 8 * i + 4) as i32,
                ),
        )
    }
}

/// The position just past `n` consecutive length-prefixed blocks starting at
/// `j`.
pub open spec fn blocks_end(b: Seq<u8>, j: int, n: int) -> int
    decreases n,
{
    if n <= 0 {
        j
    } else {
        blocks_end(b, j + 4 + le32_at(b, j) as int, n - 1)
    }
}

/// The payloads of `n` consecutive length-prefixed blocks starting at `j`.
pub open spec fn dec_string_blocks(b: Seq<u8>, j: int, n: int) -> Seq<Seq<u8>>
    decreases n,
{
    if n <= 0 {
        Seq::empty()
    } else {
        seq![dec_block(b, j)] + dec_string_blocks(b, j + 4 + le32_at(b, j) as int, n - 1)
    }
}

/// `n` consecutive length-prefixed blocks starting at `j` lie within the
/// first `size` bytes and each length fits the signed 32-bit prefix.
pub open spec fn strings_wf(b: Seq<u8>, size: int, j: int, n: int) -> bool
    decreases n,
{
    if n <= 0 {
        true
    } else {
        &&& j + 4 <= size
        &&& le32_at(b, j) <= i32::MAX
        &&& j + 4 + le32_at(b, j) <= size
        &&& strings_wf(b, size, j + 4 + le32_at(b, j) as int, n - 1)
    }
}

/// Reading one more block appends its payload and advances the end past it.
pub proof fn lemma_string_blocks_snoc(b: Seq<u8>, j: int, i: int)
    requires
        i >= 0,
    ensures
        dec_string_blocks(b, j, i + 1) == dec_string_blocks(b, j, i).push(
            dec_block(b, blocks_end(b, j, i)),
        ),
        blocks_end(b, j, i + 1) == blocks_end(b, j, i) + 4 + le32_at(b, blocks_end(b, j, i)),
    decreases i,
{
    if i == 0 {
        let j2 = j + 4 + le32_at(b, j) as int;
        assert(blocks_end(b, j, 1) == blocks_end(b, j2, 0));
        assert(dec_string_blocks(b, j2, 0) =~= Seq::<Seq<u8>>::empty());
        assert(dec_string_blocks(b, j, 0) =~= Seq::<Seq<u8>>::empty());
        assert(dec_string_blocks(b, j, 1) =~= dec_string_blocks(b, j, 0).push(
            dec_block(b, blocks_end(b, j, 0)),
        ));
    } else {
        let j2 = j + 4 + le32_at(b, j) as int;
        lemma_string_blocks_snoc(b, j2, i - 1);
        assert(blocks_end(b, j, i + 1) == blocks_end(b, j2, i));
        assert(blocks_end(b, j, i) == blocks_end(b, j2, i - 1));
        assert(dec_string_blocks(b, j, i + 1) =~= dec_string_blocks(b, j, i).push(
            dec_block(b, blocks_end(b, j, i)),
        ));
    }
}

pub proof fn lemma_dec_string_blocks_len(b: Seq<u8>, j: int, n: int)
    ensures
        n >= 0 ==> dec_string_blocks(b, j, n).len() == n,
    decreases n,
{
    if n > 0 {
        lemma_dec_string_blocks_len(b, j + 4 + le32_at(b, j) as int, n - 1);
    }
}

/// The decoded optional i32 in the pointer-based layout: a zero flag byte
/// stands for absence; otherwise a 4-byte pointer follows, leading to the
/// value.
pub open spec fn dec_optional_i32(b: Seq<u8>, base: int, off: int) -> Option<i32> {
    if b[base + off] == 0 {
        Option::None
    } else {
        Option::Some(le32_at(b, base + le32_at(b, base + off + 1) as int) as i32)
    }
}

/// The decoded optional string payload in the pointer-based layout.
pub open spec fn dec_optional_block(b: Seq<u8>, base: int, off: int) -> Option<Seq<u8>> {
    if b[base + off] == 0 {
        Option::None
    } else {
        Option::Some(dec_block(b, base + le32_at(b, base + off + 1) as int))
    }
}

/// The decoded optional i32 in the inline (final) layout: the value follows
/// the flag byte directly.
pub open spec fn dec_optional_i32_final(b: Seq<u8>, base: int, off: int) -> Option<i32> {
    if b[base + off] == 0 {
        Option::None
    } else {
        Option::Some(le32_at(b, base + off + 1) as i32)
    }
}

/// The fixed array of `n` elements decoded inline at base plus offset.
pub open spec fn dec_array_i32(b: Seq<u8>, base: int, off: int, n: int) -> Seq<i32> {
    Seq::new(n as nat, |i: int| le32_at(b, base + off + 4 * i) as i32)
}

/// The one-byte encoding of a boolean flag.
pub open spec fn enc_bool(v: bool) -> Seq<u8> {
    seq![if v { 1u8 } else { 0u8 }]
}

/// The length-prefixed block that carries a string or a bytes field:
/// a 4-byte little-endian length followed by the raw payload.
pub open spec fn enc_block(payload: Seq<u8>) -> Seq<u8> {
    spec_u32_to_le_bytes(payload.len() as u32) + payload
}

/// The 16-byte decimal layout: bytes 0..12 hold the little-endian 96-bit
/// unscaled magnitude, bytes 12 and 13 are reserved zero, byte 14 is the
/// scale and byte 15 carries the sign in its high bit.
pub open spec fn enc_decimal(value: i128, scale: u8, negative: bool) -> Seq<u8> {
    spec_u64_to_le_bytes(value as u64) + spec_u32_to_le_bytes((value >> 64) as u32) + seq![
        0u8,
        0u8,
        scale,
        if negative { 0x80u8 } else { 0u8 },
    ]
}

/// The unscaled magnitude decoded from the first 12 bytes of the decimal at
/// position `j`: a 96-bit little-endian integer.
pub open spec fn dec_decimal_value(b: Seq<u8>, j: int) -> int {
    le64_at(b, j) + le32_at(b, j + 8) * 0x10000000000000000
}

/// The element bytes of a pointer-based collection block: each element as a
/// 4-byte little-endian value, in order.
pub open spec fn enc_i32_elems(vs: Seq<i32>) -> Seq<u8>
    decreases vs.len(),
{
    if vs.len() == 0 {
        Seq::empty()
    } else {
        enc_i32_elems(vs.drop_last()) + spec_u32_to_le_bytes(vs.last() as u32)
    }
}

/// The pointed-to block of a vector, set or list: a 4-byte count followed by
/// the elements.
pub open spec fn enc_vector_i32(vs: Seq<i32>) -> Seq<u8> {
    spec_u32_to_le_bytes(vs.len() as u32) + enc_i32_elems(vs)
}

/// The pair bytes of a map block: key then value, each 4 bytes, in order.
pub open spec fn enc_i32_pairs(ps: Seq<(i32, i32)>) -> Seq<u8>
    decreases ps.len(),
{
    if ps.len() == 0 {
        Seq::empty()
    } else {
        enc_i32_pairs(ps.drop_last()) + spec_u32_to_le_bytes(ps.last().0 as u32)
            + spec_u32_to_le_bytes(ps.last().1 as u32)
    }
}

/// The pointed-to block of a map: a 4-byte count followed by the pairs.
pub open spec fn enc_map_i32(ps: Seq<(i32, i32)>) -> Seq<u8> {
    spec_u32_to_le_bytes(ps.len() as u32) + enc_i32_pairs(ps)
}

/// The element bytes of a string collection: each string as its
/// length-prefixed block, in order.
pub open spec fn enc_string_elems(vs: Seq<Seq<u8>>) -> Seq<u8>
    decreases vs.len(),
{
    if vs.len() == 0 {
        Seq::empty()
    } else {
        enc_string_elems(vs.drop_last()) + enc_block(vs.last())
    }
}

/// The pointed-to block of a string vector: a 4-byte count followed by the
/// length-prefixed strings.
pub open spec fn enc_vector_string(vs: Seq<Seq<u8>>) -> Seq<u8> {
    spec_u32_to_le_bytes(vs.len() as u32) + enc_string_elems(vs)
}

/// Appending one element extends the element bytes by its 4-byte slot.
pub proof fn lemma_enc_i32_elems_push(vs: Seq<i32>, v: i32)
    ensures
        enc_i32_elems(vs.push(v)) == enc_i32_elems(vs) + spec_u32_to_le_bytes(v as u32),
{
    assert(vs.push(v).drop_last() =~= vs);
    assert(vs.push(v).last() == v);
}

/// Appending one pair extends the pair bytes by its 8-byte slot.
pub proof fn lemma_enc_i32_pairs_push(ps: Seq<(i32, i32)>, p: (i32, i32))
    ensures
        enc_i32_pairs(ps.push(p)) == enc_i32_pairs(ps) + spec_u32_to_le_bytes(p.0 as u32)
            + spec_u32_to_le_bytes(p.1 as u32),
{
    assert(ps.push(p).drop_last() =~= ps);
    assert(ps.push(p).last() == p);
}

/// Appending one string extends the element bytes by its block.
pub proof fn lemma_enc_string_elems_push(vs: Seq<Seq<u8>>, v: Seq<u8>)
    ensures
        enc_string_elems(vs.push(v)) == enc_string_elems(vs) + enc_block(v),
{
    assert(vs.push(v).drop_last() =~= vs);
    assert(vs.push(v).last() == v);
}

/// The UTF-8 bytes of each string in a string collection, in order.
pub open spec fn strings_bytes(vs: Seq<String>) -> Seq<Seq<u8>> {
    Seq::new(vs.len(), |i: int| vstd::utf8::encode_utf8(vs[i]@))
}

/// Every string costs at least its 4-byte length prefix.
pub proof fn lemma_enc_string_elems_min_len(vs: Seq<Seq<u8>>)
    ensures
        enc_string_elems(vs).len() >= 4 * vs.len(),
    decreases vs.len(),
{
    vstd::bytes::lemma_auto_spec_u32_to_from_le_bytes();
    if vs.len() > 0 {
        lemma_enc_string_elems_min_len(vs.drop_last());
    }
}

/// A prefix of a string collection encodes to no more bytes than the whole.
pub proof fn lemma_enc_string_elems_take_le(vs: Seq<Seq<u8>>, i: int)
    requires
        0 <= i <= vs.len(),
    ensures
        enc_string_elems(vs.take(i)).len() <= enc_string_elems(vs).len(),
    decreases vs.len() - i,
{
    if i == vs.len() {
        assert(vs.take(i) =~= vs);
    } else {
        assert(vs.take(i + 1) =~= vs.take(i).push(vs[i]));
        lemma_enc_string_elems_push(vs.take(i), vs[i]);
        lemma_enc_string_elems_take_le(vs, i + 1);
    }
}

pub proof fn lemma_enc_i32_elems_len(vs: Seq<i32>)
    ensures
        enc_i32_elems(vs).len() == 4 * vs.len(),
    decreases vs.len(),
{
    vstd::bytes::lemma_auto_spec_u32_to_from_le_bytes();
    if vs.len() > 0 {
        lemma_enc_i32_elems_len(vs.drop_last());
    }
}

pub proof fn lemma_enc_i32_pairs_len(ps: Seq<(i32, i32)>)
    ensures
        enc_i32_pairs(ps).len() == 8 * ps.len(),
    decreases ps.len(),
{
    vstd::bytes::lemma_auto_spec_u32_to_from_le_bytes();
    if ps.len() > 0 {
        lemma_enc_i32_pairs_len(ps.drop_last());
    }
}

/// Each element sits at its own 4-byte slot inside the element bytes.
pub proof fn lemma_enc_i32_elems_index(vs: Seq<i32>, i: int)
    requires
        0 <= i < vs.len(),
    ensures
        enc_i32_elems(vs).subrange(4 * i, 4 * i + 4) == spec_u32_to_le_bytes(vs[i] as u32),
    decreases vs.len(),
{
    vstd::bytes::lemma_auto_spec_u32_to_from_le_bytes();
    lemma_enc_i32_elems_len(vs);
    lemma_enc_i32_elems_len(vs.drop_last());
    if i == vs.len() - 1 {
        assert(enc_i32_elems(vs).subrange(4 * i, 4 * i + 4) =~= spec_u32_to_le_bytes(
            vs[i] as u32,
        ));
    } else {
        lemma_enc_i32_elems_index(vs.drop_last(), i);
        assert(enc_i32_elems(vs).subrange(4 * i, 4 * i + 4) =~= enc_i32_elems(
            vs.drop_last(),
        ).subrange(4 * i, 4 * i + 4));
    }
}

/// Each pair sits at its own 8-byte slot inside the pair bytes.
pub proof fn lemma_enc_i32_pairs_index(ps: Seq<(i32, i32)>, i: int)
    requires
        0 <= i < ps.len(),
    ensures
        enc_i32_pairs(ps).subrange(8 * i, 8 * i + 4) == spec_u32_to_le_bytes(ps[i].0 as u32),
        enc_i32_pairs(ps).subrange(8 * i + 4, 8 * i + 8) == spec_u32_to_le_bytes(ps[i].1 as u32),
    decreases ps.len(),
{
    vstd::bytes::lemma_auto_spec_u32_to_from_le_bytes();
    lemma_enc_i32_pairs_len(ps);
    lemma_enc_i32_pairs_len(ps.drop_last());
    if i == ps.len() - 1 {
        assert(enc_i32_pairs(ps).subrange(8 * i, 8 * i + 4) =~= spec_u32_to_le_bytes(
            ps[i].0 as u32,
        ));
        assert(enc_i32_pairs(ps).subrange(8 * i + 4, 8 * i + 8) =~= spec_u32_to_le_bytes(
            ps[i].1 as u32,
        ));
    } else {
        lemma_enc_i32_pairs_index(ps.drop_last(), i);
        assert(enc_i32_pairs(ps).subrange(8 * i, 8 * i + 4) =~= enc_i32_pairs(
            ps.drop_last(),
        ).subrange(8 * i, 8 * i + 4));
        assert(enc_i32_pairs(ps).subrange(8 * i + 4, 8 * i + 8) =~= enc_i32_pairs(
            ps.drop_last(),
        ).subrange(8 * i + 4, 8 * i + 8));
    }
}

} // verus!
