//! Round-trip laws of the wire format: decoding an encoding written into a
//! buffer returns the value that was written, for every primitive type and
//! every collection, and absence costs exactly one byte.

use vstd::prelude::*;
use vstd::bytes::{
    spec_u16_to_le_bytes, spec_u32_to_le_bytes, spec_u64_to_le_bytes, spec_u16_from_le_bytes,
    spec_u32_from_le_bytes, spec_u64_from_le_bytes,
};
use crate::wire::{
    splice, enc_bool, enc_block, enc_decimal, enc_vector_i32, enc_map_i32, enc_i32_elems,
    enc_i32_pairs, le16_at, le32_at, le64_at, dec_block, dec_vector_i32, dec_map_i32,
    dec_array_i32, dec_decimal_value,
};
use crate::buffer::grown;

verus! {

/// Growing a store keeps its bytes and reaches the requested total.
pub proof fn lemma_grown(b: Seq<u8>, total: int)
    requires
        total <= usize::MAX,
    ensures
        grown(b, total).len() >= total,
        grown(b, total).len() >= b.len(),
        forall|k: int| 0 <= k < b.len() ==> grown(b, total)[k] == b[k],
{
}

/// An unsigned byte read back from its written slot is the value written.
pub proof fn lemma_u8_round_trip(b: Seq<u8>, at: int, v: u8)
    requires
        0 <= at,
        at + 1 <= b.len(),
    ensures
        splice(b, at, seq![v])[at] == v,
{
}

/// A boolean read back from its written flag byte is the value written.
pub proof fn lemma_bool_round_trip(b: Seq<u8>, at: int, v: bool)
    requires
        0 <= at,
        at + 1 <= b.len(),
    ensures
        (splice(b, at, enc_bool(v))[at] != 0) == v,
{
}

/// A 16-bit value read back from its written slot is the value written.
pub proof fn lemma_u16_round_trip(b: Seq<u8>, at: int, v: u16)
    requires
        0 <= at,
        at + 2 <= b.len(),
    ensures
        le16_at(splice(b, at, spec_u16_to_le_bytes(v)), at) == v,
{
    vstd::bytes::lemma_auto_spec_u16_to_from_le_bytes();
    crate::wire::lemma_splice_patch(b, at, spec_u16_to_le_bytes(v));
}

/// A 32-bit value read back from its written slot is the value written.
pub proof fn lemma_u32_round_trip(b: Seq<u8>, at: int, v: u32)
    requires
        0 <= at,
        at + 4 <= b.len(),
    ensures
        le32_at(splice(b, at, spec_u32_to_le_bytes(v)), at) == v,
{
    vstd::bytes::lemma_auto_spec_u32_to_from_le_bytes();
    crate::wire::lemma_splice_patch(b, at, spec_u32_to_le_bytes(v));
}

/// A 64-bit value read back from its written slot is the value written.
pub proof fn lemma_u64_round_trip(b: Seq<u8>, at: int, v: u64)
    requires
        0 <= at,
        at + 8 <= b.len(),
    ensures
        le64_at(splice(b, at, spec_u64_to_le_bytes(v)), at) == v,
{
    vstd::bytes::lemma_auto_spec_u64_to_from_le_bytes();
    crate::wire::lemma_splice_patch(b, at, spec_u64_to_le_bytes(v));
}

/// Casting a signed byte through its unsigned carrier is lossless.
pub proof fn lemma_i8_cast(v: i8)
    ensures
        (v as u8) as i8 == v,
{
    assert((v as u8) as i8 == v) by (bit_vector);
}

pub proof fn lemma_i16_cast(v: i16)
    ensures
        (v as u16) as i16 == v,
{
    assert((v as u16) as i16 == v) by (bit_vector);
}

pub proof fn lemma_i32_cast(v: i32)
    ensures
        (v as u32) as i32 == v,
{
    assert((v as u32) as i32 == v) by (bit_vector);
}

pub proof fn lemma_i64_cast(v: i64)
    ensures
        (v as u64) as i64 == v,
{
    assert((v as u64) as i64 == v) by (bit_vector);
}

/// A signed 8-bit value read back from its written slot is the value
/// written, including the extremes of the width.
pub proof fn lemma_i8_round_trip(b: Seq<u8>, at: int, v: i8)
    requires
        0 <= at,
        at + 1 <= b.len(),
    ensures
        splice(b, at, seq![v as u8])[at] as i8 == v,
{
    lemma_i8_cast(v);
}

pub proof fn lemma_i16_round_trip(b: Seq<u8>, at: int, v: i16)
    requires
        0 <= at,
        at + 2 <= b.len(),
    ensures
        le16_at(splice(b, at, spec_u16_to_le_bytes(v as u16)), at) as i16 == v,
{
    lemma_u16_round_trip(b, at, v as u16);
    lemma_i16_cast(v);
}

pub proof fn lemma_i32_round_trip(b: Seq<u8>, at: int, v: i32)
    requires
        0 <= at,
        at + 4 <= b.len(),
    ensures
        le32_at(splice(b, at, spec_u32_to_le_bytes(v as u32)), at) as i32 == v,
{
    lemma_u32_round_trip(b, at, v as u32);
    lemma_i32_cast(v);
}

pub proof fn lemma_i64_round_trip(b: Seq<u8>, at: int, v: i64)
    requires
        0 <= at,
        at + 8 <= b.len(),
    ensures
        le64_at(splice(b, at, spec_u64_to_le_bytes(v as u64)), at) as i64 == v,
{
    lemma_u64_round_trip(b, at, v as u64);
    lemma_i64_cast(v);
}

/// A written length-prefixed block reads back as its payload: bytes fields
/// and strings survive the trip.
pub proof fn lemma_block_round_trip(b: Seq<u8>, at: int, payload: Seq<u8>)
    requires
        0 <= at,
        at + 4 + payload.len() <= b.len(),
        payload.len() <= u32::MAX,
    ensures
        le32_at(splice(b, at, enc_block(payload)), at) == payload.len(),
        dec_block(splice(b, at, enc_block(payload)), at) == payload,
{
    vstd::bytes::lemma_auto_spec_u32_to_from_le_bytes();
    let w = splice(b, at, enc_block(payload));
    assert(w.subrange(at, at + 4) =~= spec_u32_to_le_bytes(payload.len() as u32));
    assert(dec_block(w, at) =~= payload);
}

/// A written string reads back as the same character sequence: the stored
/// bytes are its UTF-8 encoding, which is valid and decodes back to them.
pub proof fn lemma_string_round_trip(b: Seq<u8>, at: int, s: Seq<char>)
    requires
        0 <= at,
        at + 4 + vstd::utf8::encode_utf8(s).len() <= b.len(),
        vstd::utf8::encode_utf8(s).len() <= u32::MAX,
    ensures
        dec_block(splice(b, at, enc_block(vstd::utf8::encode_utf8(s))), at)
            == vstd::utf8::encode_utf8(s),
        vstd::utf8::valid_utf8(vstd::utf8::encode_utf8(s)),
        vstd::utf8::decode_utf8(vstd::utf8::encode_utf8(s)) == s,
{
    lemma_block_round_trip(b, at, vstd::utf8::encode_utf8(s));
    vstd::utf8::encode_utf8_valid_utf8(s);
    vstd::utf8::encode_utf8_decode_utf8(s);
}

/// A written 16-byte decimal reads back bit-exactly: the unscaled 96-bit
/// magnitude, the scale byte, and the sign flag.
pub proof fn lemma_decimal_round_trip(b: Seq<u8>, at: int, value: i128, scale: u8, negative: bool)
    requires
        0 <= at,
        at + 16 <= b.len(),
        0 <= value < 0x1000000000000000000000000,
    ensures
        dec_decimal_value(splice(b, at, enc_decimal(value, scale, negative)), at) == value,
        splice(b, at, enc_decimal(value, scale, negative))[at + 14] == scale,
        (splice(b, at, enc_decimal(value, scale, negative))[at + 15] & 0x80u8 != 0) == negative,
{
    vstd::bytes::lemma_auto_spec_u64_to_from_le_bytes();
    vstd::bytes::lemma_auto_spec_u32_to_from_le_bytes();
    let e = enc_decimal(value, scale, negative);
    let w = splice(b, at, e);
    assert(w.subrange(at, at + 8) =~= spec_u64_to_le_bytes(value as u64));
    assert(w.subrange(at + 8, at + 12) =~= spec_u32_to_le_bytes((value >> 64) as u32));
    assert((value as u64) as int + (((value >> 64) as u32) as int) * 0x10000000000000000 == value)
        by (bit_vector)
        requires
            0 <= value < 0x1000000000000000000000000,
    ;
    assert(w[at + 14] == scale);
    assert((0x80u8 & 0x80u8) != 0) by (bit_vector);
    assert((0x00u8 & 0x80u8) == 0) by (bit_vector);
}

/// A written i32 vector reads back as the same sequence, for every length.
pub proof fn lemma_vector_i32_round_trip(b: Seq<u8>, size: int, base: int, off: int, vs: Seq<i32>)
    requires
        0 <= base <= size <= b.len(),
        0 <= off,
        base + off + 4 <= size,
        size + 4 + 4 * vs.len() <= u32::MAX,
    ensures
        ({
            let w = splice(
                splice(
                    grown(b, size + 4 + 4 * vs.len()),
                    base + off,
                    spec_u32_to_le_bytes((size - base) as u32),
                ),
                size,
                enc_vector_i32(vs),
            );
            dec_vector_i32(w, base, off) == vs
        }),
{
    vstd::bytes::lemma_auto_spec_u32_to_from_le_bytes();
    crate::wire::lemma_enc_i32_elems_len(vs);
    lemma_grown(b, size + 4 + 4 * vs.len());
    let g = grown(b, size + 4 + 4 * vs.len());
    let x = splice(g, base + off, spec_u32_to_le_bytes((size - base) as u32));
    let w = splice(x, size, enc_vector_i32(vs));
    let p = size - base;
    assert(w.subrange(base + off, base + off + 4) =~= spec_u32_to_le_bytes(p as u32));
    assert(le32_at(w, base + off) == p as u32);
    assert(p != 0);
    assert(w.subrange(size, size + 4) =~= spec_u32_to_le_bytes(vs.len() as u32));
    assert(le32_at(w, base + p) == vs.len() as u32);
    assert forall|i: int| 0 <= i < vs.len() implies le32_at(w, base + p + 4 + 4 * i) as i32
        == vs[i] by {
        crate::wire::lemma_enc_i32_elems_index(vs, i);
        assert(w.subrange(size + 4 + 4 * i, size + 4 + 4 * i + 4) =~= enc_i32_elems(vs).subrange(
            4 * i,
            4 * i + 4,
        ));
        lemma_i32_cast(vs[i]);
    }
    assert(dec_vector_i32(w, base, off) =~= vs);
}

/// A written i32 map reads back as the same pair sequence, in order.
pub proof fn lemma_map_i32_round_trip(
    b: Seq<u8>,
    size: int,
    base: int,
    off: int,
    ps: Seq<(i32, i32)>,
)
    requires
        0 <= base <= size <= b.len(),
        0 <= off,
        base + off + 4 <= size,
        size + 4 + 8 * ps.len() <= u32::MAX,
    ensures
        ({
            let w = splice(
                splice(
                    grown(b, size + 4 + 8 * ps.len()),
                    base + off,
                    spec_u32_to_le_bytes((size - base) as u32),
                ),
                size,
                enc_map_i32(ps),
            );
            dec_map_i32(w, base, off) == ps
        }),
{
    vstd::bytes::lemma_auto_spec_u32_to_from_le_bytes();
    crate::wire::lemma_enc_i32_pairs_len(ps);
    lemma_grown(b, size + 4 + 8 * ps.len());
    let g = grown(b, size + 4 + 8 * ps.len());
    let x = splice(g, base + off, spec_u32_to_le_bytes((size - base) as u32));
    let w = splice(x, size, enc_map_i32(ps));
    let p = size - base;
    assert(w.subrange(base + off, base + off + 4) =~= spec_u32_to_le_bytes(p as u32));
    assert(le32_at(w, base + off) == p as u32);
    assert(p != 0);
    assert(w.subrange(size, size + 4) =~= spec_u32_to_le_bytes(ps.len() as u32));
    assert(le32_at(w, base + p) == ps.len() as u32);
    assert forall|i: int| 0 <= i < ps.len() implies (
    le32_at(w, base + p + 4 + 8 * i) as i32,
    le32_at(w, base + p + 4 + 8 * i + 4) as i32,
    ) == ps[i] by {
        crate::wire::lemma_enc_i32_pairs_index(ps, i);
        assert(w.subrange(size + 4 + 8 * i, size + 4 + 8 * i + 4) =~= enc_i32_pairs(ps).subrange(
            8 * i,
            8 * i + 4,
        ));
        assert(w.subrange(size + 4 + 8 * i + 4, size + 4 + 8 * i + 8) =~= enc_i32_pairs(
            ps,
        ).subrange(8 * i + 4, 8 * i + 8));
        lemma_i32_cast(ps[i].0);
        lemma_i32_cast(ps[i].1);
    }
    assert(dec_map_i32(w, base, off) =~= ps);
}

/// A written inline array reads back as the same sequence when read with its
/// exact declared count.
pub proof fn lemma_array_i32_round_trip(b: Seq<u8>, base: int, off: int, vs: Seq<i32>)
    requires
        0 <= base,
        0 <= off,
        base + off + 4 * vs.len() <= b.len(),
    ensures
        dec_array_i32(splice(b, base + off, enc_i32_elems(vs)), base, off, vs.len() as int) == vs,
{
    vstd::bytes::lemma_auto_spec_u32_to_from_le_bytes();
    crate::wire::lemma_enc_i32_elems_len(vs);
    let w = splice(b, base + off, enc_i32_elems(vs));
    assert forall|i: int| 0 <= i < vs.len() implies le32_at(w, base + off + 4 * i) as i32
        == vs[i] by {
        crate::wire::lemma_enc_i32_elems_index(vs, i);
        assert(w.subrange(base + off + 4 * i, base + off + 4 * i + 4) =~= enc_i32_elems(
            vs,
        ).subrange(4 * i, 4 * i + 4));
        lemma_i32_cast(vs[i]);
    }
    assert(dec_array_i32(w, base, off, vs.len() as int) =~= vs);
}

/// A written 16-byte UUID reads back as the same raw bytes.
pub proof fn lemma_uuid_round_trip(b: Seq<u8>, at: int, u: Seq<u8>)
    requires
        0 <= at,
        u.len() == 16,
        at + 16 <= b.len(),
    ensures
        splice(b, at, u).subrange(at, at + 16) == u,
{
    crate::wire::lemma_splice_patch(b, at, u);
}

/// A written string vector reads back as the same strings: the pointer leads
/// to the count, the blocks are well formed, and each block holds the UTF-8
/// bytes that were written.
pub proof fn lemma_vector_string_round_trip(
    b: Seq<u8>,
    size: int,
    base: int,
    off: int,
    vs: Seq<Seq<u8>>,
)
    requires
        0 <= base <= size <= b.len(),
        0 <= off,
        base + off + 4 <= size,
        size + crate::wire::enc_vector_string(vs).len() <= u32::MAX,
        forall|i: int| 0 <= i < vs.len() ==> (#[trigger] vs[i]).len() <= i32::MAX,
    ensures
        ({
            let w = splice(
                splice(
                    grown(b, size + crate::wire::enc_vector_string(vs).len()),
                    base + off,
                    spec_u32_to_le_bytes((size - base) as u32),
                ),
                size,
                crate::wire::enc_vector_string(vs),
            );
            let p = le32_at(w, base + off) as int;
            &&& p == size - base
            &&& p != 0
            &&& le32_at(w, base + p) == vs.len()
            &&& crate::wire::strings_wf(w, w.len() as int, base + p + 4, vs.len() as int)
            &&& crate::wire::dec_string_blocks(w, base + p + 4, vs.len() as int) =~~= vs
        }),
{
    vstd::bytes::lemma_auto_spec_u32_to_from_le_bytes();
    crate::wire::lemma_enc_string_elems_min_len(vs);
    let e = crate::wire::enc_vector_string(vs);
    lemma_grown(b, size + e.len());
    let g = grown(b, size + e.len());
    let x = splice(g, base + off, spec_u32_to_le_bytes((size - base) as u32));
    let w = splice(x, size, e);
    let p = size - base;
    assert(w.subrange(base + off, base + off + 4) =~= spec_u32_to_le_bytes(p as u32));
    assert(le32_at(w, base + off) == p as u32);
    assert(w.subrange(size, size + 4) =~= spec_u32_to_le_bytes(vs.len() as u32));
    assert(le32_at(w, base + p) == vs.len() as u32);
    assert(vs.subrange(0, vs.len() as int) =~= vs);
    assert(w.subrange(size + 4, size + 4 + crate::wire::enc_string_elems(vs).len()) =~=
        crate::wire::enc_string_elems(vs));
    lemma_string_blocks_in_place(w, size + 4, vs, 0);
    assert(crate::wire::dec_string_blocks(w, size + 4, vs.len() as int) =~~= vs);
}

/// String blocks written back to back starting at `j` decode one by one:
/// from index `i` on, the remaining blocks are well formed and hold the
/// remaining payloads.
proof fn lemma_string_blocks_in_place(w: Seq<u8>, j: int, vs: Seq<Seq<u8>>, i: int)
    requires
        0 <= i <= vs.len(),
        0 <= j,
        j + crate::wire::enc_string_elems(vs.subrange(i as int, vs.len() as int)).len() <= w.len(),
        w.subrange(j, j + crate::wire::enc_string_elems(
            vs.subrange(i as int, vs.len() as int),
        ).len()) == crate::wire::enc_string_elems(vs.subrange(i as int, vs.len() as int)),
        forall|k: int| 0 <= k < vs.len() ==> (#[trigger] vs[k]).len() <= i32::MAX,
    ensures
        crate::wire::strings_wf(w, w.len() as int, j, vs.len() - i),
        crate::wire::dec_string_blocks(w, j, vs.len() - i) =~~= vs.subrange(
            i as int,
            vs.len() as int,
        ),
    decreases vs.len() - i,
{
    vstd::bytes::lemma_auto_spec_u32_to_from_le_bytes();
    let rest = vs.subrange(i as int, vs.len() as int);
    if i == vs.len() {
        assert(crate::wire::dec_string_blocks(w, j, 0) =~~= rest);
    } else {
        let head = vs[i];
        let tail = vs.subrange(i + 1, vs.len() as int);
        assert(rest.drop_first() =~= tail);
        assert(rest[0] == head);
        lemma_enc_string_head(rest);
        let eh = enc_block(head);
        let et = crate::wire::enc_string_elems(tail);
        assert(crate::wire::enc_string_elems(rest) == eh + et);
        let hl = head.len() as int;
        let total = eh.len() + et.len();
        assert(w.subrange(j, j + total) == eh + et);
        assert(w.subrange(j, j + 4) =~= (eh + et).subrange(0, 4));
        assert((eh + et).subrange(0, 4) =~= spec_u32_to_le_bytes(head.len() as u32));
        assert(le32_at(w, j) == head.len());
        assert(dec_block(w, j) =~= (eh + et).subrange(4, 4 + hl));
        assert((eh + et).subrange(4, 4 + hl) =~= head);
        assert(w.subrange(j + 4 + hl, j + total) =~= (eh + et).subrange(4 + hl, total as int));
        assert((eh + et).subrange(4 + hl, total as int) =~= et);
        lemma_string_blocks_in_place(w, j + 4 + hl, vs, i + 1);
        assert(crate::wire::dec_string_blocks(w, j + 4 + hl, vs.len() - (i + 1)) =~~= tail);
        assert(crate::wire::dec_string_blocks(w, j, vs.len() - i) =~~= seq![dec_block(w, j)]
            + crate::wire::dec_string_blocks(w, j + 4 + hl, vs.len() - i - 1));
        assert(crate::wire::dec_string_blocks(w, j, vs.len() - i) =~~= rest);
    }
}

/// The element bytes of a nonempty string run start with the first block.
proof fn lemma_enc_string_head(vs: Seq<Seq<u8>>)
    requires
        vs.len() > 0,
    ensures
        crate::wire::enc_string_elems(vs) == enc_block(vs[0]) + crate::wire::enc_string_elems(
            vs.drop_first(),
        ),
    decreases vs.len(),
{
    if vs.len() == 1 {
        assert(vs.drop_last() =~= Seq::<Seq<u8>>::empty());
        assert(vs.drop_first() =~= Seq::<Seq<u8>>::empty());
        assert(vs.last() == vs[0]);
        assert(crate::wire::enc_string_elems(vs) =~= enc_block(vs[0])
            + crate::wire::enc_string_elems(vs.drop_first()));
    } else {
        lemma_enc_string_head(vs.drop_last());
        assert(vs.drop_last()[0] == vs[0]);
        assert(vs.drop_last().drop_first() =~= vs.drop_first().drop_last());
        crate::wire::lemma_enc_string_elems_push(
            vs.drop_first().drop_last(),
            vs.drop_first().last(),
        );
        assert(vs.drop_first().drop_last().push(vs.drop_first().last()) =~= vs.drop_first());
        assert(vs.drop_first().last() == vs.last());
        assert(crate::wire::enc_string_elems(vs) =~= enc_block(vs[0])
            + crate::wire::enc_string_elems(vs.drop_first()));
    }
}

/// Optional cost: an absent optional occupies exactly one byte in both
/// layers; a present value in the inline (final) layer occupies one byte
/// plus its payload; a present value in the pointer layer occupies five
/// bytes at the field plus the payload appended elsewhere.
pub proof fn lemma_optional_cost(b: Seq<u8>, at: int, v: u32, payload: Seq<u8>)
    requires
        0 <= at,
        at + 1 <= b.len(),
    ensures
        enc_bool(false).len() == 1,
        splice(b, at, enc_bool(false)).len() == b.len(),
        forall|k: int| 0 <= k < b.len() && k != at ==> splice(b, at, enc_bool(false))[k] == b[k],
        (enc_bool(true) + payload).len() == 1 + payload.len(),
        (enc_bool(true) + spec_u32_to_le_bytes(v)).len() == 1 + 4,
{
    vstd::bytes::lemma_auto_spec_u32_to_from_le_bytes();
}

/// An optional i32 written in the inline (final) layout reads back as the
/// value written.
pub proof fn lemma_optional_i32_final_round_trip(b: Seq<u8>, base: int, off: int, v: Option<i32>)
    requires
        0 <= base,
        0 <= off,
        v.is_none() ==> base + off + 1 <= b.len(),
        v.is_some() ==> base + off + 5 <= b.len(),
    ensures
        v.is_none() ==> crate::wire::dec_optional_i32_final(
            splice(b, base + off, enc_bool(false)),
            base,
            off,
        ) == v,
        v.is_some() ==> crate::wire::dec_optional_i32_final(
            splice(b, base + off, enc_bool(true) + spec_u32_to_le_bytes(v.unwrap() as u32)),
            base,
            off,
        ) == v,
{
    vstd::bytes::lemma_auto_spec_u32_to_from_le_bytes();
    if v.is_some() {
        let w = splice(b, base + off, enc_bool(true) + spec_u32_to_le_bytes(v.unwrap() as u32));
        assert(w[base + off] == 1);
        assert(w.subrange(base + off + 1, base + off + 5) =~= spec_u32_to_le_bytes(
            v.unwrap() as u32,
        ));
        lemma_i32_cast(v.unwrap());
    }
}

} // verus!
