//! The two struct framings, side by side: the headered "model" framing (a
//! 4-byte total-size prefix for streaming) and the bare "final" framing.
//! Whatever the framing, the field bytes are identical — the law
//! `lemma_model_final_sizes` states it for every value.

use vstd::prelude::*;
use vstd::bytes::{spec_u32_to_le_bytes, spec_u64_to_le_bytes};
use vstd::string::StringSliceAdditionalSpecFns;
use crate::buffer::{ReadBuffer, WriteBuffer, lossy_decode};
use crate::wire::{splice, enc_block, le32_at, le64_at, dec_block};

verus! {

/// A sample product record; its price travels as the IEEE-754 bit pattern of
/// a 64-bit float, held here as the raw bits.
#[derive(Debug)]
pub struct Product {
    pub id: i32,
    pub name: String,
    pub price_bits: u64,
    pub quantity: i32,
}

/// The inline field bytes of a product: id, length-prefixed name, price
/// bits, quantity.
pub open spec fn product_final_bytes(id: i32, name: Seq<char>, price_bits: u64, quantity: i32) -> Seq<u8> {
    spec_u32_to_le_bytes(id as u32) + enc_block(vstd::utf8::encode_utf8(name))
        + spec_u64_to_le_bytes(price_bits) + spec_u32_to_le_bytes(quantity as u32)
}

/// The headered framing: a 4-byte total size, then the same field bytes.
pub open spec fn product_model_bytes(id: i32, name: Seq<char>, price_bits: u64, quantity: i32) -> Seq<u8> {
    spec_u32_to_le_bytes(
        (4 + product_final_bytes(id, name, price_bits, quantity).len()) as u32,
    ) + product_final_bytes(id, name, price_bits, quantity)
}

impl Product {
    /// The inline field bytes of this value.
    pub open spec fn final_bytes(&self) -> Seq<u8> {
        product_final_bytes(self.id, self.name@, self.price_bits, self.quantity)
    }

    /// The headered bytes of this value.
    pub open spec fn model_bytes(&self) -> Seq<u8> {
        product_model_bytes(self.id, self.name@, self.price_bits, self.quantity)
    }

    /// The name's UTF-8 length fits the wire format's 32-bit frame.
    pub open spec fn wf(&self) -> bool {
        vstd::utf8::encode_utf8(self.name@).len() <= i32::MAX
    }

    pub fn new(id: i32, name: String, price_bits: u64, quantity: i32) -> (r: Self)
        ensures
            r.id == id,
            r.name == name,
            r.price_bits == price_bits,
            r.quantity == quantity,
    {
        Self { id, name, price_bits, quantity }
    }

    /// Calculate struct size (without header)
    fn struct_size(&self) -> (r: usize)
        requires
            self.wf(),
        ensures
            r == self.final_bytes().len(),
            r == 20 + vstd::utf8::encode_utf8(self.name@).len(),
    {
        proof {
            vstd::bytes::lemma_auto_spec_u32_to_from_le_bytes();
            vstd::bytes::lemma_auto_spec_u64_to_from_le_bytes();
        }
        4 + 4 + self.name.as_str().len() + 8 + 4
    }

    /// Serialize struct data (without header) at the given offset
    fn serialize_struct(&self, buffer: &mut WriteBuffer, offset: usize) -> (r: usize)
        requires
            self.wf(),
            old(buffer).spec_offset() == 0,
            offset + 20 + vstd::utf8::encode_utf8(self.name@).len() <= old(buffer).bytes().len(),
        ensures
            final(buffer).bytes() == splice(old(buffer).bytes(), offset as int, self.final_bytes()),
            final(buffer).spec_size() == old(buffer).spec_size(),
            final(buffer).spec_offset() == 0,
            r == offset + self.final_bytes().len(),
    {
        proof {
            vstd::bytes::lemma_auto_spec_u32_to_from_le_bytes();
            vstd::bytes::lemma_auto_spec_u64_to_from_le_bytes();
        }
        let cap = buffer.capacity();
        let mut off = offset;
        buffer.write_i32(off, self.id);
        off = off + 4;
        buffer.write_string(off, self.name.as_str());
        off = off + 4 + self.name.as_str().len();
        buffer.write_u64(off, self.price_bits);
        off = off + 8;
        buffer.write_i32(off, self.quantity);
        off = off + 4;
        proof {
            assert(final(buffer).bytes() =~= splice(
                old(buffer).bytes(),
                offset as int,
                self.final_bytes(),
            ));
        }
        off
    }

    /// Deserialize struct data (without header) from the given offset
    fn deserialize_struct(buffer: &ReadBuffer, offset: usize) -> (r: Self)
        requires
            buffer.wf(),
            buffer.spec_offset() == 0,
            offset + 8 <= buffer.spec_size(),
            le32_at(buffer.bytes(), offset + 4) <= i32::MAX,
            offset + 20 + le32_at(buffer.bytes(), offset + 4) <= buffer.spec_size(),
        ensures
            r.id == le32_at(buffer.bytes(), offset as int) as i32,
            r.name@ == lossy_decode(dec_block(buffer.bytes(), offset + 4)),
            r.price_bits == le64_at(
                buffer.bytes(),
                offset + 8 + le32_at(buffer.bytes(), offset + 4),
            ),
            r.quantity == le32_at(
                buffer.bytes(),
                offset + 16 + le32_at(buffer.bytes(), offset + 4),
            ) as i32,
            vstd::utf8::valid_utf8(dec_block(buffer.bytes(), offset + 4)) ==> r.name@
                == vstd::utf8::decode_utf8(dec_block(buffer.bytes(), offset + 4)),
    {
        let sz = buffer.size();
        let mut off = offset;
        let id = buffer.read_i32(off);
        off = off + 4;
        let name_len = buffer.read_u32(off) as usize;
        let name = buffer.read_string(off);
        off = off + 4 + name_len;
        let price_bits = buffer.read_u64(off);
        off = off + 8;
        let quantity = buffer.read_i32(off);
        Self { id, name, price_bits, quantity }
    }

    /// Serialize with the headered framing: a 4-byte total size, then the
    /// field bytes
    pub fn serialize_model(&self, buffer: &mut WriteBuffer) -> (r: usize)
        requires
            self.wf(),
            old(buffer).spec_offset() == 0,
            24 + vstd::utf8::encode_utf8(self.name@).len() <= u32::MAX,
        ensures
            r == self.model_bytes().len(),
            final(buffer).data_bytes() == self.model_bytes(),
            final(buffer).spec_size() == r,
            final(buffer).spec_offset() == 0,
            final(buffer).wf(),
    {
        proof {
            vstd::bytes::lemma_auto_spec_u32_to_from_le_bytes();
            vstd::bytes::lemma_auto_spec_u64_to_from_le_bytes();
        }
        let struct_size = self.struct_size();
        let total_size = 4 + struct_size;
        buffer.reserve(total_size);
        buffer.write_u32(0, total_size as u32);
        self.serialize_struct(buffer, 4);
        buffer.set_size(total_size);
        proof {
            assert(final(buffer).data_bytes() =~= self.model_bytes());
        }
        total_size
    }

    /// Deserialize from the headered framing; returns the value and the
    /// total size the header states
    pub fn deserialize_model(buffer: &ReadBuffer) -> (r: (Self, usize))
        requires
            buffer.wf(),
            buffer.spec_offset() == 0,
            12 <= buffer.spec_size(),
            le32_at(buffer.bytes(), 0) <= u32::MAX,
            le32_at(buffer.bytes(), 8) <= i32::MAX,
            24 + le32_at(buffer.bytes(), 8) <= buffer.spec_size(),
        ensures
            r.0.id == le32_at(buffer.bytes(), 4) as i32,
            r.0.name@ == lossy_decode(dec_block(buffer.bytes(), 8)),
            r.0.price_bits == le64_at(buffer.bytes(), 12 + le32_at(buffer.bytes(), 8)),
            r.0.quantity == le32_at(buffer.bytes(), 20 + le32_at(buffer.bytes(), 8)) as i32,
            r.1 == le32_at(buffer.bytes(), 0),
            vstd::utf8::valid_utf8(dec_block(buffer.bytes(), 8)) ==> r.0.name@
                == vstd::utf8::decode_utf8(dec_block(buffer.bytes(), 8)),
    {
        let total_size = buffer.read_u32(0) as usize;
        let product = Self::deserialize_struct(buffer, 4);
        (product, total_size)
    }

    /// Serialize with the inline (final) framing: the field bytes alone, no
    /// header
    pub fn serialize_final(&self, buffer: &mut WriteBuffer) -> (r: usize)
        requires
            self.wf(),
            old(buffer).spec_offset() == 0,
            20 + vstd::utf8::encode_utf8(self.name@).len() <= u32::MAX,
        ensures
            r == self.final_bytes().len(),
            final(buffer).data_bytes() == self.final_bytes(),
            final(buffer).spec_size() == r,
            final(buffer).spec_offset() == 0,
            final(buffer).wf(),
    {
        proof {
            vstd::bytes::lemma_auto_spec_u32_to_from_le_bytes();
            vstd::bytes::lemma_auto_spec_u64_to_from_le_bytes();
        }
        let struct_size = self.struct_size();
        buffer.reserve(struct_size);
        let end = self.serialize_struct(buffer, 0);
        buffer.set_size(end);
        proof {
            assert(final(buffer).data_bytes() =~= self.final_bytes());
        }
        end
    }

    /// Deserialize from the inline (final) framing; returns the value and
    /// the bytes consumed
    pub fn deserialize_final(buffer: &ReadBuffer) -> (r: (Self, usize))
        requires
            buffer.wf(),
            buffer.spec_offset() == 0,
            8 <= buffer.spec_size(),
            le32_at(buffer.bytes(), 4) <= i32::MAX,
            20 + le32_at(buffer.bytes(), 4) <= buffer.spec_size(),
        ensures
            r.0.id == le32_at(buffer.bytes(), 0) as i32,
            r.0.name@ == lossy_decode(dec_block(buffer.bytes(), 4)),
            r.0.price_bits == le64_at(buffer.bytes(), 8 + le32_at(buffer.bytes(), 4)),
            r.0.quantity == le32_at(buffer.bytes(), 16 + le32_at(buffer.bytes(), 4)) as i32,
            r.1 == buffer.bytes().len(),
            vstd::utf8::valid_utf8(dec_block(buffer.bytes(), 4)) ==> r.0.name@
                == vstd::utf8::decode_utf8(dec_block(buffer.bytes(), 4)),
    {
        let product = Self::deserialize_struct(buffer, 0);
        let size = buffer.data().len();
        (product, size)
    }
}

impl Clone for Product {
    fn clone(&self) -> (r: Self)
        ensures
            r.id == self.id,
            r.name@ == self.name@,
            r.price_bits == self.price_bits,
            r.quantity == self.quantity,
    {
        Self {
            id: self.id,
            name: self.name.clone(),
            price_bits: self.price_bits,
            quantity: self.quantity,
        }
    }
}

impl Default for Product {
    fn default() -> (r: Self)
        ensures
            r.id == 0,
            r.name@ == Seq::<char>::empty(),
            r.price_bits == 0,
            r.quantity == 0,
    {
        Self { id: 0, name: String::new(), price_bits: 0, quantity: 0 }
    }
}

/// The framing law: for any struct value, the headered encoding is exactly
/// four bytes longer than the inline encoding, and past the header the two
/// are byte-identical.
pub proof fn lemma_model_final_sizes(id: i32, name: Seq<char>, price_bits: u64, quantity: i32)
    ensures
        product_model_bytes(id, name, price_bits, quantity).len() == product_final_bytes(
            id,
            name,
            price_bits,
            quantity,
        ).len() + 4,
        product_model_bytes(id, name, price_bits, quantity).subrange(
            4,
            product_model_bytes(id, name, price_bits, quantity).len() as int,
        ) == product_final_bytes(id, name, price_bits, quantity),
{
    vstd::bytes::lemma_auto_spec_u32_to_from_le_bytes();
    vstd::bytes::lemma_auto_spec_u64_to_from_le_bytes();
    assert(product_model_bytes(id, name, price_bits, quantity).subrange(
        4,
        product_model_bytes(id, name, price_bits, quantity).len() as int,
    ) =~= product_final_bytes(id, name, price_bits, quantity));
}

/// Cross-run stability: two values that agree field by field serialize to
/// byte-identical output, in both framings, whatever buffers they are
/// written into.
pub proof fn lemma_cross_run_stability(a: Product, b: Product)
    requires
        a.id == b.id,
        a.name@ == b.name@,
        a.price_bits == b.price_bits,
        a.quantity == b.quantity,
    ensures
        a.model_bytes() == b.model_bytes(),
        a.final_bytes() == b.final_bytes(),
{
}

/// Round trip through the headered framing: the fields decoded from a
/// value's encoding are the fields of the value.
pub proof fn lemma_product_round_trip(id: i32, name: Seq<char>, price_bits: u64, quantity: i32)
    requires
        24 + vstd::utf8::encode_utf8(name).len() <= u32::MAX,
    ensures
        ({
            let b = product_model_bytes(id, name, price_bits, quantity);
            let nl = vstd::utf8::encode_utf8(name).len() as int;
            &&& le32_at(b, 0) == b.len()
            &&& le32_at(b, 4) as i32 == id
            &&& dec_block(b, 8) == vstd::utf8::encode_utf8(name)
            &&& vstd::utf8::decode_utf8(dec_block(b, 8)) == name
            &&& vstd::utf8::valid_utf8(dec_block(b, 8))
            &&& le64_at(b, 12 + nl) == price_bits
            &&& le32_at(b, 20 + nl) as i32 == quantity
        }),
{
    vstd::bytes::lemma_auto_spec_u32_to_from_le_bytes();
    vstd::bytes::lemma_auto_spec_u64_to_from_le_bytes();
    let b = product_model_bytes(id, name, price_bits, quantity);
    let nb = vstd::utf8::encode_utf8(name);
    let nl = nb.len() as int;
    assert(b.subrange(0, 4) =~= spec_u32_to_le_bytes(b.len() as u32));
    assert(b.subrange(4, 8) =~= spec_u32_to_le_bytes(id as u32));
    crate::laws::lemma_i32_cast(id);
    assert(b.subrange(8, 12) =~= spec_u32_to_le_bytes(nb.len() as u32));
    assert(dec_block(b, 8) =~= nb);
    vstd::utf8::encode_utf8_valid_utf8(name);
    vstd::utf8::encode_utf8_decode_utf8(name);
    assert(b.subrange(12 + nl, 20 + nl) =~= spec_u64_to_le_bytes(price_bits));
    assert(b.subrange(20 + nl, 24 + nl) =~= spec_u32_to_le_bytes(quantity as u32));
    crate::laws::lemma_i32_cast(quantity);
}

} // verus!
