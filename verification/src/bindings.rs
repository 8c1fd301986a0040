//! Sample generated bindings: the enums travel as their integer
//! discriminants, and decoding maps the integer back to a variant through
//! an explicit match with a defined fallback — never by reinterpreting the
//! bit pattern.

use vstd::prelude::*;
use vstd::bytes::spec_u32_to_le_bytes;
use vstd::string::StringSliceAdditionalSpecFns;
use crate::buffer::{ReadBuffer, WriteBuffer, lossy_decode};
use crate::wire::{enc_block, le32_at, dec_block};

verus! {

/// A buy-or-sell side, one byte on the wire.
#[derive(Debug, Clone, Copy, PartialEq, Eq, Structural)]
pub enum Side {
    Buy,
    Sell,
}

/// The wire discriminant of a side.
pub open spec fn side_code(s: Side) -> i8 {
    match s {
        Side::Buy => 0,
        Side::Sell => 1,
    }
}

/// The side a wire discriminant decodes to: an unknown discriminant falls
/// back to the default variant.
pub open spec fn side_of(v: i8) -> Side {
    if v == 1 {
        Side::Sell
    } else {
        Side::Buy
    }
}

impl Side {
    /// The variant's wire discriminant.
    pub fn to_i8(self) -> (r: i8)
        ensures
            r == side_code(self),
    {
        match self {
            Side::Buy => 0,
            Side::Sell => 1,
        }
    }

    /// Decode a wire discriminant: 1 is sell, everything else falls back to
    /// buy, the default variant.
    pub fn from_i8(v: i8) -> (r: Side)
        ensures
            r == side_of(v),
    {
        match v {
            1 => Side::Sell,
            _ => Side::Buy,
        }
    }
}

impl Default for Side {
    fn default() -> (r: Self)
        ensures
            r == Side::Buy,
    {
        Side::Buy
    }
}

/// An order side, one byte on the wire.
#[derive(Debug, Clone, Copy, PartialEq, Eq, Structural)]
pub enum OrderSide {
    Buy,
    Sell,
}

pub open spec fn order_side_code(s: OrderSide) -> i8 {
    match s {
        OrderSide::Buy => 0,
        OrderSide::Sell => 1,
    }
}

pub open spec fn order_side_of(v: i8) -> OrderSide {
    if v == 1 {
        OrderSide::Sell
    } else {
        OrderSide::Buy
    }
}

impl OrderSide {
    /// The variant's wire discriminant.
    pub fn to_i8(self) -> (r: i8)
        ensures
            r == order_side_code(self),
    {
        match self {
            OrderSide::Buy => 0,
            OrderSide::Sell => 1,
        }
    }

    /// Decode a wire discriminant with the default variant as fallback.
    pub fn from_i8(v: i8) -> (r: OrderSide)
        ensures
            r == order_side_of(v),
    {
        match v {
            1 => OrderSide::Sell,
            _ => OrderSide::Buy,
        }
    }
}

/// An order type, one byte on the wire.
#[derive(Debug, Clone, Copy, PartialEq, Eq, Structural)]
pub enum OrderType {
    Market,
    Limit,
    Stop,
}

pub open spec fn order_type_code(t: OrderType) -> i8 {
    match t {
        OrderType::Market => 0,
        OrderType::Limit => 1,
        OrderType::Stop => 2,
    }
}

pub open spec fn order_type_of(v: i8) -> OrderType {
    if v == 1 {
        OrderType::Limit
    } else if v == 2 {
        OrderType::Stop
    } else {
        OrderType::Market
    }
}

impl OrderType {
    /// The variant's wire discriminant.
    pub fn to_i8(self) -> (r: i8)
        ensures
            r == order_type_code(self),
    {
        match self {
            OrderType::Market => 0,
            OrderType::Limit => 1,
            OrderType::Stop => 2,
        }
    }

    /// Decode a wire discriminant with the default variant as fallback.
    pub fn from_i8(v: i8) -> (r: OrderType)
        ensures
            r == order_type_of(v),
    {
        match v {
            1 => OrderType::Limit,
            2 => OrderType::Stop,
            _ => OrderType::Market,
        }
    }
}

/// A sample user record: id, length-prefixed name, and a one-byte side.
#[derive(Debug)]
pub struct User {
    pub id: i32,
    pub name: String,
    pub side: Side,
}

/// The wire bytes of a user.
pub open spec fn user_bytes(id: i32, name: Seq<char>, side: Side) -> Seq<u8> {
    spec_u32_to_le_bytes(id as u32) + enc_block(vstd::utf8::encode_utf8(name)) + seq![
        side_code(side) as u8,
    ]
}

impl User {
    pub open spec fn wf(&self) -> bool {
        vstd::utf8::encode_utf8(self.name@).len() <= i32::MAX
    }

    pub fn new(id: i32, name: String, side: Side) -> (r: Self)
        ensures
            r.id == id,
            r.name == name,
            r.side == side,
    {
        Self { id, name, side }
    }

    /// Serialize into a fresh buffer: allocate the exact span, then write
    /// the fields in order.
    pub fn serialize(&self, buffer: &mut WriteBuffer) -> (r: usize)
        requires
            self.wf(),
            old(buffer).spec_offset() == 0,
            old(buffer).spec_size() == 0,
            9 + vstd::utf8::encode_utf8(self.name@).len() <= usize::MAX,
        ensures
            r == user_bytes(self.id, self.name@, self.side).len(),
            final(buffer).data_bytes() == user_bytes(self.id, self.name@, self.side),
            final(buffer).spec_size() == r,
            final(buffer).spec_offset() == 0,
            final(buffer).wf(),
    {
        proof {
            vstd::bytes::lemma_auto_spec_u32_to_from_le_bytes();
        }
        let total_size = 4 + 4 + self.name.as_str().len() + 1;
        buffer.allocate(total_size);
        let cap = buffer.capacity();
        let mut offset: usize = 0;
        buffer.write_i32(offset, self.id);
        offset = offset + 4;
        buffer.write_string(offset, self.name.as_str());
        offset = offset + 4 + self.name.as_str().len();
        buffer.write_i8(offset, self.side.to_i8());
        offset = offset + 1;
        proof {
            assert(final(buffer).data_bytes() =~= user_bytes(self.id, self.name@, self.side));
        }
        offset
    }

    /// Deserialize: the id, the name, and the side decoded through the
    /// explicit discriminant match.
    pub fn deserialize(buffer: &ReadBuffer) -> (r: Self)
        requires
            buffer.wf(),
            buffer.spec_offset() == 0,
            8 <= buffer.spec_size(),
            le32_at(buffer.bytes(), 4) <= i32::MAX,
            9 + le32_at(buffer.bytes(), 4) <= buffer.spec_size(),
        ensures
            r.id == le32_at(buffer.bytes(), 0) as i32,
            r.name@ == lossy_decode(dec_block(buffer.bytes(), 4)),
            r.side == side_of(buffer.bytes()[8 + le32_at(buffer.bytes(), 4)] as i8),
            vstd::utf8::valid_utf8(dec_block(buffer.bytes(), 4)) ==> r.name@
                == vstd::utf8::decode_utf8(dec_block(buffer.bytes(), 4)),
    {
        let sz = buffer.size();
        let mut offset: usize = 0;
        let id = buffer.read_i32(offset);
        offset = offset + 4;
        let name_len = buffer.read_u32(offset) as usize;
        let name = buffer.read_string(offset);
        offset = offset + 4 + name_len;
        let side = Side::from_i8(buffer.read_i8(offset));
        Self { id, name, side }
    }
}

impl Clone for User {
    fn clone(&self) -> (r: Self)
        ensures
            r.id == self.id,
            r.name@ == self.name@,
            r.side == self.side,
    {
        Self { id: self.id, name: self.name.clone(), side: self.side }
    }
}

impl PartialEq for User {
    fn eq(&self, other: &Self) -> (r: bool) {
        self.id == other.id && self.name == other.name && self.side == other.side
    }
}

impl vstd::std_specs::cmp::PartialEqSpecImpl for User {
    open spec fn obeys_eq_spec() -> bool {
        true
    }

    open spec fn eq_spec(&self, other: &Self) -> bool {
        self.id == other.id && self.name@ == other.name@ && self.side == other.side
    }
}

impl Eq for User {

}

} // verus!
