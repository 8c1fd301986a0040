//! Struct keys: records whose equality and hashing go by their key fields
//! alone, as a schema's key annotations prescribe. Prices and amounts travel
//! as IEEE-754 bit patterns, held here as the raw bits.

use vstd::prelude::*;
use vstd::bytes::{spec_u32_to_le_bytes, spec_u64_to_le_bytes};
use vstd::string::StringSliceAdditionalSpecFns;
use std::hash::{Hash, Hasher};
use crate::buffer::{ReadBuffer, WriteBuffer, lossy_decode};
use crate::wire::{enc_block, le32_at, le64_at, dec_block};

verus! {

/// A record with a single integer key field.
#[derive(Debug)]
pub struct Order {
    pub id: i32,
    pub symbol: String,
    pub price_bits: u64,
}

/// The wire bytes of an order: id, length-prefixed symbol, price bits.
pub open spec fn order_bytes(id: i32, symbol: Seq<char>, price_bits: u64) -> Seq<u8> {
    spec_u32_to_le_bytes(id as u32) + enc_block(vstd::utf8::encode_utf8(symbol))
        + spec_u64_to_le_bytes(price_bits)
}

impl Order {
    pub open spec fn wf(&self) -> bool {
        vstd::utf8::encode_utf8(self.symbol@).len() <= i32::MAX
    }

    pub fn new(id: i32, symbol: String, price_bits: u64) -> (r: Self)
        ensures
            r.id == id,
            r.symbol == symbol,
            r.price_bits == price_bits,
    {
        Self { id, symbol, price_bits }
    }

    /// The key field: the id alone.
    pub fn key(&self) -> (r: i32)
        ensures
            r == self.id,
    {
        self.id
    }

    pub fn serialize(&self, buffer: &mut WriteBuffer) -> (r: usize)
        requires
            self.wf(),
            old(buffer).spec_offset() == 0,
            16 + vstd::utf8::encode_utf8(self.symbol@).len() <= old(buffer).bytes().len(),
        ensures
            r == order_bytes(self.id, self.symbol@, self.price_bits).len(),
            final(buffer).data_bytes() == order_bytes(self.id, self.symbol@, self.price_bits),
            final(buffer).spec_size() == r,
            final(buffer).spec_offset() == 0,
            final(buffer).wf(),
    {
        proof {
            vstd::bytes::lemma_auto_spec_u32_to_from_le_bytes();
            vstd::bytes::lemma_auto_spec_u64_to_from_le_bytes();
        }
        let cap = buffer.capacity();
        let mut offset: usize = 0;
        buffer.write_i32(offset, self.id);
        offset = offset + 4;
        buffer.write_string(offset, self.symbol.as_str());
        offset = offset + 4 + self.symbol.as_str().len();
        buffer.write_u64(offset, self.price_bits);
        offset = offset + 8;
        buffer.set_size(offset);
        proof {
            assert(final(buffer).data_bytes() =~= order_bytes(
                self.id,
                self.symbol@,
                self.price_bits,
            ));
        }
        offset
    }

    pub fn deserialize(buffer: &ReadBuffer) -> (r: Self)
        requires
            buffer.wf(),
            buffer.spec_offset() == 0,
            8 <= buffer.spec_size(),
            le32_at(buffer.bytes(), 4) <= i32::MAX,
            16 + le32_at(buffer.bytes(), 4) <= buffer.spec_size(),
        ensures
            r.id == le32_at(buffer.bytes(), 0) as i32,
            r.symbol@ == lossy_decode(dec_block(buffer.bytes(), 4)),
            r.price_bits == le64_at(buffer.bytes(), 8 + le32_at(buffer.bytes(), 4)),
            vstd::utf8::valid_utf8(dec_block(buffer.bytes(), 4)) ==> r.symbol@
                == vstd::utf8::decode_utf8(dec_block(buffer.bytes(), 4)),
    {
        let sz = buffer.size();
        let mut offset: usize = 0;
        let id = buffer.read_i32(offset);
        offset = offset + 4;
        let symbol_len = buffer.read_u32(offset) as usize;
        let symbol = buffer.read_string(offset);
        offset = offset + 4 + symbol_len;
        let price_bits = buffer.read_u64(offset);
        Self { id, symbol, price_bits }
    }
}

impl Clone for Order {
    fn clone(&self) -> (r: Self)
        ensures
            r.id == self.id,
            r.symbol@ == self.symbol@,
            r.price_bits == self.price_bits,
    {
        Self { id: self.id, symbol: self.symbol.clone(), price_bits: self.price_bits }
    }
}

impl PartialEq for Order {
    /// Equality goes by the key field alone.
    fn eq(&self, other: &Self) -> (r: bool) {
        self.id == other.id
    }
}

impl vstd::std_specs::cmp::PartialEqSpecImpl for Order {
    open spec fn obeys_eq_spec() -> bool {
        true
    }

    open spec fn eq_spec(&self, other: &Self) -> bool {
        self.id == other.id
    }
}

impl Eq for Order {

}

impl Hash for Order {
    /// Relies on `Hash::hash` for i32: hashing goes by the key field alone,
    /// matching the key-based equality.
    #[verifier::external_body]
    fn hash<H: Hasher>(&self, state: &mut H) {
        self.id.hash(state);
    }
}

/// A record with a single string key field.
#[derive(Debug)]
pub struct Balance {
    pub currency: String,
    pub amount_bits: u64,
}

/// The wire bytes of a balance: length-prefixed currency, amount bits.
pub open spec fn balance_bytes(currency: Seq<char>, amount_bits: u64) -> Seq<u8> {
    enc_block(vstd::utf8::encode_utf8(currency)) + spec_u64_to_le_bytes(amount_bits)
}

impl Balance {
    pub open spec fn wf(&self) -> bool {
        vstd::utf8::encode_utf8(self.currency@).len() <= i32::MAX
    }

    pub fn new(currency: String, amount_bits: u64) -> (r: Self)
        ensures
            r.currency == currency,
            r.amount_bits == amount_bits,
    {
        Self { currency, amount_bits }
    }

    /// The key field: the currency alone.
    pub fn key(&self) -> (r: &str)
        ensures
            r@ == self.currency@,
    {
        self.currency.as_str()
    }

    pub fn serialize(&self, buffer: &mut WriteBuffer) -> (r: usize)
        requires
            self.wf(),
            old(buffer).spec_offset() == 0,
            12 + vstd::utf8::encode_utf8(self.currency@).len() <= old(buffer).bytes().len(),
        ensures
            r == balance_bytes(self.currency@, self.amount_bits).len(),
            final(buffer).data_bytes() == balance_bytes(self.currency@, self.amount_bits),
            final(buffer).spec_size() == r,
            final(buffer).spec_offset() == 0,
            final(buffer).wf(),
    {
        proof {
            vstd::bytes::lemma_auto_spec_u32_to_from_le_bytes();
            vstd::bytes::lemma_auto_spec_u64_to_from_le_bytes();
        }
        let cap = buffer.capacity();
        let mut offset: usize = 0;
        buffer.write_string(offset, self.currency.as_str());
        offset = offset + 4 + self.currency.as_str().len();
        buffer.write_u64(offset, self.amount_bits);
        offset = offset + 8;
        buffer.set_size(offset);
        proof {
            assert(final(buffer).data_bytes() =~= balance_bytes(self.currency@, self.amount_bits));
        }
        offset
    }

    pub fn deserialize(buffer: &ReadBuffer) -> (r: Self)
        requires
            buffer.wf(),
            buffer.spec_offset() == 0,
            4 <= buffer.spec_size(),
            le32_at(buffer.bytes(), 0) <= i32::MAX,
            12 + le32_at(buffer.bytes(), 0) <= buffer.spec_size(),
        ensures
            r.currency@ == lossy_decode(dec_block(buffer.bytes(), 0)),
            r.amount_bits == le64_at(buffer.bytes(), 4 + le32_at(buffer.bytes(), 0)),
            vstd::utf8::valid_utf8(dec_block(buffer.bytes(), 0)) ==> r.currency@
                == vstd::utf8::decode_utf8(dec_block(buffer.bytes(), 0)),
    {
        let sz = buffer.size();
        let mut offset: usize = 0;
        let currency_len = buffer.read_u32(offset) as usize;
        let currency = buffer.read_string(offset);
        offset = offset + 4 + currency_len;
        let amount_bits = buffer.read_u64(offset);
        Self { currency, amount_bits }
    }
}

impl Clone for Balance {
    fn clone(&self) -> (r: Self)
        ensures
            r.currency@ == self.currency@,
            r.amount_bits == self.amount_bits,
    {
        Self { currency: self.currency.clone(), amount_bits: self.amount_bits }
    }
}

impl PartialEq for Balance {
    /// Equality goes by the key field alone.
    fn eq(&self, other: &Self) -> (r: bool) {
        self.currency == other.currency
    }
}

impl vstd::std_specs::cmp::PartialEqSpecImpl for Balance {
    open spec fn obeys_eq_spec() -> bool {
        true
    }

    open spec fn eq_spec(&self, other: &Self) -> bool {
        self.currency@ == other.currency@
    }
}

impl Eq for Balance {

}

impl Hash for Balance {
    /// Relies on `Hash::hash` for String: hashing goes by the key field
    /// alone, matching the key-based equality.
    #[verifier::external_body]
    fn hash<H: Hasher>(&self, state: &mut H) {
        self.currency.hash(state);
    }
}

/// A record with a composite key: the user id and the session id together.
#[derive(Debug)]
pub struct UserSession {
    pub user_id: i32,
    pub session_id: String,
    pub timestamp: i64,
    pub ip_address: String,
}

/// The wire bytes of a session: user id, length-prefixed session id,
/// timestamp, length-prefixed address.
pub open spec fn user_session_bytes(
    user_id: i32,
    session_id: Seq<char>,
    timestamp: i64,
    ip_address: Seq<char>,
) -> Seq<u8> {
    spec_u32_to_le_bytes(user_id as u32) + enc_block(vstd::utf8::encode_utf8(session_id))
        + spec_u64_to_le_bytes(timestamp as u64) + enc_block(vstd::utf8::encode_utf8(ip_address))
}

impl UserSession {
    pub open spec fn wf(&self) -> bool {
        vstd::utf8::encode_utf8(self.session_id@).len() <= i32::MAX && vstd::utf8::encode_utf8(
            self.ip_address@,
        ).len() <= i32::MAX
    }

    pub fn new(user_id: i32, session_id: String, timestamp: i64, ip_address: String) -> (r: Self)
        ensures
            r.user_id == user_id,
            r.session_id == session_id,
            r.timestamp == timestamp,
            r.ip_address == ip_address,
    {
        Self { user_id, session_id, timestamp, ip_address }
    }

    /// The composite key: user id and session id.
    pub fn key(&self) -> (r: (i32, &str))
        ensures
            r.0 == self.user_id,
            r.1@ == self.session_id@,
    {
        (self.user_id, self.session_id.as_str())
    }

    pub fn serialize(&self, buffer: &mut WriteBuffer) -> (r: usize)
        requires
            self.wf(),
            old(buffer).spec_offset() == 0,
            20 + vstd::utf8::encode_utf8(self.session_id@).len() + vstd::utf8::encode_utf8(
                self.ip_address@,
            ).len() <= old(buffer).bytes().len(),
        ensures
            r == user_session_bytes(
                self.user_id,
                self.session_id@,
                self.timestamp,
                self.ip_address@,
            ).len(),
            final(buffer).data_bytes() == user_session_bytes(
                self.user_id,
                self.session_id@,
                self.timestamp,
                self.ip_address@,
            ),
            final(buffer).spec_size() == r,
            final(buffer).spec_offset() == 0,
            final(buffer).wf(),
    {
        proof {
            vstd::bytes::lemma_auto_spec_u32_to_from_le_bytes();
            vstd::bytes::lemma_auto_spec_u64_to_from_le_bytes();
        }
        let cap = buffer.capacity();
        let mut offset: usize = 0;
        buffer.write_i32(offset, self.user_id);
        offset = offset + 4;
        buffer.write_string(offset, self.session_id.as_str());
        offset = offset + 4 + self.session_id.as_str().len();
        buffer.write_i64(offset, self.timestamp);
        offset = offset + 8;
        buffer.write_string(offset, self.ip_address.as_str());
        offset = offset + 4 + self.ip_address.as_str().len();
        buffer.set_size(offset);
        proof {
            assert(final(buffer).data_bytes() =~= user_session_bytes(
                self.user_id,
                self.session_id@,
                self.timestamp,
                self.ip_address@,
            ));
        }
        offset
    }

    pub fn deserialize(buffer: &ReadBuffer) -> (r: Self)
        requires
            buffer.wf(),
            buffer.spec_offset() == 0,
            8 <= buffer.spec_size(),
            le32_at(buffer.bytes(), 4) <= i32::MAX,
            ({
                let sl = le32_at(buffer.bytes(), 4) as int;
                &&& 20 + sl <= buffer.spec_size()
                &&& le32_at(buffer.bytes(), 16 + sl) <= i32::MAX
                &&& 20 + sl + le32_at(buffer.bytes(), 16 + sl) <= buffer.spec_size()
            }),
        ensures
            ({
                let sl = le32_at(buffer.bytes(), 4) as int;
                &&& r.user_id == le32_at(buffer.bytes(), 0) as i32
                &&& r.session_id@ == lossy_decode(dec_block(buffer.bytes(), 4))
                &&& r.timestamp == le64_at(buffer.bytes(), 8 + sl) as i64
                &&& r.ip_address@ == lossy_decode(dec_block(buffer.bytes(), 16 + sl))
                &&& (vstd::utf8::valid_utf8(dec_block(buffer.bytes(), 4)) ==> r.session_id@
                    == vstd::utf8::decode_utf8(dec_block(buffer.bytes(), 4)))
                &&& (vstd::utf8::valid_utf8(dec_block(buffer.bytes(), 16 + sl)) ==> r.ip_address@
                    == vstd::utf8::decode_utf8(dec_block(buffer.bytes(), 16 + sl)))
            }),
    {
        let sz = buffer.size();
        let mut offset: usize = 0;
        let user_id = buffer.read_i32(offset);
        offset = offset + 4;
        let session_len = buffer.read_u32(offset) as usize;
        let session_id = buffer.read_string(offset);
        offset = offset + 4 + session_len;
        let timestamp = buffer.read_i64(offset);
        offset = offset + 8;
        let ip_address = buffer.read_string(offset);
        Self { user_id, session_id, timestamp, ip_address }
    }
}

impl Clone for UserSession {
    fn clone(&self) -> (r: Self)
        ensures
            r.user_id == self.user_id,
            r.session_id@ == self.session_id@,
            r.timestamp == self.timestamp,
            r.ip_address@ == self.ip_address@,
    {
        Self {
            user_id: self.user_id,
            session_id: self.session_id.clone(),
            timestamp: self.timestamp,
            ip_address: self.ip_address.clone(),
        }
    }
}

impl PartialEq for UserSession {
    /// Equality goes by the composite key: user id and session id.
    fn eq(&self, other: &Self) -> (r: bool) {
        self.user_id == other.user_id && self.session_id == other.session_id
    }
}

impl vstd::std_specs::cmp::PartialEqSpecImpl for UserSession {
    open spec fn obeys_eq_spec() -> bool {
        true
    }

    open spec fn eq_spec(&self, other: &Self) -> bool {
        self.user_id == other.user_id && self.session_id@ == other.session_id@
    }
}

impl Eq for UserSession {

}

impl Hash for UserSession {
    /// Relies on `Hash::hash` for i32 and String: hashing goes by the
    /// composite key, matching the key-based equality.
    #[verifier::external_body]
    fn hash<H: Hasher>(&self, state: &mut H) {
        self.user_id.hash(state);
        self.session_id.hash(state);
    }
}

/// A record without key fields: equality goes by every field.
#[derive(Debug)]
pub struct LogEntry {
    pub timestamp: i64,
    pub message: String,
    pub level: String,
}

/// The wire bytes of a log entry: timestamp, length-prefixed message,
/// length-prefixed level.
pub open spec fn log_entry_bytes(timestamp: i64, message: Seq<char>, level: Seq<char>) -> Seq<u8> {
    spec_u64_to_le_bytes(timestamp as u64) + enc_block(vstd::utf8::encode_utf8(message))
        + enc_block(vstd::utf8::encode_utf8(level))
}

impl LogEntry {
    pub open spec fn wf(&self) -> bool {
        vstd::utf8::encode_utf8(self.message@).len() <= i32::MAX && vstd::utf8::encode_utf8(
            self.level@,
        ).len() <= i32::MAX
    }

    pub fn new(timestamp: i64, message: String, level: String) -> (r: Self)
        ensures
            r.timestamp == timestamp,
            r.message == message,
            r.level == level,
    {
        Self { timestamp, message, level }
    }

    pub fn serialize(&self, buffer: &mut WriteBuffer) -> (r: usize)
        requires
            self.wf(),
            old(buffer).spec_offset() == 0,
            16 + vstd::utf8::encode_utf8(self.message@).len() + vstd::utf8::encode_utf8(
                self.level@,
            ).len() <= old(buffer).bytes().len(),
        ensures
            r == log_entry_bytes(self.timestamp, self.message@, self.level@).len(),
            final(buffer).data_bytes() == log_entry_bytes(
                self.timestamp,
                self.message@,
                self.level@,
            ),
            final(buffer).spec_size() == r,
            final(buffer).spec_offset() == 0,
            final(buffer).wf(),
    {
        proof {
            vstd::bytes::lemma_auto_spec_u32_to_from_le_bytes();
            vstd::bytes::lemma_auto_spec_u64_to_from_le_bytes();
        }
        let cap = buffer.capacity();
        let mut offset: usize = 0;
        buffer.write_i64(offset, self.timestamp);
        offset = offset + 8;
        buffer.write_string(offset, self.message.as_str());
        offset = offset + 4 + self.message.as_str().len();
        buffer.write_string(offset, self.level.as_str());
        offset = offset + 4 + self.level.as_str().len();
        buffer.set_size(offset);
        proof {
            assert(final(buffer).data_bytes() =~= log_entry_bytes(
                self.timestamp,
                self.message@,
                self.level@,
            ));
        }
        offset
    }

    pub fn deserialize(buffer: &ReadBuffer) -> (r: Self)
        requires
            buffer.wf(),
            buffer.spec_offset() == 0,
            12 <= buffer.spec_size(),
            le32_at(buffer.bytes(), 8) <= i32::MAX,
            ({
                let ml = le32_at(buffer.bytes(), 8) as int;
                &&& 16 + ml <= buffer.spec_size()
                &&& le32_at(buffer.bytes(), 12 + ml) <= i32::MAX
                &&& 16 + ml + le32_at(buffer.bytes(), 12 + ml) <= buffer.spec_size()
            }),
        ensures
            ({
                let ml = le32_at(buffer.bytes(), 8) as int;
                &&& r.timestamp == le64_at(buffer.bytes(), 0) as i64
                &&& r.message@ == lossy_decode(dec_block(buffer.bytes(), 8))
                &&& r.level@ == lossy_decode(dec_block(buffer.bytes(), 12 + ml))
                &&& (vstd::utf8::valid_utf8(dec_block(buffer.bytes(), 8)) ==> r.message@
                    == vstd::utf8::decode_utf8(dec_block(buffer.bytes(), 8)))
                &&& (vstd::utf8::valid_utf8(dec_block(buffer.bytes(), 12 + ml)) ==> r.level@
                    == vstd::utf8::decode_utf8(dec_block(buffer.bytes(), 12 + ml)))
            }),
    {
        let sz = buffer.size();
        let mut offset: usize = 0;
        let timestamp = buffer.read_i64(offset);
        offset = offset + 8;
        let message_len = buffer.read_u32(offset) as usize;
        let message = buffer.read_string(offset);
        offset = offset + 4 + message_len;
        let level = buffer.read_string(offset);
        Self { timestamp, message, level }
    }
}

impl Clone for LogEntry {
    fn clone(&self) -> (r: Self)
        ensures
            r.timestamp == self.timestamp,
            r.message@ == self.message@,
            r.level@ == self.level@,
    {
        Self {
            timestamp: self.timestamp,
            message: self.message.clone(),
            level: self.level.clone(),
        }
    }
}

impl PartialEq for LogEntry {
    /// No key fields: equality goes by every field.
    fn eq(&self, other: &Self) -> (r: bool) {
        self.timestamp == other.timestamp && self.message == other.message && self.level
            == other.level
    }
}

impl vstd::std_specs::cmp::PartialEqSpecImpl for LogEntry {
    open spec fn obeys_eq_spec() -> bool {
        true
    }

    open spec fn eq_spec(&self, other: &Self) -> bool {
        self.timestamp == other.timestamp && self.message@ == other.message@ && self.level@
            == other.level@
    }
}

impl Eq for LogEntry {

}

} // verus!
