//! Pointer-based field models: typed read and write views over a buffer
//! position. The fixed lead-in (`size`) plus the variable tail (`extra`)
//! tell a reader how far to skip past a field it does not know.

use vstd::prelude::*;
use vstd::bytes::{
    spec_u16_to_le_bytes, spec_u32_to_le_bytes, spec_u64_to_le_bytes, spec_u16_from_le_bytes,
    spec_u32_from_le_bytes, spec_u64_from_le_bytes,
};
use core::marker::PhantomData;
use vstd::string::StringSliceAdditionalSpecFns;
use crate::buffer::{ReadBuffer, WriteBuffer};
use crate::wire::{splice, enc_bool, enc_block, enc_decimal, le16_at, le32_at, le64_at, dec_block};

verus! {

/// Base trait for all field models: a view at an offset with a fixed size
/// and a variable extra tail.
pub trait FieldModel {
    spec fn spec_offset(&self) -> int;

    spec fn spec_size(&self) -> int;

    spec fn spec_extra(&self) -> int;

    /// Get field offset in buffer
    fn offset(&self) -> (r: usize)
        ensures
            r == self.spec_offset(),
    ;

    /// Set field offset in buffer
    fn set_offset(&mut self, offset: usize)
        ensures
            final(self).spec_offset() == offset,
    ;

    /// Get field size in bytes: the fixed, always-present portion
    fn size(&self) -> (r: usize)
        ensures
            r == self.spec_size(),
    ;

    /// Get extra size for dynamic types (strings, vectors, and the like)
    fn extra(&self) -> (r: usize)
        ensures
            r == self.spec_extra(),
    ;

    /// Shift offset forward
    fn shift(&mut self, size: usize)
        requires
            old(self).spec_offset() + size <= usize::MAX,
        ensures
            final(self).spec_offset() == old(self).spec_offset() + size,
    ;

    /// Shift offset backward
    fn unshift(&mut self, size: usize)
        requires
            size <= old(self).spec_offset(),
        ensures
            final(self).spec_offset() == old(self).spec_offset() - size,
    ;

    /// Verify field value: a cheap bounds check, true when no
    /// variable-length inspection is needed
    fn verify(&self) -> bool;
}

/// A primitive wire value: a fixed width, an encoding, and a decoding that
/// inverts it.
pub trait WireValue: Sized + Copy {
    /// The encoded width in bytes.
    spec fn wire_size() -> int;

    /// The little-endian encoding.
    spec fn enc(self) -> Seq<u8>;

    /// The value stored at position `at`.
    spec fn dec(b: Seq<u8>, at: int) -> Self;

    proof fn wire_size_facts(self)
        ensures
            0 < Self::wire_size() <= 8,
            self.enc().len() == Self::wire_size(),
    ;

    /// Decoding an encoding written at `at` returns the value written.
    proof fn round_trip(self, b: Seq<u8>, at: int)
        requires
            0 <= at,
            at + Self::wire_size() <= b.len(),
        ensures
            Self::dec(splice(b, at, self.enc()), at) == self,
    ;

    /// The encoded width, as a machine integer.
    fn width() -> (r: usize)
        ensures
            r == Self::wire_size(),
    ;

    /// Read the value at the buffer's cursor plus `offset`.
    fn read_at(buf: &ReadBuffer, offset: usize) -> (r: Self)
        requires
            buf.wf(),
            buf.spec_offset() + offset + Self::wire_size() <= buf.spec_size(),
        ensures
            r == Self::dec(buf.bytes(), buf.spec_offset() + offset),
    ;

    /// Write the value at the buffer's cursor plus `offset`.
    fn write_at(self, buf: &mut WriteBuffer, offset: usize)
        requires
            old(buf).spec_offset() + offset + Self::wire_size() <= old(buf).bytes().len(),
        ensures
            final(buf).bytes() == splice(
                old(buf).bytes(),
                old(buf).spec_offset() + offset,
                self.enc(),
            ),
            final(buf).spec_size() == old(buf).spec_size(),
            final(buf).spec_offset() == old(buf).spec_offset(),
    ;
}

impl WireValue for bool {
    open spec fn wire_size() -> int {
        1
    }

    open spec fn enc(self) -> Seq<u8> {
        enc_bool(self)
    }

    open spec fn dec(b: Seq<u8>, at: int) -> Self {
        b[at] != 0
    }

    proof fn wire_size_facts(self) {
    }

    proof fn round_trip(self, b: Seq<u8>, at: int) {
        crate::laws::lemma_bool_round_trip(b, at, self);
    }

    fn width() -> usize {
        1
    }

    fn read_at(buf: &ReadBuffer, offset: usize) -> (r: Self) {
        buf.read_bool(offset)
    }

    fn write_at(self, buf: &mut WriteBuffer, offset: usize) {
        buf.write_bool(offset, self);
    }
}

impl WireValue for u8 {
    open spec fn wire_size() -> int {
        1
    }

    open spec fn enc(self) -> Seq<u8> {
        seq![self]
    }

    open spec fn dec(b: Seq<u8>, at: int) -> Self {
        b[at]
    }

    proof fn wire_size_facts(self) {
    }

    proof fn round_trip(self, b: Seq<u8>, at: int) {
    }

    fn width() -> usize {
        1
    }

    fn read_at(buf: &ReadBuffer, offset: usize) -> (r: Self) {
        buf.read_u8(offset)
    }

    fn write_at(self, buf: &mut WriteBuffer, offset: usize) {
        buf.write_u8(offset, self);
    }
}

impl WireValue for i8 {
    open spec fn wire_size() -> int {
        1
    }

    open spec fn enc(self) -> Seq<u8> {
        seq![self as u8]
    }

    open spec fn dec(b: Seq<u8>, at: int) -> Self {
        b[at] as i8
    }

    proof fn wire_size_facts(self) {
    }

    proof fn round_trip(self, b: Seq<u8>, at: int) {
        crate::laws::lemma_i8_round_trip(b, at, self);
    }

    fn width() -> usize {
        1
    }

    fn read_at(buf: &ReadBuffer, offset: usize) -> (r: Self) {
        buf.read_i8(offset)
    }

    fn write_at(self, buf: &mut WriteBuffer, offset: usize) {
        buf.write_i8(offset, self);
    }
}

impl WireValue for u16 {
    open spec fn wire_size() -> int {
        2
    }

    open spec fn enc(self) -> Seq<u8> {
        spec_u16_to_le_bytes(self)
    }

    open spec fn dec(b: Seq<u8>, at: int) -> Self {
        le16_at(b, at)
    }

    proof fn wire_size_facts(self) {
        vstd::bytes::lemma_auto_spec_u16_to_from_le_bytes();
    }

    proof fn round_trip(self, b: Seq<u8>, at: int) {
        crate::laws::lemma_u16_round_trip(b, at, self);
    }

    fn width() -> usize {
        2
    }

    fn read_at(buf: &ReadBuffer, offset: usize) -> (r: Self) {
        buf.read_u16(offset)
    }

    fn write_at(self, buf: &mut WriteBuffer, offset: usize) {
        buf.write_u16(offset, self);
    }
}

impl WireValue for i16 {
    open spec fn wire_size() -> int {
        2
    }

    open spec fn enc(self) -> Seq<u8> {
        spec_u16_to_le_bytes(self as u16)
    }

    open spec fn dec(b: Seq<u8>, at: int) -> Self {
        le16_at(b, at) as i16
    }

    proof fn wire_size_facts(self) {
        vstd::bytes::lemma_auto_spec_u16_to_from_le_bytes();
    }

    proof fn round_trip(self, b: Seq<u8>, at: int) {
        crate::laws::lemma_i16_round_trip(b, at, self);
    }

    fn width() -> usize {
        2
    }

    fn read_at(buf: &ReadBuffer, offset: usize) -> (r: Self) {
        buf.read_i16(offset)
    }

    fn write_at(self, buf: &mut WriteBuffer, offset: usize) {
        buf.write_i16(offset, self);
    }
}

impl WireValue for u32 {
    open spec fn wire_size() -> int {
        4
    }

    open spec fn enc(self) -> Seq<u8> {
        spec_u32_to_le_bytes(self)
    }

    open spec fn dec(b: Seq<u8>, at: int) -> Self {
        le32_at(b, at)
    }

    proof fn wire_size_facts(self) {
        vstd::bytes::lemma_auto_spec_u32_to_from_le_bytes();
    }

    proof fn round_trip(self, b: Seq<u8>, at: int) {
        crate::laws::lemma_u32_round_trip(b, at, self);
    }

    fn width() -> usize {
        4
    }

    fn read_at(buf: &ReadBuffer, offset: usize) -> (r: Self) {
        buf.read_u32(offset)
    }

    fn write_at(self, buf: &mut WriteBuffer, offset: usize) {
        buf.write_u32(offset, self);
    }
}

impl WireValue for i32 {
    open spec fn wire_size() -> int {
        4
    }

    open spec fn enc(self) -> Seq<u8> {
        spec_u32_to_le_bytes(self as u32)
    }

    open spec fn dec(b: Seq<u8>, at: int) -> Self {
        le32_at(b, at) as i32
    }

    proof fn wire_size_facts(self) {
        vstd::bytes::lemma_auto_spec_u32_to_from_le_bytes();
    }

    proof fn round_trip(self, b: Seq<u8>, at: int) {
        crate::laws::lemma_i32_round_trip(b, at, self);
    }

    fn width() -> usize {
        4
    }

    fn read_at(buf: &ReadBuffer, offset: usize) -> (r: Self) {
        buf.read_i32(offset)
    }

    fn write_at(self, buf: &mut WriteBuffer, offset: usize) {
        buf.write_i32(offset, self);
    }
}

impl WireValue for u64 {
    open spec fn wire_size() -> int {
        8
    }

    open spec fn enc(self) -> Seq<u8> {
        spec_u64_to_le_bytes(self)
    }

    open spec fn dec(b: Seq<u8>, at: int) -> Self {
        le64_at(b, at)
    }

    proof fn wire_size_facts(self) {
        vstd::bytes::lemma_auto_spec_u64_to_from_le_bytes();
    }

    proof fn round_trip(self, b: Seq<u8>, at: int) {
        crate::laws::lemma_u64_round_trip(b, at, self);
    }

    fn width() -> usize {
        8
    }

    fn read_at(buf: &ReadBuffer, offset: usize) -> (r: Self) {
        buf.read_u64(offset)
    }

    fn write_at(self, buf: &mut WriteBuffer, offset: usize) {
        buf.write_u64(offset, self);
    }
}

impl WireValue for i64 {
    open spec fn wire_size() -> int {
        8
    }

    open spec fn enc(self) -> Seq<u8> {
        spec_u64_to_le_bytes(self as u64)
    }

    open spec fn dec(b: Seq<u8>, at: int) -> Self {
        le64_at(b, at) as i64
    }

    proof fn wire_size_facts(self) {
        vstd::bytes::lemma_auto_spec_u64_to_from_le_bytes();
    }

    proof fn round_trip(self, b: Seq<u8>, at: int) {
        crate::laws::lemma_i64_round_trip(b, at, self);
    }

    fn width() -> usize {
        8
    }

    fn read_at(buf: &ReadBuffer, offset: usize) -> (r: Self) {
        buf.read_i64(offset)
    }

    fn write_at(self, buf: &mut WriteBuffer, offset: usize) {
        buf.write_i64(offset, self);
    }
}

/// A read buffer over a whole byte slice, cursor at the start.
pub(crate) fn reader_over(bytes: &[u8]) -> (r: ReadBuffer)
    requires
        bytes@.len() > 0,
    ensures
        r.bytes() == bytes@,
        r.spec_size() == bytes@.len(),
        r.spec_offset() == 0,
        r.wf(),
{
    let mut rb = ReadBuffer::new();
    rb.attach_buffer(bytes, 0, bytes.len());
    rb
}

/// The one generic read view over every primitive wire value.
pub struct FieldModelPrimitive<'a, T: WireValue> {
    buffer: &'a [u8],
    offset: usize,
    item: PhantomData<T>,
}

impl<'a, T: WireValue> FieldModelPrimitive<'a, T> {
    pub closed spec fn buf(&self) -> Seq<u8> {
        self.buffer@
    }

    pub fn new(buffer: &'a [u8], offset: usize) -> (r: Self)
        ensures
            r.buf() == buffer@,
            r.spec_offset() == offset,
    {
        Self { buffer, offset, item: PhantomData }
    }

    pub fn get(&self) -> (r: T)
        requires
            self.spec_offset() + T::wire_size() <= self.buf().len(),
        ensures
            r == T::dec(self.buf(), self.spec_offset()),
    {
        proof {
            let v = T::dec(self.buf(), self.spec_offset());
            v.wire_size_facts();
        }
        let rb = reader_over(self.buffer);
        T::read_at(&rb, self.offset)
    }
}

impl<'a, T: WireValue> FieldModel for FieldModelPrimitive<'a, T> {
    closed spec fn spec_offset(&self) -> int {
        self.offset as int
    }

    open spec fn spec_size(&self) -> int {
        T::wire_size()
    }

    open spec fn spec_extra(&self) -> int {
        0
    }

    fn offset(&self) -> usize {
        self.offset
    }

    fn set_offset(&mut self, offset: usize) {
        self.offset = offset;
    }

    fn size(&self) -> usize {
        T::width()
    }

    fn extra(&self) -> usize {
        0
    }

    fn shift(&mut self, size: usize) {
        self.offset = self.offset + size;
    }

    fn unshift(&mut self, size: usize) {
        self.offset = self.offset - size;
    }

    fn verify(&self) -> bool {
        true
    }
}

/// The one generic write view over every primitive wire value: it keeps the
/// field's offset and writes into the buffer handed to `set`.
pub struct FieldModelPrimitiveMut<T: WireValue> {
    offset: usize,
    item: PhantomData<T>,
}

impl<T: WireValue> FieldModelPrimitiveMut<T> {
    pub fn new(offset: usize) -> (r: Self)
        ensures
            r.spec_offset() == offset,
    {
        Self { offset, item: PhantomData }
    }

    pub fn set(&self, buffer: &mut WriteBuffer, value: T)
        requires
            old(buffer).spec_offset() + self.spec_offset() + T::wire_size() <= old(
                buffer,
            ).bytes().len(),
        ensures
            final(buffer).bytes() == splice(
                old(buffer).bytes(),
                old(buffer).spec_offset() + self.spec_offset(),
                value.enc(),
            ),
            final(buffer).spec_size() == old(buffer).spec_size(),
            final(buffer).spec_offset() == old(buffer).spec_offset(),
    {
        value.write_at(buffer, self.offset);
    }
}

impl<T: WireValue> FieldModel for FieldModelPrimitiveMut<T> {
    closed spec fn spec_offset(&self) -> int {
        self.offset as int
    }

    open spec fn spec_size(&self) -> int {
        T::wire_size()
    }

    open spec fn spec_extra(&self) -> int {
        0
    }

    fn offset(&self) -> usize {
        self.offset
    }

    fn set_offset(&mut self, offset: usize) {
        self.offset = offset;
    }

    fn size(&self) -> usize {
        T::width()
    }

    fn extra(&self) -> usize {
        0
    }

    fn shift(&mut self, size: usize) {
        self.offset = self.offset + size;
    }

    fn unshift(&mut self, size: usize) {
        self.offset = self.offset - size;
    }

    fn verify(&self) -> bool {
        true
    }
}

pub type FieldModelBool<'a> = FieldModelPrimitive<'a, bool>;

pub type FieldModelBoolMut = FieldModelPrimitiveMut<bool>;

pub type FieldModelByte<'a> = FieldModelPrimitive<'a, u8>;

pub type FieldModelByteMut = FieldModelPrimitiveMut<u8>;

pub type FieldModelChar<'a> = FieldModelPrimitive<'a, u8>;

pub type FieldModelCharMut = FieldModelPrimitiveMut<u8>;

pub type FieldModelWChar<'a> = FieldModelPrimitive<'a, u32>;

pub type FieldModelWCharMut = FieldModelPrimitiveMut<u32>;

pub type FieldModelI8<'a> = FieldModelPrimitive<'a, i8>;

pub type FieldModelI8Mut = FieldModelPrimitiveMut<i8>;

pub type FieldModelI16<'a> = FieldModelPrimitive<'a, i16>;

pub type FieldModelI16Mut = FieldModelPrimitiveMut<i16>;

pub type FieldModelI32<'a> = FieldModelPrimitive<'a, i32>;

pub type FieldModelI32Mut = FieldModelPrimitiveMut<i32>;

pub type FieldModelI64<'a> = FieldModelPrimitive<'a, i64>;

pub type FieldModelI64Mut = FieldModelPrimitiveMut<i64>;

pub type FieldModelU8<'a> = FieldModelPrimitive<'a, u8>;

pub type FieldModelU8Mut = FieldModelPrimitiveMut<u8>;

pub type FieldModelU16<'a> = FieldModelPrimitive<'a, u16>;

pub type FieldModelU16Mut = FieldModelPrimitiveMut<u16>;

pub type FieldModelU32<'a> = FieldModelPrimitive<'a, u32>;

pub type FieldModelU32Mut = FieldModelPrimitiveMut<u32>;

pub type FieldModelU64<'a> = FieldModelPrimitive<'a, u64>;

pub type FieldModelU64Mut = FieldModelPrimitiveMut<u64>;

pub type FieldModelTimestamp<'a> = FieldModelPrimitive<'a, u64>;

pub type FieldModelTimestampMut = FieldModelPrimitiveMut<u64>;

/// Read view over a string field: a 4-byte length prefix and the UTF-8
/// payload at the field's position.
pub struct FieldModelString<'a> {
    buffer: &'a [u8],
    offset: usize,
}

impl<'a> FieldModelString<'a> {
    pub closed spec fn buf(&self) -> Seq<u8> {
        self.buffer@
    }

    pub fn new(buffer: &'a [u8], offset: usize) -> (r: Self)
        ensures
            r.buf() == buffer@,
            r.spec_offset() == offset,
    {
        Self { buffer, offset }
    }

    pub fn get(&self) -> (r: String)
        requires
            self.spec_offset() + 4 <= self.buf().len(),
            le32_at(self.buf(), self.spec_offset()) <= i32::MAX,
            self.spec_offset() + 4 + le32_at(self.buf(), self.spec_offset()) <= self.buf().len(),
        ensures
            r@ == crate::buffer::lossy_decode(dec_block(self.buf(), self.spec_offset())),
            vstd::utf8::valid_utf8(dec_block(self.buf(), self.spec_offset())) ==> r@
                == vstd::utf8::decode_utf8(dec_block(self.buf(), self.spec_offset())),
    {
        let rb = reader_over(self.buffer);
        rb.read_string(self.offset)
    }
}

impl<'a> FieldModel for FieldModelString<'a> {
    closed spec fn spec_offset(&self) -> int {
        self.offset as int
    }

    open spec fn spec_size(&self) -> int {
        4
    }

    open spec fn spec_extra(&self) -> int {
        if self.buf().len() < self.spec_offset() + 4 {
            0
        } else {
            le32_at(self.buf(), self.spec_offset()) as int
        }
    }

    fn offset(&self) -> usize {
        self.offset
    }

    fn set_offset(&mut self, offset: usize) {
        self.offset = offset;
    }

    fn size(&self) -> usize {
        4
    }

    fn extra(&self) -> (r: usize)
        ensures
            r == self.spec_extra(),
    {
        let len = self.buffer.len();
        if len < 4 || self.offset > len - 4 {
            return 0;
        }
        vstd::bytes::u32_from_le_bytes(
            &self.buffer[self.offset..self.offset + 4],
        ) as usize
    }

    fn shift(&mut self, size: usize) {
        self.offset = self.offset + size;
    }

    fn unshift(&mut self, size: usize) {
        self.offset = self.offset - size;
    }

    fn verify(&self) -> bool {
        true
    }
}

/// Write view over a string field.
pub struct FieldModelStringMut {
    offset: usize,
}

impl FieldModelStringMut {
    pub closed spec fn spec_offset(&self) -> int {
        self.offset as int
    }

    pub fn new(offset: usize) -> (r: Self)
        ensures
            r.spec_offset() == offset,
    {
        Self { offset }
    }

    pub fn set(&self, buffer: &mut WriteBuffer, value: &str)
        requires
            old(buffer).spec_offset() + self.spec_offset() + 4 + value.spec_bytes().len() <= old(
                buffer,
            ).bytes().len(),
            value.spec_bytes().len() <= i32::MAX,
        ensures
            final(buffer).bytes() == splice(
                old(buffer).bytes(),
                old(buffer).spec_offset() + self.spec_offset(),
                enc_block(value.spec_bytes()),
            ),
            final(buffer).spec_size() == old(buffer).spec_size(),
            final(buffer).spec_offset() == old(buffer).spec_offset(),
    {
        buffer.write_string(self.offset, value);
    }
}

/// Read view over a bytes field: a 4-byte length prefix and the raw payload
/// at the field's position.
pub struct FieldModelBytes<'a> {
    buffer: &'a [u8],
    offset: usize,
}

impl<'a> FieldModelBytes<'a> {
    pub closed spec fn buf(&self) -> Seq<u8> {
        self.buffer@
    }

    pub fn new(buffer: &'a [u8], offset: usize) -> (r: Self)
        ensures
            r.buf() == buffer@,
            r.spec_offset() == offset,
    {
        Self { buffer, offset }
    }

    pub fn get(&self) -> (r: Vec<u8>)
        requires
            self.spec_offset() + 4 <= self.buf().len(),
            le32_at(self.buf(), self.spec_offset()) <= i32::MAX,
            self.spec_offset() + 4 + le32_at(self.buf(), self.spec_offset()) <= self.buf().len(),
        ensures
            r@ == dec_block(self.buf(), self.spec_offset()),
    {
        let rb = reader_over(self.buffer);
        rb.read_bytes(self.offset)
    }
}

impl<'a> FieldModel for FieldModelBytes<'a> {
    closed spec fn spec_offset(&self) -> int {
        self.offset as int
    }

    open spec fn spec_size(&self) -> int {
        4
    }

    open spec fn spec_extra(&self) -> int {
        if self.buf().len() < self.spec_offset() + 4 {
            0
        } else {
            le32_at(self.buf(), self.spec_offset()) as int
        }
    }

    fn offset(&self) -> usize {
        self.offset
    }

    fn set_offset(&mut self, offset: usize) {
        self.offset = offset;
    }

    fn size(&self) -> usize {
        4
    }

    fn extra(&self) -> (r: usize)
        ensures
            r == self.spec_extra(),
    {
        let len = self.buffer.len();
        if len < 4 || self.offset > len - 4 {
            return 0;
        }
        vstd::bytes::u32_from_le_bytes(
            &self.buffer[self.offset..self.offset + 4],
        ) as usize
    }

    fn shift(&mut self, size: usize) {
        self.offset = self.offset + size;
    }

    fn unshift(&mut self, size: usize) {
        self.offset = self.offset - size;
    }

    fn verify(&self) -> bool {
        true
    }
}

/// Write view over a bytes field.
pub struct FieldModelBytesMut {
    offset: usize,
}

impl FieldModelBytesMut {
    pub closed spec fn spec_offset(&self) -> int {
        self.offset as int
    }

    pub fn new(offset: usize) -> (r: Self)
        ensures
            r.spec_offset() == offset,
    {
        Self { offset }
    }

    pub fn set(&self, buffer: &mut WriteBuffer, value: &[u8])
        requires
            old(buffer).spec_offset() + self.spec_offset() + 4 + value@.len() <= old(
                buffer,
            ).bytes().len(),
            value@.len() <= i32::MAX,
        ensures
            final(buffer).bytes() == splice(
                old(buffer).bytes(),
                old(buffer).spec_offset() + self.spec_offset(),
                enc_block(value@),
            ),
            final(buffer).spec_size() == old(buffer).spec_size(),
            final(buffer).spec_offset() == old(buffer).spec_offset(),
    {
        buffer.write_bytes(self.offset, value);
    }
}

/// Read view over a decimal field: 16 bytes at the field's position.
pub struct FieldModelDecimal<'a> {
    buffer: &'a [u8],
    offset: usize,
}

impl<'a> FieldModelDecimal<'a> {
    pub closed spec fn buf(&self) -> Seq<u8> {
        self.buffer@
    }

    pub fn new(buffer: &'a [u8], offset: usize) -> (r: Self)
        ensures
            r.buf() == buffer@,
            r.spec_offset() == offset,
    {
        Self { buffer, offset }
    }

    pub fn get(&self) -> (r: (i128, u8, bool))
        requires
            self.spec_offset() + 16 <= self.buf().len(),
        ensures
            r.0 == crate::wire::dec_decimal_value(self.buf(), self.spec_offset()),
            r.1 == self.buf()[self.spec_offset() + 14],
            r.2 == ((self.buf()[self.spec_offset() + 15] & 0x80u8) != 0),
    {
        let rb = reader_over(self.buffer);
        rb.read_decimal(self.offset)
    }
}

impl<'a> FieldModel for FieldModelDecimal<'a> {
    closed spec fn spec_offset(&self) -> int {
        self.offset as int
    }

    open spec fn spec_size(&self) -> int {
        16
    }

    open spec fn spec_extra(&self) -> int {
        0
    }

    fn offset(&self) -> usize {
        self.offset
    }

    fn set_offset(&mut self, offset: usize) {
        self.offset = offset;
    }

    fn size(&self) -> usize {
        16
    }

    fn extra(&self) -> usize {
        0
    }

    fn shift(&mut self, size: usize) {
        self.offset = self.offset + size;
    }

    fn unshift(&mut self, size: usize) {
        self.offset = self.offset - size;
    }

    fn verify(&self) -> bool {
        true
    }
}

/// Write view over a decimal field.
pub struct FieldModelDecimalMut {
    offset: usize,
}

impl FieldModelDecimalMut {
    pub closed spec fn spec_offset(&self) -> int {
        self.offset as int
    }

    pub fn new(offset: usize) -> (r: Self)
        ensures
            r.spec_offset() == offset,
    {
        Self { offset }
    }

    pub fn set(&self, buffer: &mut WriteBuffer, value: i128, scale: u8, negative: bool)
        requires
            old(buffer).spec_offset() + self.spec_offset() + 16 <= old(buffer).bytes().len(),
        ensures
            final(buffer).bytes() == splice(
                old(buffer).bytes(),
                old(buffer).spec_offset() + self.spec_offset(),
                enc_decimal(value, scale, negative),
            ),
            final(buffer).spec_size() == old(buffer).spec_size(),
            final(buffer).spec_offset() == old(buffer).spec_offset(),
    {
        buffer.write_decimal(self.offset, value, scale, negative);
    }
}

/// The lower-case hex digit for a value below 16.
pub open spec fn hex_char_spec(n: int) -> char {
    if n < 10 {
        ((48 + n) as u8) as char
    } else {
        ((87 + n) as u8) as char
    }
}

/// The canonical 8-4-4-4-12 textual form of a 16-byte UUID.
pub open spec fn uuid_chars(b: Seq<u8>) -> Seq<char> {
    seq![
        hex_char_spec(b[0] as int / 16),
        hex_char_spec(b[0] as int % 16),
        hex_char_spec(b[1] as int / 16),
        hex_char_spec(b[1] as int % 16),
        hex_char_spec(b[2] as int / 16),
        hex_char_spec(b[2] as int % 16),
        hex_char_spec(b[3] as int / 16),
        hex_char_spec(b[3] as int % 16),
        '-',
        hex_char_spec(b[4] as int / 16),
        hex_char_spec(b[4] as int % 16),
        hex_char_spec(b[5] as int / 16),
        hex_char_spec(b[5] as int % 16),
        '-',
        hex_char_spec(b[6] as int / 16),
        hex_char_spec(b[6] as int % 16),
        hex_char_spec(b[7] as int / 16),
        hex_char_spec(b[7] as int % 16),
        '-',
        hex_char_spec(b[8] as int / 16),
        hex_char_spec(b[8] as int % 16),
        hex_char_spec(b[9] as int / 16),
        hex_char_spec(b[9] as int % 16),
        '-',
        hex_char_spec(b[10] as int / 16),
        hex_char_spec(b[10] as int % 16),
        hex_char_spec(b[11] as int / 16),
        hex_char_spec(b[11] as int % 16),
        hex_char_spec(b[12] as int / 16),
        hex_char_spec(b[12] as int % 16),
        hex_char_spec(b[13] as int / 16),
        hex_char_spec(b[13] as int % 16),
        hex_char_spec(b[14] as int / 16),
        hex_char_spec(b[14] as int % 16),
        hex_char_spec(b[15] as int / 16),
        hex_char_spec(b[15] as int % 16),
    ]
}

/// Relies on `String::from_iter` over characters: the collected string holds
/// exactly the given characters.
#[verifier::external_body]
pub(crate) fn chars_to_text(chars: &Vec<char>) -> (r: String)
    ensures
        r@ == chars@,
{
    chars.iter().collect()
}

fn hex_char(n: u8) -> (r: char)
    requires
        n < 16,
    ensures
        r == hex_char_spec(n as int),
{
    if n < 10 {
        (48 + n) as char
    } else {
        (87 + n) as char
    }
}

/// Push the two hex digits of one byte.
fn push_hex_pair(out: &mut Vec<char>, b: u8)
    ensures
        final(out)@ == old(out)@.push(hex_char_spec(b as int / 16)).push(
            hex_char_spec(b as int % 16),
        ),
{
    out.push(hex_char(b / 16));
    out.push(hex_char(b % 16));
}

/// The canonical textual form of a UUID's 16 raw bytes.
#[verifier::rlimit(60)]
pub fn uuid_text(u: &[u8; 16]) -> (r: String)
    ensures
        r@ == uuid_chars(u@),
{
    let mut out: Vec<char> = Vec::new();
    push_hex_pair(&mut out, u[0]);
    push_hex_pair(&mut out, u[1]);
    push_hex_pair(&mut out, u[2]);
    push_hex_pair(&mut out, u[3]);
    out.push('-');
    push_hex_pair(&mut out, u[4]);
    push_hex_pair(&mut out, u[5]);
    out.push('-');
    push_hex_pair(&mut out, u[6]);
    push_hex_pair(&mut out, u[7]);
    out.push('-');
    push_hex_pair(&mut out, u[8]);
    push_hex_pair(&mut out, u[9]);
    out.push('-');
    push_hex_pair(&mut out, u[10]);
    push_hex_pair(&mut out, u[11]);
    push_hex_pair(&mut out, u[12]);
    push_hex_pair(&mut out, u[13]);
    push_hex_pair(&mut out, u[14]);
    push_hex_pair(&mut out, u[15]);
    proof {
        assert(out@ =~= uuid_chars(u@));
    }
    chars_to_text(&out)
}

/// The numeric value of a hex digit byte, or -1 when it is no hex digit.
pub open spec fn hex_val(c: u8) -> int {
    if 48 <= c <= 57 {
        c - 48
    } else if 97 <= c <= 102 {
        c - 87
    } else if 65 <= c <= 70 {
        c - 55
    } else {
        -1
    }
}

/// The byte parsed from two hex digit bytes; a pair with any bad digit
/// parses to zero, the tolerant fallback of the textual form.
pub open spec fn pair_byte(hi: u8, lo: u8) -> u8 {
    if hex_val(hi) >= 0 && hex_val(lo) >= 0 {
        (hex_val(hi) * 16 + hex_val(lo)) as u8
    } else {
        0
    }
}

/// A byte sequence with every dash removed.
pub open spec fn non_dash(s: Seq<u8>) -> Seq<u8>
    decreases s.len(),
{
    if s.len() == 0 {
        Seq::empty()
    } else {
        non_dash(s.drop_last()) + (if s.last() == 45 {
            Seq::<u8>::empty()
        } else {
            seq![s.last()]
        })
    }
}

/// The 16 bytes parsed from the first 32 non-dash bytes of a UUID's text.
pub open spec fn uuid_parse(s: Seq<u8>) -> Seq<u8> {
    Seq::new(16, |k: int| pair_byte(s[2 * k], s[2 * k + 1]))
}

fn hex_val_exec(c: u8) -> (r: i8)
    ensures
        r as int == hex_val(c),
{
    if 48 <= c && c <= 57 {
        (c - 48) as i8
    } else if 97 <= c && c <= 102 {
        (c - 87) as i8
    } else if 65 <= c && c <= 70 {
        (c - 55) as i8
    } else {
        -1
    }
}

/// The 16 raw bytes parsed from a UUID's textual form: dashes are skipped
/// and each bad hex pair parses to zero.
pub fn uuid_from_text(value: &str) -> (r: [u8; 16])
    requires
        non_dash(value.spec_bytes()).len() >= 32,
    ensures
        r@ == uuid_parse(non_dash(value.spec_bytes())),
{
    let bytes = value.as_bytes();
    let n = bytes.len();
    let mut cleaned: Vec<u8> = Vec::new();
    let mut i: usize = 0;
    while i < n
        invariant
            0 <= i <= n,
            n == bytes@.len(),
            cleaned@ == non_dash(bytes@.take(i as int)),
        decreases n - i,
    {
        let b = bytes[i];
        proof {
            assert(bytes@.take(i + 1).drop_last() =~= bytes@.take(i as int));
        }
        if b != 45 {
            cleaned.push(b);
        }
        i = i + 1;
    }
    proof {
        assert(bytes@.take(n as int) =~= bytes@);
    }
    let mut out = [0u8; 16];
    let mut k: usize = 0;
    while k < 16
        invariant
            0 <= k <= 16,
            cleaned@.len() >= 32,
            cleaned@ == non_dash(value.spec_bytes()),
            out@.len() == 16,
            forall|j: int|
                0 <= j < k ==> out@[j] == pair_byte(cleaned@[2 * j], cleaned@[2 * j + 1]),
        decreases 16 - k,
    {
        let hi = hex_val_exec(cleaned[2 * k]);
        let lo = hex_val_exec(cleaned[2 * k + 1]);
        let b: u8 = if hi >= 0 && lo >= 0 {
            (hi as u8) * 16 + (lo as u8)
        } else {
            0
        };
        out[k] = b;
        k = k + 1;
    }
    proof {
        assert(out@ =~= uuid_parse(non_dash(value.spec_bytes())));
    }
    out
}

/// Read view over a UUID field: 16 raw bytes, shown in the canonical
/// 8-4-4-4-12 hex grouping.
pub struct FieldModelUuid<'a> {
    buffer: &'a [u8],
    offset: usize,
}

impl<'a> FieldModelUuid<'a> {
    pub closed spec fn buf(&self) -> Seq<u8> {
        self.buffer@
    }

    pub fn new(buffer: &'a [u8], offset: usize) -> (r: Self)
        ensures
            r.buf() == buffer@,
            r.spec_offset() == offset,
    {
        Self { buffer, offset }
    }

    pub fn get(&self) -> (r: String)
        requires
            self.spec_offset() + 16 <= self.buf().len(),
        ensures
            r@ == uuid_chars(self.buf().subrange(self.spec_offset(), self.spec_offset() + 16)),
    {
        let rb = reader_over(self.buffer);
        let u = rb.read_uuid(self.offset);
        uuid_text(&u)
    }
}

impl<'a> FieldModel for FieldModelUuid<'a> {
    closed spec fn spec_offset(&self) -> int {
        self.offset as int
    }

    open spec fn spec_size(&self) -> int {
        16
    }

    open spec fn spec_extra(&self) -> int {
        0
    }

    fn offset(&self) -> usize {
        self.offset
    }

    fn set_offset(&mut self, offset: usize) {
        self.offset = offset;
    }

    fn size(&self) -> usize {
        16
    }

    fn extra(&self) -> usize {
        0
    }

    fn shift(&mut self, size: usize) {
        self.offset = self.offset + size;
    }

    fn unshift(&mut self, size: usize) {
        self.offset = self.offset - size;
    }

    fn verify(&self) -> bool {
        true
    }
}

/// Write view over a UUID field: parses the canonical text back to 16 raw
/// bytes.
pub struct FieldModelUuidMut {
    offset: usize,
}

impl FieldModelUuidMut {
    pub closed spec fn spec_offset(&self) -> int {
        self.offset as int
    }

    pub fn new(offset: usize) -> (r: Self)
        ensures
            r.spec_offset() == offset,
    {
        Self { offset }
    }

    pub fn set(&self, buffer: &mut WriteBuffer, value: &str)
        requires
            old(buffer).spec_offset() + self.spec_offset() + 16 <= old(buffer).bytes().len(),
            non_dash(value.spec_bytes()).len() >= 32,
        ensures
            final(buffer).bytes() == splice(
                old(buffer).bytes(),
                old(buffer).spec_offset() + self.spec_offset(),
                uuid_parse(non_dash(value.spec_bytes())),
            ),
            final(buffer).spec_size() == old(buffer).spec_size(),
            final(buffer).spec_offset() == old(buffer).spec_offset(),
    {
        let bytes = uuid_from_text(value);
        buffer.write_uuid(self.offset, &bytes);
    }
}

/// Read view over a pointer-based vector of any primitive wire value: a
/// 4-byte relative pointer to a count-prefixed block of elements.
pub struct FieldModelVector<'a, T: WireValue> {
    buffer: &'a [u8],
    offset: usize,
    item: PhantomData<T>,
}

impl<'a, T: WireValue> FieldModelVector<'a, T> {
    pub closed spec fn buf(&self) -> Seq<u8> {
        self.buffer@
    }

    pub closed spec fn spec_offset(&self) -> int {
        self.offset as int
    }

    pub fn new(buffer: &'a [u8], offset: usize) -> (r: Self)
        ensures
            r.buf() == buffer@,
            r.spec_offset() == offset,
    {
        Self { buffer, offset, item: PhantomData }
    }

    pub fn get(&self) -> (r: Vec<T>)
        requires
            self.spec_offset() + 4 <= self.buf().len(),
            ({
                let p = le32_at(self.buf(), self.spec_offset()) as int;
                p != 0 ==> p + 4 <= self.buf().len() && p + 4 + T::wire_size() * le32_at(
                    self.buf(),
                    p,
                ) <= self.buf().len()
            }),
        ensures
            ({
                let p = le32_at(self.buf(), self.spec_offset()) as int;
                if p == 0 {
                    r@.len() == 0
                } else {
                    r@.len() == le32_at(self.buf(), p) && (forall|k: int|
                        0 <= k < r@.len() ==> r@[k] == T::dec(
                            self.buf(),
                            p + 4 + T::wire_size() * k,
                        ))
                }
            }),
    {
        let cap = self.buffer.len();
        let rb = reader_over(self.buffer);
        let pointer = rb.read_u32(self.offset) as usize;
        if pointer == 0 {
            return Vec::new();
        }
        let n = rb.read_u32(pointer) as usize;
        let w = T::width();
        proof {
            let v = T::dec(self.buf(), 0);
            v.wire_size_facts();
        }
        let mut result: Vec<T> = Vec::new();
        let mut i: usize = 0;
        while i < n
            invariant
                0 <= i <= n,
                w == T::wire_size(),
                w >= 1,
                rb.wf(),
                rb.bytes() == self.buf(),
                rb.spec_offset() == 0,
                rb.spec_size() == self.buf().len(),
                cap == self.buf().len(),
                pointer != 0,
                pointer == le32_at(self.buf(), self.spec_offset()),
                n == le32_at(self.buf(), pointer as int),
                pointer + 4 + w * n <= cap,
                result@.len() == i,
                forall|k: int|
                    0 <= k < i ==> result@[k] == T::dec(self.buf(), pointer + 4 + w * k),
            decreases n - i,
        {
            proof {
                assert(w * i + w <= w * n) by (nonlinear_arith)
                    requires
                        i < n,
                        w >= 1,
                ;
                assert(w * i >= 0) by (nonlinear_arith)
                    requires
                        i >= 0,
                        w >= 1,
                ;
                assert(i * w == w * i) by (nonlinear_arith);
            }
            let v = T::read_at(&rb, pointer + 4 + i * w);
            result.push(v);
            i = i + 1;
        }
        result
    }
}

impl<'a, T: WireValue> FieldModel for FieldModelVector<'a, T> {
    closed spec fn spec_offset(&self) -> int {
        self.offset as int
    }

    open spec fn spec_size(&self) -> int {
        4
    }

    open spec fn spec_extra(&self) -> int {
        0
    }

    fn offset(&self) -> usize {
        self.offset
    }

    fn set_offset(&mut self, offset: usize) {
        self.offset = offset;
    }

    fn size(&self) -> usize {
        4
    }

    fn extra(&self) -> usize {
        0
    }

    fn shift(&mut self, size: usize) {
        self.offset = self.offset + size;
    }

    fn unshift(&mut self, size: usize) {
        self.offset = self.offset - size;
    }

    fn verify(&self) -> bool {
        true
    }
}

/// Read view over an inline fixed-size array of any primitive wire value:
/// `N` elements at the field's position, no pointer and no count.
pub struct FieldModelArray<'a, T: WireValue, const N: usize> {
    buffer: &'a [u8],
    offset: usize,
    item: PhantomData<T>,
}

impl<'a, T: WireValue, const N: usize> FieldModelArray<'a, T, N> {
    pub closed spec fn buf(&self) -> Seq<u8> {
        self.buffer@
    }

    pub closed spec fn spec_offset(&self) -> int {
        self.offset as int
    }

    pub fn new(buffer: &'a [u8], offset: usize) -> (r: Self)
        ensures
            r.buf() == buffer@,
            r.spec_offset() == offset,
    {
        Self { buffer, offset, item: PhantomData }
    }

    pub fn get(&self) -> (r: Vec<T>)
        requires
            self.buf().len() > 0,
            self.spec_offset() + T::wire_size() * N <= self.buf().len(),
        ensures
            r@.len() == N,
            forall|k: int|
                0 <= k < N ==> r@[k] == T::dec(
                    self.buf(),
                    self.spec_offset() + T::wire_size() * k,
                ),
    {
        let cap = self.buffer.len();
        let rb = reader_over(self.buffer);
        let w = T::width();
        proof {
            let v = T::dec(self.buf(), 0);
            v.wire_size_facts();
        }
        let mut result: Vec<T> = Vec::new();
        let mut i: usize = 0;
        while i < N
            invariant
                0 <= i <= N,
                w == T::wire_size(),
                w >= 1,
                rb.wf(),
                rb.bytes() == self.buf(),
                rb.spec_offset() == 0,
                rb.spec_size() == self.buf().len(),
                cap == self.buf().len(),
                self.spec_offset() + w * N <= cap,
                result@.len() == i,
                forall|k: int|
                    0 <= k < i ==> result@[k] == T::dec(self.buf(), self.spec_offset() + w * k),
            decreases N - i,
        {
            proof {
                assert(w * i + w <= w * N) by (nonlinear_arith)
                    requires
                        i < N,
                        w >= 1,
                ;
                assert(w * i >= 0) by (nonlinear_arith)
                    requires
                        i >= 0,
                        w >= 1,
                ;
                assert(i * w == w * i) by (nonlinear_arith);
            }
            let v = T::read_at(&rb, self.offset + i * w);
            result.push(v);
            i = i + 1;
        }
        result
    }
}

impl<'a, T: WireValue, const N: usize> FieldModel for FieldModelArray<'a, T, N> {
    closed spec fn spec_offset(&self) -> int {
        self.offset as int
    }

    open spec fn spec_size(&self) -> int {
        crate::field_model_collections::cap_usize(T::wire_size() * N)
    }

    open spec fn spec_extra(&self) -> int {
        0
    }

    fn offset(&self) -> usize {
        self.offset
    }

    fn set_offset(&mut self, offset: usize) {
        self.offset = offset;
    }

    fn size(&self) -> (r: usize)
        ensures
            r == self.spec_size(),
    {
        let w = T::width();
        proof {
            let v = T::dec(self.buf(), 0);
            v.wire_size_facts();
            assert((N as u128) * (w as u128) == (w as int) * (N as int)) by (nonlinear_arith);
            assert((N as u128) * (w as u128) <= (N as u128) * 8) by (nonlinear_arith)
                requires
                    w <= 8,
            ;
        }
        let total: u128 = (N as u128) * (w as u128);
        if total > usize::MAX as u128 {
            usize::MAX
        } else {
            total as usize
        }
    }

    fn extra(&self) -> usize {
        0
    }

    fn shift(&mut self, size: usize) {
        self.offset = self.offset + size;
    }

    fn unshift(&mut self, size: usize) {
        self.offset = self.offset - size;
    }

    fn verify(&self) -> bool {
        true
    }
}

/// Read view over a pointer-based map of any primitive key and value: a
/// 4-byte relative pointer to a count-prefixed block of pairs, handed back
/// in wire order.
pub struct FieldModelMap<'a, K: WireValue, V: WireValue> {
    buffer: &'a [u8],
    offset: usize,
    entry: PhantomData<(K, V)>,
}

impl<'a, K: WireValue, V: WireValue> FieldModelMap<'a, K, V> {
    pub closed spec fn buf(&self) -> Seq<u8> {
        self.buffer@
    }

    pub closed spec fn spec_offset(&self) -> int {
        self.offset as int
    }

    pub fn new(buffer: &'a [u8], offset: usize) -> (r: Self)
        ensures
            r.buf() == buffer@,
            r.spec_offset() == offset,
    {
        Self { buffer, offset, entry: PhantomData }
    }

    pub fn get(&self) -> (r: Vec<(K, V)>)
        requires
            self.spec_offset() + 4 <= self.buf().len(),
            ({
                let p = le32_at(self.buf(), self.spec_offset()) as int;
                p != 0 ==> p + 4 <= self.buf().len() && p + 4 + (K::wire_size() + V::wire_size())
                    * le32_at(self.buf(), p) <= self.buf().len()
            }),
        ensures
            ({
                let p = le32_at(self.buf(), self.spec_offset()) as int;
                if p == 0 {
                    r@.len() == 0
                } else {
                    let w = K::wire_size() + V::wire_size();
                    r@.len() == le32_at(self.buf(), p) && (forall|k: int|
                        0 <= k < r@.len() ==> r@[k] == (
                            K::dec(self.buf(), p + 4 + w * k),
                            V::dec(self.buf(), p + 4 + w * k + K::wire_size()),
                        ))
                }
            }),
    {
        let cap = self.buffer.len();
        let rb = reader_over(self.buffer);
        let pointer = rb.read_u32(self.offset) as usize;
        if pointer == 0 {
            return Vec::new();
        }
        let n = rb.read_u32(pointer) as usize;
        let kw = K::width();
        let vw = V::width();
        proof {
            let kv = K::dec(self.buf(), 0);
            kv.wire_size_facts();
            let vv = V::dec(self.buf(), 0);
            vv.wire_size_facts();
        }
        let w = kw + vw;
        let mut result: Vec<(K, V)> = Vec::new();
        let mut i: usize = 0;
        while i < n
            invariant
                0 <= i <= n,
                kw == K::wire_size(),
                vw == V::wire_size(),
                w == kw + vw,
                kw >= 1,
                vw >= 1,
                rb.wf(),
                rb.bytes() == self.buf(),
                rb.spec_offset() == 0,
                rb.spec_size() == self.buf().len(),
                cap == self.buf().len(),
                pointer != 0,
                pointer == le32_at(self.buf(), self.spec_offset()),
                n == le32_at(self.buf(), pointer as int),
                pointer + 4 + w * n <= cap,
                result@.len() == i,
                forall|k: int|
                    0 <= k < i ==> result@[k] == (
                        K::dec(self.buf(), pointer + 4 + w * k),
                        V::dec(self.buf(), pointer + 4 + w * k + kw),
                    ),
            decreases n - i,
        {
            proof {
                assert(w * i + w <= w * n) by (nonlinear_arith)
                    requires
                        i < n,
                        w >= 2,
                ;
                assert(w * i >= 0) by (nonlinear_arith)
                    requires
                        i >= 0,
                        w >= 2,
                ;
                assert(i * w == w * i) by (nonlinear_arith);
            }
            let key = K::read_at(&rb, pointer + 4 + i * w);
            let value = V::read_at(&rb, pointer + 4 + i * w + kw);
            result.push((key, value));
            i = i + 1;
        }
        result
    }
}

impl<'a, K: WireValue, V: WireValue> FieldModel for FieldModelMap<'a, K, V> {
    closed spec fn spec_offset(&self) -> int {
        self.offset as int
    }

    open spec fn spec_size(&self) -> int {
        4
    }

    open spec fn spec_extra(&self) -> int {
        0
    }

    fn offset(&self) -> usize {
        self.offset
    }

    fn set_offset(&mut self, offset: usize) {
        self.offset = offset;
    }

    fn size(&self) -> usize {
        4
    }

    fn extra(&self) -> usize {
        0
    }

    fn shift(&mut self, size: usize) {
        self.offset = self.offset + size;
    }

    fn unshift(&mut self, size: usize) {
        self.offset = self.offset - size;
    }

    fn verify(&self) -> bool {
        true
    }
}

/// Read view over a pointer-based set of any primitive wire value: the set
/// shares the vector's wire format.
pub struct FieldModelSet<'a, T: WireValue> {
    inner: FieldModelVector<'a, T>,
}

impl<'a, T: WireValue> FieldModelSet<'a, T> {
    pub closed spec fn buf(&self) -> Seq<u8> {
        self.inner.buf()
    }

    pub closed spec fn spec_offset(&self) -> int {
        self.inner.spec_offset()
    }

    pub fn new(buffer: &'a [u8], offset: usize) -> (r: Self)
        ensures
            r.buf() == buffer@,
            r.spec_offset() == offset,
    {
        Self { inner: FieldModelVector::new(buffer, offset) }
    }

    pub fn get(&self) -> (r: Vec<T>)
        requires
            self.spec_offset() + 4 <= self.buf().len(),
            ({
                let p = le32_at(self.buf(), self.spec_offset()) as int;
                p != 0 ==> p + 4 <= self.buf().len() && p + 4 + T::wire_size() * le32_at(
                    self.buf(),
                    p,
                ) <= self.buf().len()
            }),
        ensures
            ({
                let p = le32_at(self.buf(), self.spec_offset()) as int;
                if p == 0 {
                    r@.len() == 0
                } else {
                    r@.len() == le32_at(self.buf(), p) && (forall|k: int|
                        0 <= k < r@.len() ==> r@[k] == T::dec(
                            self.buf(),
                            p + 4 + T::wire_size() * k,
                        ))
                }
            }),
    {
        self.inner.get()
    }
}

/// Read view over a pointer-based list of any primitive wire value: the
/// linked list shares the vector's wire format and is handed back in order.
pub struct FieldModelList<'a, T: WireValue> {
    inner: FieldModelVector<'a, T>,
}

impl<'a, T: WireValue> FieldModelList<'a, T> {
    pub closed spec fn buf(&self) -> Seq<u8> {
        self.inner.buf()
    }

    pub closed spec fn spec_offset(&self) -> int {
        self.inner.spec_offset()
    }

    pub fn new(buffer: &'a [u8], offset: usize) -> (r: Self)
        ensures
            r.buf() == buffer@,
            r.spec_offset() == offset,
    {
        Self { inner: FieldModelVector::new(buffer, offset) }
    }

    pub fn get(&self) -> (r: Vec<T>)
        requires
            self.spec_offset() + 4 <= self.buf().len(),
            ({
                let p = le32_at(self.buf(), self.spec_offset()) as int;
                p != 0 ==> p + 4 <= self.buf().len() && p + 4 + T::wire_size() * le32_at(
                    self.buf(),
                    p,
                ) <= self.buf().len()
            }),
        ensures
            ({
                let p = le32_at(self.buf(), self.spec_offset()) as int;
                if p == 0 {
                    r@.len() == 0
                } else {
                    r@.len() == le32_at(self.buf(), p) && (forall|k: int|
                        0 <= k < r@.len() ==> r@[k] == T::dec(
                            self.buf(),
                            p + 4 + T::wire_size() * k,
                        ))
                }
            }),
    {
        self.inner.get()
    }
}

} // verus!
