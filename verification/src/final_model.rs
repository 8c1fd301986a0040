//! Inline (final) models: the compact, non-versioned layer. Variable-length
//! fields sit directly at their position, so a final model's `size` is the
//! field's total encoded span rather than a fixed lead-in.

use vstd::prelude::*;
use vstd::bytes::{spec_u32_to_le_bytes, spec_u32_from_le_bytes};
use core::marker::PhantomData;
use vstd::string::StringSliceAdditionalSpecFns;
use crate::buffer::{ReadBuffer, WriteBuffer};
use crate::field_model::{WireValue, reader_over, uuid_chars, uuid_text};
use crate::field_model_collections::cap_usize;
use crate::wire::{splice, enc_block, enc_decimal, le32_at, dec_block};

verus! {

/// Base trait for all final models: a view at an offset whose `size` is the
/// field's whole encoded span.
pub trait FinalModel {
    spec fn spec_offset(&self) -> int;

    spec fn spec_size(&self) -> int;

    spec fn spec_extra(&self) -> int;

    /// Get field offset in buffer
    fn offset(&self) -> (r: usize)
        ensures
            r == self.spec_offset(),
    ;

    /// Set field offset in buffer
    fn set_offset(&mut self, offset: usize)
        ensures
            final(self).spec_offset() == offset,
    ;

    /// Get field size in bytes: the total encoded span
    fn size(&self) -> (r: usize)
        ensures
            r == self.spec_size(),
    ;

    /// Get extra size for dynamic types
    fn extra(&self) -> (r: usize)
        ensures
            r == self.spec_extra(),
    ;
}

/// The one generic read view over every primitive wire value, inline layout.
pub struct FinalModelPrimitive<'a, T: WireValue> {
    buffer: &'a [u8],
    offset: usize,
    item: PhantomData<T>,
}

impl<'a, T: WireValue> FinalModelPrimitive<'a, T> {
    pub closed spec fn buf(&self) -> Seq<u8> {
        self.buffer@
    }

    pub fn new(buffer: &'a [u8], offset: usize) -> (r: Self)
        ensures
            r.buf() == buffer@,
            r.spec_offset() == offset,
    {
        Self { buffer, offset, item: PhantomData }
    }

    pub fn get(&self) -> (r: T)
        requires
            self.spec_offset() + T::wire_size() <= self.buf().len(),
        ensures
            r == T::dec(self.buf(), self.spec_offset()),
    {
        proof {
            let v = T::dec(self.buf(), self.spec_offset());
            v.wire_size_facts();
        }
        let rb = reader_over(self.buffer);
        T::read_at(&rb, self.offset)
    }
}

impl<'a, T: WireValue> FinalModel for FinalModelPrimitive<'a, T> {
    closed spec fn spec_offset(&self) -> int {
        self.offset as int
    }

    open spec fn spec_size(&self) -> int {
        T::wire_size()
    }

    open spec fn spec_extra(&self) -> int {
        0
    }

    fn offset(&self) -> usize {
        self.offset
    }

    fn set_offset(&mut self, offset: usize) {
        self.offset = offset;
    }

    fn size(&self) -> usize {
        T::width()
    }

    fn extra(&self) -> usize {
        0
    }
}

/// The one generic write view over every primitive wire value, inline
/// layout.
pub struct FinalModelPrimitiveMut<T: WireValue> {
    offset: usize,
    item: PhantomData<T>,
}

impl<T: WireValue> FinalModelPrimitiveMut<T> {
    pub closed spec fn spec_offset(&self) -> int {
        self.offset as int
    }

    pub fn new(offset: usize) -> (r: Self)
        ensures
            r.spec_offset() == offset,
    {
        Self { offset, item: PhantomData }
    }

    pub fn set(&self, buffer: &mut WriteBuffer, value: T)
        requires
            old(buffer).spec_offset() + self.spec_offset() + T::wire_size() <= old(
                buffer,
            ).bytes().len(),
        ensures
            final(buffer).bytes() == splice(
                old(buffer).bytes(),
                old(buffer).spec_offset() + self.spec_offset(),
                value.enc(),
            ),
            final(buffer).spec_size() == old(buffer).spec_size(),
            final(buffer).spec_offset() == old(buffer).spec_offset(),
    {
        value.write_at(buffer, self.offset);
    }
}

pub type FinalModelBool<'a> = FinalModelPrimitive<'a, bool>;

pub type FinalModelBoolMut = FinalModelPrimitiveMut<bool>;

pub type FinalModelByte<'a> = FinalModelPrimitive<'a, u8>;

pub type FinalModelByteMut = FinalModelPrimitiveMut<u8>;

pub type FinalModelChar<'a> = FinalModelPrimitive<'a, u8>;

pub type FinalModelCharMut = FinalModelPrimitiveMut<u8>;

pub type FinalModelWChar<'a> = FinalModelPrimitive<'a, u32>;

pub type FinalModelWCharMut = FinalModelPrimitiveMut<u32>;

pub type FinalModelI8<'a> = FinalModelPrimitive<'a, i8>;

pub type FinalModelI8Mut = FinalModelPrimitiveMut<i8>;

pub type FinalModelI16<'a> = FinalModelPrimitive<'a, i16>;

pub type FinalModelI16Mut = FinalModelPrimitiveMut<i16>;

pub type FinalModelI32<'a> = FinalModelPrimitive<'a, i32>;

pub type FinalModelI32Mut = FinalModelPrimitiveMut<i32>;

pub type FinalModelI64<'a> = FinalModelPrimitive<'a, i64>;

pub type FinalModelI64Mut = FinalModelPrimitiveMut<i64>;

pub type FinalModelU8<'a> = FinalModelPrimitive<'a, u8>;

pub type FinalModelU8Mut = FinalModelPrimitiveMut<u8>;

pub type FinalModelU16<'a> = FinalModelPrimitive<'a, u16>;

pub type FinalModelU16Mut = FinalModelPrimitiveMut<u16>;

pub type FinalModelU32<'a> = FinalModelPrimitive<'a, u32>;

pub type FinalModelU32Mut = FinalModelPrimitiveMut<u32>;

pub type FinalModelU64<'a> = FinalModelPrimitive<'a, u64>;

pub type FinalModelU64Mut = FinalModelPrimitiveMut<u64>;

pub type FinalModelTimestamp<'a> = FinalModelPrimitive<'a, u64>;

pub type FinalModelTimestampMut = FinalModelPrimitiveMut<u64>;

/// Read view over an inline string: the whole block (4-byte length plus
/// payload) sits at the field's position, and `size` spans it all.
pub struct FinalModelString<'a> {
    buffer: &'a [u8],
    offset: usize,
}

impl<'a> FinalModelString<'a> {
    pub closed spec fn buf(&self) -> Seq<u8> {
        self.buffer@
    }

    pub fn new(buffer: &'a [u8], offset: usize) -> (r: Self)
        ensures
            r.buf() == buffer@,
            r.spec_offset() == offset,
    {
        Self { buffer, offset }
    }

    pub fn get(&self) -> (r: String)
        requires
            self.spec_offset() + 4 <= self.buf().len(),
            le32_at(self.buf(), self.spec_offset()) <= i32::MAX,
            self.spec_offset() + 4 + le32_at(self.buf(), self.spec_offset()) <= self.buf().len(),
        ensures
            r@ == crate::buffer::lossy_decode(dec_block(self.buf(), self.spec_offset())),
            vstd::utf8::valid_utf8(dec_block(self.buf(), self.spec_offset())) ==> r@
                == vstd::utf8::decode_utf8(dec_block(self.buf(), self.spec_offset())),
    {
        let rb = reader_over(self.buffer);
        rb.read_string(self.offset)
    }
}

impl<'a> FinalModel for FinalModelString<'a> {
    closed spec fn spec_offset(&self) -> int {
        self.offset as int
    }

    open spec fn spec_size(&self) -> int {
        if self.buf().len() < self.spec_offset() + 4 {
            4
        } else {
            cap_usize(4 + le32_at(self.buf(), self.spec_offset()))
        }
    }

    open spec fn spec_extra(&self) -> int {
        0
    }

    fn offset(&self) -> usize {
        self.offset
    }

    fn set_offset(&mut self, offset: usize) {
        self.offset = offset;
    }

    fn size(&self) -> (r: usize)
        ensures
            r == self.spec_size(),
    {
        let len = self.buffer.len();
        if len < 4 || self.offset > len - 4 {
            return 4;
        }
        let l = vstd::bytes::u32_from_le_bytes(&self.buffer[self.offset..self.offset + 4]);
        let total: u128 = 4 + (l as u128);
        if total > usize::MAX as u128 {
            usize::MAX
        } else {
            total as usize
        }
    }

    fn extra(&self) -> usize {
        0
    }
}

/// Write view over an inline string.
pub struct FinalModelStringMut {
    offset: usize,
}

impl FinalModelStringMut {
    pub closed spec fn spec_offset(&self) -> int {
        self.offset as int
    }

    pub fn new(offset: usize) -> (r: Self)
        ensures
            r.spec_offset() == offset,
    {
        Self { offset }
    }

    pub fn set(&self, buffer: &mut WriteBuffer, value: &str)
        requires
            old(buffer).spec_offset() + self.spec_offset() + 4 + value.spec_bytes().len() <= old(
                buffer,
            ).bytes().len(),
            value.spec_bytes().len() <= i32::MAX,
        ensures
            final(buffer).bytes() == splice(
                old(buffer).bytes(),
                old(buffer).spec_offset() + self.spec_offset(),
                enc_block(value.spec_bytes()),
            ),
            final(buffer).spec_size() == old(buffer).spec_size(),
            final(buffer).spec_offset() == old(buffer).spec_offset(),
    {
        buffer.write_string(self.offset, value);
    }
}

/// Read view over an inline bytes field.
pub struct FinalModelBytes<'a> {
    buffer: &'a [u8],
    offset: usize,
}

impl<'a> FinalModelBytes<'a> {
    pub closed spec fn buf(&self) -> Seq<u8> {
        self.buffer@
    }

    pub fn new(buffer: &'a [u8], offset: usize) -> (r: Self)
        ensures
            r.buf() == buffer@,
            r.spec_offset() == offset,
    {
        Self { buffer, offset }
    }

    pub fn get(&self) -> (r: Vec<u8>)
        requires
            self.spec_offset() + 4 <= self.buf().len(),
            le32_at(self.buf(), self.spec_offset()) <= i32::MAX,
            self.spec_offset() + 4 + le32_at(self.buf(), self.spec_offset()) <= self.buf().len(),
        ensures
            r@ == dec_block(self.buf(), self.spec_offset()),
    {
        let rb = reader_over(self.buffer);
        rb.read_bytes(self.offset)
    }
}

impl<'a> FinalModel for FinalModelBytes<'a> {
    closed spec fn spec_offset(&self) -> int {
        self.offset as int
    }

    open spec fn spec_size(&self) -> int {
        if self.buf().len() < self.spec_offset() + 4 {
            4
        } else {
            cap_usize(4 + le32_at(self.buf(), self.spec_offset()))
        }
    }

    open spec fn spec_extra(&self) -> int {
        0
    }

    fn offset(&self) -> usize {
        self.offset
    }

    fn set_offset(&mut self, offset: usize) {
        self.offset = offset;
    }

    fn size(&self) -> (r: usize)
        ensures
            r == self.spec_size(),
    {
        let len = self.buffer.len();
        if len < 4 || self.offset > len - 4 {
            return 4;
        }
        let l = vstd::bytes::u32_from_le_bytes(&self.buffer[self.offset..self.offset + 4]);
        let total: u128 = 4 + (l as u128);
        if total > usize::MAX as u128 {
            usize::MAX
        } else {
            total as usize
        }
    }

    fn extra(&self) -> usize {
        0
    }
}

/// Read view over an inline 16-byte decimal.
pub struct FinalModelDecimal<'a> {
    buffer: &'a [u8],
    offset: usize,
}

impl<'a> FinalModelDecimal<'a> {
    pub closed spec fn buf(&self) -> Seq<u8> {
        self.buffer@
    }

    pub fn new(buffer: &'a [u8], offset: usize) -> (r: Self)
        ensures
            r.buf() == buffer@,
            r.spec_offset() == offset,
    {
        Self { buffer, offset }
    }

    pub fn get(&self) -> (r: (i128, u8, bool))
        requires
            self.spec_offset() + 16 <= self.buf().len(),
        ensures
            r.0 == crate::wire::dec_decimal_value(self.buf(), self.spec_offset()),
            r.1 == self.buf()[self.spec_offset() + 14],
            r.2 == ((self.buf()[self.spec_offset() + 15] & 0x80u8) != 0),
    {
        let rb = reader_over(self.buffer);
        rb.read_decimal(self.offset)
    }
}

impl<'a> FinalModel for FinalModelDecimal<'a> {
    closed spec fn spec_offset(&self) -> int {
        self.offset as int
    }

    open spec fn spec_size(&self) -> int {
        16
    }

    open spec fn spec_extra(&self) -> int {
        0
    }

    fn offset(&self) -> usize {
        self.offset
    }

    fn set_offset(&mut self, offset: usize) {
        self.offset = offset;
    }

    fn size(&self) -> usize {
        16
    }

    fn extra(&self) -> usize {
        0
    }
}

/// Write view over an inline 16-byte decimal.
pub struct FinalModelDecimalMut {
    offset: usize,
}

impl FinalModelDecimalMut {
    pub closed spec fn spec_offset(&self) -> int {
        self.offset as int
    }

    pub fn new(offset: usize) -> (r: Self)
        ensures
            r.spec_offset() == offset,
    {
        Self { offset }
    }

    pub fn set(&self, buffer: &mut WriteBuffer, value: i128, scale: u8, negative: bool)
        requires
            old(buffer).spec_offset() + self.spec_offset() + 16 <= old(buffer).bytes().len(),
        ensures
            final(buffer).bytes() == splice(
                old(buffer).bytes(),
                old(buffer).spec_offset() + self.spec_offset(),
                enc_decimal(value, scale, negative),
            ),
            final(buffer).spec_size() == old(buffer).spec_size(),
            final(buffer).spec_offset() == old(buffer).spec_offset(),
    {
        buffer.write_decimal(self.offset, value, scale, negative);
    }
}

/// Read view over an inline UUID: 16 raw bytes, shown in the canonical
/// 8-4-4-4-12 hex grouping.
pub struct FinalModelUuid<'a> {
    buffer: &'a [u8],
    offset: usize,
}

impl<'a> FinalModelUuid<'a> {
    pub closed spec fn buf(&self) -> Seq<u8> {
        self.buffer@
    }

    pub fn new(buffer: &'a [u8], offset: usize) -> (r: Self)
        ensures
            r.buf() == buffer@,
            r.spec_offset() == offset,
    {
        Self { buffer, offset }
    }

    pub fn get(&self) -> (r: String)
        requires
            self.spec_offset() + 16 <= self.buf().len(),
        ensures
            r@ == uuid_chars(self.buf().subrange(self.spec_offset(), self.spec_offset() + 16)),
    {
        let rb = reader_over(self.buffer);
        let u = rb.read_uuid(self.offset);
        uuid_text(&u)
    }
}

impl<'a> FinalModel for FinalModelUuid<'a> {
    closed spec fn spec_offset(&self) -> int {
        self.offset as int
    }

    open spec fn spec_size(&self) -> int {
        16
    }

    open spec fn spec_extra(&self) -> int {
        0
    }

    fn offset(&self) -> usize {
        self.offset
    }

    fn set_offset(&mut self, offset: usize) {
        self.offset = offset;
    }

    fn size(&self) -> usize {
        16
    }

    fn extra(&self) -> usize {
        0
    }
}

/// Read view over an inline vector: the count-prefixed elements sit at the
/// field's position, and `size` spans count and elements.
pub struct FinalModelVector<'a, T: WireValue> {
    buffer: &'a [u8],
    offset: usize,
    item: PhantomData<T>,
}

impl<'a, T: WireValue> FinalModelVector<'a, T> {
    pub closed spec fn buf(&self) -> Seq<u8> {
        self.buffer@
    }

    pub closed spec fn spec_offset(&self) -> int {
        self.offset as int
    }

    pub fn new(buffer: &'a [u8], offset: usize) -> (r: Self)
        ensures
            r.buf() == buffer@,
            r.spec_offset() == offset,
    {
        Self { buffer, offset, item: PhantomData }
    }

    pub fn get(&self) -> (r: Vec<T>)
        requires
            self.spec_offset() + 4 <= self.buf().len(),
            self.spec_offset() + 4 + T::wire_size() * le32_at(self.buf(), self.spec_offset())
                <= self.buf().len(),
        ensures
            r@.len() == le32_at(self.buf(), self.spec_offset()),
            forall|k: int|
                0 <= k < r@.len() ==> r@[k] == T::dec(
                    self.buf(),
                    self.spec_offset() + 4 + T::wire_size() * k,
                ),
    {
        let cap = self.buffer.len();
        let rb = reader_over(self.buffer);
        let n = rb.read_u32(self.offset) as usize;
        let w = T::width();
        proof {
            let v = T::dec(self.buf(), 0);
            v.wire_size_facts();
        }
        let mut result: Vec<T> = Vec::new();
        let mut i: usize = 0;
        while i < n
            invariant
                0 <= i <= n,
                w == T::wire_size(),
                w >= 1,
                rb.wf(),
                rb.bytes() == self.buf(),
                rb.spec_offset() == 0,
                rb.spec_size() == self.buf().len(),
                n == le32_at(self.buf(), self.spec_offset()),
                cap == self.buf().len(),
                self.spec_offset() + 4 + w * n <= cap,
                result@.len() == i,
                forall|k: int|
                    0 <= k < i ==> result@[k] == T::dec(
                        self.buf(),
                        self.spec_offset() + 4 + w * k,
                    ),
            decreases n - i,
        {
            proof {
                assert(w * i + w <= w * n) by (nonlinear_arith)
                    requires
                        i < n,
                        w >= 1,
                ;
                assert(w * i >= 0) by (nonlinear_arith)
                    requires
                        i >= 0,
                        w >= 1,
                ;
                assert(i * w == w * i) by (nonlinear_arith);
            }
            let v = T::read_at(&rb, self.offset + 4 + i * w);
            result.push(v);
            i = i + 1;
        }
        result
    }

    /// The total encoded span: the 4-byte count plus the elements.
    pub fn size(&self) -> (r: usize)
        requires
            self.spec_offset() + 4 <= self.buf().len(),
        ensures
            r == cap_usize(4 + T::wire_size() * le32_at(self.buf(), self.spec_offset())),
    {
        let rb = reader_over(self.buffer);
        let n = rb.read_u32(self.offset);
        let w = T::width();
        proof {
            let v = T::dec(self.buf(), 0);
            v.wire_size_facts();
            assert((n as u128) * (w as u128) == (w as int) * (n as int)) by (nonlinear_arith);
            assert((n as u128) * (w as u128) <= 0xFFFFFFFFu128 * 8) by (nonlinear_arith)
                requires
                    n <= 0xFFFFFFFFu32,
                    w <= 8,
            ;
        }
        let total: u128 = 4 + (n as u128) * (w as u128);
        if total > usize::MAX as u128 {
            usize::MAX
        } else {
            total as usize
        }
    }
}

/// Read view over an inline fixed-size array: `N` elements back to back, no
/// count.
pub struct FinalModelArray<'a, T: WireValue, const N: usize> {
    buffer: &'a [u8],
    offset: usize,
    item: PhantomData<T>,
}

impl<'a, T: WireValue, const N: usize> FinalModelArray<'a, T, N> {
    pub closed spec fn buf(&self) -> Seq<u8> {
        self.buffer@
    }

    pub closed spec fn spec_offset(&self) -> int {
        self.offset as int
    }

    pub fn new(buffer: &'a [u8], offset: usize) -> (r: Self)
        ensures
            r.buf() == buffer@,
            r.spec_offset() == offset,
    {
        Self { buffer, offset, item: PhantomData }
    }

    pub fn get(&self) -> (r: Vec<T>)
        requires
            self.buf().len() > 0,
            self.spec_offset() + T::wire_size() * N <= self.buf().len(),
        ensures
            r@.len() == N,
            forall|k: int|
                0 <= k < N ==> r@[k] == T::dec(
                    self.buf(),
                    self.spec_offset() + T::wire_size() * k,
                ),
    {
        let cap = self.buffer.len();
        let rb = reader_over(self.buffer);
        let w = T::width();
        proof {
            let v = T::dec(self.buf(), 0);
            v.wire_size_facts();
        }
        let mut result: Vec<T> = Vec::new();
        let mut i: usize = 0;
        while i < N
            invariant
                0 <= i <= N,
                w == T::wire_size(),
                w >= 1,
                rb.wf(),
                rb.bytes() == self.buf(),
                rb.spec_offset() == 0,
                rb.spec_size() == self.buf().len(),
                cap == self.buf().len(),
                self.spec_offset() + w * N <= cap,
                result@.len() == i,
                forall|k: int|
                    0 <= k < i ==> result@[k] == T::dec(self.buf(), self.spec_offset() + w * k),
            decreases N - i,
        {
            proof {
                assert(w * i + w <= w * N) by (nonlinear_arith)
                    requires
                        i < N,
                        w >= 1,
                ;
                assert(w * i >= 0) by (nonlinear_arith)
                    requires
                        i >= 0,
                        w >= 1,
                ;
                assert(i * w == w * i) by (nonlinear_arith);
            }
            let v = T::read_at(&rb, self.offset + i * w);
            result.push(v);
            i = i + 1;
        }
        result
    }

    /// The total encoded span: `N` elements of the fixed width.
    pub fn size(&self) -> (r: usize)
        ensures
            r == cap_usize(T::wire_size() * N),
    {
        let w = T::width();
        proof {
            let v = T::dec(self.buf(), 0);
            v.wire_size_facts();
            assert((N as u128) * (w as u128) == (w as int) * (N as int)) by (nonlinear_arith);
            assert((N as u128) * (w as u128) <= (N as u128) * 8) by (nonlinear_arith)
                requires
                    w <= 8,
            ;
        }
        let total: u128 = (N as u128) * (w as u128);
        if total > usize::MAX as u128 {
            usize::MAX
        } else {
            total as usize
        }
    }
}

/// Read view over an inline map: a 4-byte count, then the key-value pairs
/// back to back.
pub struct FinalModelMap<'a, K: WireValue, V: WireValue> {
    buffer: &'a [u8],
    offset: usize,
    entry: PhantomData<(K, V)>,
}

impl<'a, K: WireValue, V: WireValue> FinalModelMap<'a, K, V> {
    pub closed spec fn buf(&self) -> Seq<u8> {
        self.buffer@
    }

    pub closed spec fn spec_offset(&self) -> int {
        self.offset as int
    }

    pub fn new(buffer: &'a [u8], offset: usize) -> (r: Self)
        ensures
            r.buf() == buffer@,
            r.spec_offset() == offset,
    {
        Self { buffer, offset, entry: PhantomData }
    }

    pub fn get(&self) -> (r: Vec<(K, V)>)
        requires
            self.spec_offset() + 4 <= self.buf().len(),
            self.spec_offset() + 4 + (K::wire_size() + V::wire_size()) * le32_at(
                self.buf(),
                self.spec_offset(),
            ) <= self.buf().len(),
        ensures
            r@.len() == le32_at(self.buf(), self.spec_offset()),
            forall|k: int|
                0 <= k < r@.len() ==> r@[k] == (
                    K::dec(
                        self.buf(),
                        self.spec_offset() + 4 + (K::wire_size() + V::wire_size()) * k,
                    ),
                    V::dec(
                        self.buf(),
                        self.spec_offset() + 4 + (K::wire_size() + V::wire_size()) * k
                            + K::wire_size(),
                    ),
                ),
    {
        let cap = self.buffer.len();
        let rb = reader_over(self.buffer);
        let n = rb.read_u32(self.offset) as usize;
        let kw = K::width();
        let vw = V::width();
        proof {
            let kv = K::dec(self.buf(), 0);
            kv.wire_size_facts();
            let vv = V::dec(self.buf(), 0);
            vv.wire_size_facts();
        }
        let w = kw + vw;
        let mut result: Vec<(K, V)> = Vec::new();
        let mut i: usize = 0;
        while i < n
            invariant
                0 <= i <= n,
                kw == K::wire_size(),
                vw == V::wire_size(),
                w == kw + vw,
                kw >= 1,
                vw >= 1,
                rb.wf(),
                rb.bytes() == self.buf(),
                rb.spec_offset() == 0,
                rb.spec_size() == self.buf().len(),
                cap == self.buf().len(),
                n == le32_at(self.buf(), self.spec_offset()),
                self.spec_offset() + 4 + w * n <= cap,
                result@.len() == i,
                forall|k: int|
                    0 <= k < i ==> result@[k] == (
                        K::dec(self.buf(), self.spec_offset() + 4 + w * k),
                        V::dec(self.buf(), self.spec_offset() + 4 + w * k + kw),
                    ),
            decreases n - i,
        {
            proof {
                assert(w * i + w <= w * n) by (nonlinear_arith)
                    requires
                        i < n,
                        w >= 2,
                ;
                assert(w * i >= 0) by (nonlinear_arith)
                    requires
                        i >= 0,
                        w >= 2,
                ;
                assert(i * w == w * i) by (nonlinear_arith);
            }
            let key = K::read_at(&rb, self.offset + 4 + i * w);
            let value = V::read_at(&rb, self.offset + 4 + i * w + kw);
            result.push((key, value));
            i = i + 1;
        }
        result
    }

    /// The total encoded span: the 4-byte count plus the pairs.
    pub fn size(&self) -> (r: usize)
        requires
            self.spec_offset() + 4 <= self.buf().len(),
        ensures
            r == cap_usize(
                4 + (K::wire_size() + V::wire_size()) * le32_at(self.buf(), self.spec_offset()),
            ),
    {
        let rb = reader_over(self.buffer);
        let n = rb.read_u32(self.offset);
        let kw = K::width();
        let vw = V::width();
        proof {
            let kv = K::dec(self.buf(), 0);
            kv.wire_size_facts();
            let vv = V::dec(self.buf(), 0);
            vv.wire_size_facts();
            assert((n as u128) * ((kw + vw) as u128) == ((kw + vw) as int) * (n as int)) by (
            nonlinear_arith);
            assert((n as u128) * ((kw + vw) as u128) <= 0xFFFFFFFFu128 * 16) by (nonlinear_arith)
                requires
                    n <= 0xFFFFFFFFu32,
                    kw + vw <= 16,
            ;
        }
        let total: u128 = 4 + (n as u128) * ((kw + vw) as u128);
        if total > usize::MAX as u128 {
            usize::MAX
        } else {
            total as usize
        }
    }
}

/// Read view over an inline set: the set shares the inline vector's wire
/// format.
pub struct FinalModelSet<'a, T: WireValue> {
    inner: FinalModelVector<'a, T>,
}

impl<'a, T: WireValue> FinalModelSet<'a, T> {
    pub closed spec fn buf(&self) -> Seq<u8> {
        self.inner.buf()
    }

    pub closed spec fn spec_offset(&self) -> int {
        self.inner.spec_offset()
    }

    pub fn new(buffer: &'a [u8], offset: usize) -> (r: Self)
        ensures
            r.buf() == buffer@,
            r.spec_offset() == offset,
    {
        Self { inner: FinalModelVector::new(buffer, offset) }
    }

    pub fn get(&self) -> (r: Vec<T>)
        requires
            self.spec_offset() + 4 <= self.buf().len(),
            self.spec_offset() + 4 + T::wire_size() * le32_at(self.buf(), self.spec_offset())
                <= self.buf().len(),
        ensures
            r@.len() == le32_at(self.buf(), self.spec_offset()),
            forall|k: int|
                0 <= k < r@.len() ==> r@[k] == T::dec(
                    self.buf(),
                    self.spec_offset() + 4 + T::wire_size() * k,
                ),
    {
        self.inner.get()
    }

    /// The total encoded span: the 4-byte count plus the elements.
    pub fn size(&self) -> (r: usize)
        requires
            self.spec_offset() + 4 <= self.buf().len(),
        ensures
            r == cap_usize(4 + T::wire_size() * le32_at(self.buf(), self.spec_offset())),
    {
        self.inner.size()
    }
}

/// Read view over an inline list: the list shares the inline vector's wire
/// format.
pub struct FinalModelList<'a, T: WireValue> {
    inner: FinalModelVector<'a, T>,
}

impl<'a, T: WireValue> FinalModelList<'a, T> {
    pub closed spec fn buf(&self) -> Seq<u8> {
        self.inner.buf()
    }

    pub closed spec fn spec_offset(&self) -> int {
        self.inner.spec_offset()
    }

    pub fn new(buffer: &'a [u8], offset: usize) -> (r: Self)
        ensures
            r.buf() == buffer@,
            r.spec_offset() == offset,
    {
        Self { inner: FinalModelVector::new(buffer, offset) }
    }

    pub fn get(&self) -> (r: Vec<T>)
        requires
            self.spec_offset() + 4 <= self.buf().len(),
            self.spec_offset() + 4 + T::wire_size() * le32_at(self.buf(), self.spec_offset())
                <= self.buf().len(),
        ensures
            r@.len() == le32_at(self.buf(), self.spec_offset()),
            forall|k: int|
                0 <= k < r@.len() ==> r@[k] == T::dec(
                    self.buf(),
                    self.spec_offset() + 4 + T::wire_size() * k,
                ),
    {
        self.inner.get()
    }

    /// The total encoded span: the 4-byte count plus the elements.
    pub fn size(&self) -> (r: usize)
        requires
            self.spec_offset() + 4 <= self.buf().len(),
        ensures
            r == cap_usize(4 + T::wire_size() * le32_at(self.buf(), self.spec_offset())),
    {
        self.inner.size()
    }
}

} // verus!
