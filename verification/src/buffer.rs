//! The byte-buffer runtime: a growable write buffer with a cursor offset and
//! a read buffer over attached bytes, both with little-endian typed
//! accessors. Every contract is stated over the buffer's byte sequence.

use vstd::prelude::*;
use vstd::bytes::{
    spec_u16_to_le_bytes, spec_u32_to_le_bytes, spec_u64_to_le_bytes, spec_u16_from_le_bytes,
    spec_u32_from_le_bytes, spec_u64_from_le_bytes,
};
use vstd::string::StringSliceAdditionalSpecFns;
use crate::wire::{splice, zeros, enc_bool, enc_block, enc_decimal};

verus! {

/// Write buffer: an owned byte store, a logical used length `size`, and a
/// cursor `offset` added to every relative access.
///
/// Invariant (`wf`): `offset <= size <= capacity`.
pub struct WriteBuffer {
    buffer: Vec<u8>,
    size: usize,
    offset: usize,
}

/// The grown physical capacity when `total` bytes are needed in a store of
/// `len` bytes: capacity doubles, or jumps straight to `total` when doubling
/// is not enough (and never exceeds the machine's address space).
pub open spec fn grow_cap(len: int, total: int) -> int {
    let doubled = if len > usize::MAX as int / 2 {
        usize::MAX as int
    } else {
        2 * len
    };
    if total > doubled {
        total
    } else {
        doubled
    }
}

/// The byte store after `reserve(total)`: unchanged when `total` already
/// fits, else extended with zeros to the grown capacity.
pub open spec fn grown(b: Seq<u8>, total: int) -> Seq<u8> {
    if total <= b.len() {
        b
    } else {
        b + zeros(grow_cap(b.len() as int, total) - b.len())
    }
}

impl WriteBuffer {
    /// The whole physical byte store (the logical content is its prefix of
    /// length `size`).
    pub closed spec fn bytes(&self) -> Seq<u8> {
        self.buffer@
    }

    pub closed spec fn spec_size(&self) -> int {
        self.size as int
    }

    pub closed spec fn spec_offset(&self) -> int {
        self.offset as int
    }

    pub open spec fn wf(&self) -> bool {
        self.spec_offset() <= self.spec_size() <= self.bytes().len()
    }

    /// The logical content: the first `size` bytes of the store.
    pub open spec fn data_bytes(&self) -> Seq<u8> {
        self.bytes().take(self.spec_size())
    }

    /// Create a new write buffer
    pub fn new() -> (r: Self)
        ensures
            r.bytes() == Seq::<u8>::empty(),
            r.spec_size() == 0,
            r.spec_offset() == 0,
            r.wf(),
    {
        Self { buffer: Vec::new(), size: 0, offset: 0 }
    }

    /// Create a new write buffer with capacity
    pub fn with_capacity(capacity: usize) -> (r: Self)
        ensures
            r.bytes() == zeros(capacity as int),
            r.spec_size() == 0,
            r.spec_offset() == 0,
            r.wf(),
    {
        let v: Vec<u8> = vec![0u8; capacity];
        proof {
            assert(v@ =~= zeros(capacity as int));
        }
        Self { buffer: v, size: 0, offset: 0 }
    }

    /// Check if buffer is empty
    pub fn is_empty(&self) -> (r: bool)
        ensures
            r == (self.spec_size() == 0),
    {
        self.size == 0
    }

    /// Get buffer data: the first `size` bytes
    pub fn data(&self) -> (r: &[u8])
        requires
            self.wf(),
        ensures
            r@ == self.data_bytes(),
    {
        let r = &self.buffer.as_slice()[0..self.size];
        proof {
            assert(r@ =~= self.data_bytes());
        }
        r
    }

    /// Get buffer capacity
    pub fn capacity(&self) -> (r: usize)
        ensures
            r == self.bytes().len(),
    {
        self.buffer.len()
    }

    /// Get buffer size
    pub fn size(&self) -> (r: usize)
        ensures
            r == self.spec_size(),
    {
        self.size
    }

    /// Get current offset
    pub fn offset(&self) -> (r: usize)
        ensures
            r == self.spec_offset(),
    {
        self.offset
    }

    /// Set buffer size
    pub fn set_size(&mut self, size: usize)
        requires
            old(self).spec_offset() <= size <= old(self).bytes().len(),
        ensures
            final(self).bytes() == old(self).bytes(),
            final(self).spec_size() == size,
            final(self).spec_offset() == old(self).spec_offset(),
            final(self).wf(),
    {
        self.size = size;
    }

    /// Attach an empty memory buffer
    pub fn attach_new(&mut self)
        ensures
            final(self).bytes() == Seq::<u8>::empty(),
            final(self).spec_size() == 0,
            final(self).spec_offset() == 0,
            final(self).wf(),
    {
        self.buffer = Vec::new();
        self.size = 0;
        self.offset = 0;
    }

    /// Attach an empty memory buffer with capacity
    pub fn attach_capacity(&mut self, capacity: usize)
        ensures
            final(self).bytes() == zeros(capacity as int),
            final(self).spec_size() == 0,
            final(self).spec_offset() == 0,
            final(self).wf(),
    {
        let v: Vec<u8> = vec![0u8; capacity];
        proof {
            assert(v@ =~= zeros(capacity as int));
        }
        self.buffer = v;
        self.size = 0;
        self.offset = 0;
    }

    /// Attach a given memory buffer
    pub fn attach_buffer(&mut self, buffer: &[u8], offset: usize, size: usize)
        requires
            buffer@.len() > 0,
            size > 0,
            offset <= size <= buffer@.len(),
        ensures
            final(self).bytes() == buffer@,
            final(self).spec_size() == size,
            final(self).spec_offset() == offset,
            final(self).wf(),
    {
        self.buffer = vstd::slice::slice_to_vec(buffer);
        self.size = size;
        self.offset = offset;
    }

    /// Ensure the physical store holds at least `total` bytes, growing by
    /// doubling (zero-filled) when it does not.
    fn grow_to(&mut self, total: usize)
        ensures
            final(self).bytes() == grown(old(self).bytes(), total as int),
            final(self).bytes().len() >= total,
            final(self).spec_size() == old(self).spec_size(),
            final(self).spec_offset() == old(self).spec_offset(),
    {
        let len = self.buffer.len();
        if total > len {
            let doubled = if len > usize::MAX / 2 {
                usize::MAX
            } else {
                len * 2
            };
            let new_capacity = if total > doubled {
                total
            } else {
                doubled
            };
            self.buffer.resize(new_capacity, 0u8);
            proof {
                assert(final(self).bytes() =~= grown(old(self).bytes(), total as int));
            }
        }
    }

    /// Allocate memory and return offset to allocated block
    pub fn allocate(&mut self, size: usize) -> (r: usize)
        requires
            old(self).wf(),
            old(self).spec_size() + size <= usize::MAX,
        ensures
            r == old(self).spec_size(),
            final(self).spec_size() == old(self).spec_size() + size,
            final(self).spec_offset() == old(self).spec_offset(),
            final(self).bytes() == grown(old(self).bytes(), old(self).spec_size() + size),
            final(self).wf(),
    {
        let offset = self.size;
        let total = self.size + size;
        self.grow_to(total);
        self.size = total;
        offset
    }

    /// Remove memory of given size from buffer
    pub fn remove(&mut self, offset: usize, size: usize)
        requires
            old(self).wf(),
            offset + size <= old(self).spec_size(),
        ensures
            final(self).bytes() == old(self).bytes().subrange(0, offset as int) + old(
                self,
            ).bytes().subrange(offset + size, old(self).bytes().len() as int),
            final(self).spec_size() == old(self).spec_size() - size,
            final(self).spec_offset() == if old(self).spec_offset() >= offset + size {
                old(self).spec_offset() - size
            } else if old(self).spec_offset() >= offset {
                if offset > old(self).spec_size() - size {
                    old(self).spec_size() - size
                } else {
                    offset as int
                }
            } else {
                old(self).spec_offset()
            },
            final(self).wf(),
    {
        let len = self.buffer.len();
        let mut kept: Vec<u8> = Vec::new();
        let mut i: usize = 0;
        while i < offset
            invariant
                0 <= i <= offset,
                offset + size <= len,
                len == self.buffer@.len(),
                self.buffer@ == old(self).bytes(),
                kept@ =~= old(self).bytes().subrange(0, i as int),
            decreases offset - i,
        {
            let b = self.buffer[i];
            kept.push(b);
            i = i + 1;
        }
        let mut j: usize = offset + size;
        while j < len
            invariant
                offset + size <= j <= len,
                len == self.buffer@.len(),
                self.buffer@ == old(self).bytes(),
                kept@ =~= old(self).bytes().subrange(0, offset as int) + old(
                    self,
                ).bytes().subrange(offset + size, j as int),
            decreases len - j,
        {
            let b = self.buffer[j];
            kept.push(b);
            j = j + 1;
        }
        self.buffer = kept;
        self.size = self.size - size;
        if self.offset >= offset + size {
            self.offset = self.offset - size;
        } else if self.offset >= offset {
            self.offset = offset;
            if self.offset > self.size {
                self.offset = self.size;
            }
        }
    }

    /// Reserve memory of given capacity
    pub fn reserve(&mut self, capacity: usize)
        ensures
            final(self).bytes() == grown(old(self).bytes(), capacity as int),
            final(self).bytes().len() >= capacity,
            final(self).spec_size() == old(self).spec_size(),
            final(self).spec_offset() == old(self).spec_offset(),
            old(self).wf() ==> final(self).wf(),
    {
        self.grow_to(capacity);
    }

    /// Resize the buffer: grow capacity to fit, set the logical size, and
    /// clamp the cursor to the new size.
    pub fn resize(&mut self, size: usize)
        ensures
            final(self).bytes() == grown(old(self).bytes(), size as int),
            final(self).spec_size() == size,
            final(self).spec_offset() == if old(self).spec_offset() > size {
                size as int
            } else {
                old(self).spec_offset()
            },
            final(self).wf(),
    {
        self.grow_to(size);
        self.size = size;
        if self.offset > self.size {
            self.offset = self.size;
        }
    }

    /// Reset buffer and offset
    pub fn reset(&mut self)
        ensures
            final(self).bytes() == old(self).bytes(),
            final(self).spec_size() == 0,
            final(self).spec_offset() == 0,
            final(self).wf(),
    {
        self.size = 0;
        self.offset = 0;
    }

    /// Shift offset forward
    pub fn shift(&mut self, offset: usize)
        requires
            old(self).spec_offset() + offset <= old(self).spec_size(),
        ensures
            final(self).bytes() == old(self).bytes(),
            final(self).spec_size() == old(self).spec_size(),
            final(self).spec_offset() == old(self).spec_offset() + offset,
            old(self).wf() ==> final(self).wf(),
    {
        self.offset = self.offset + offset;
    }

    /// Shift offset backward
    pub fn unshift(&mut self, offset: usize)
        requires
            offset <= old(self).spec_offset(),
        ensures
            final(self).bytes() == old(self).bytes(),
            final(self).spec_size() == old(self).spec_size(),
            final(self).spec_offset() == old(self).spec_offset() - offset,
            old(self).wf() ==> final(self).wf(),
    {
        self.offset = self.offset - offset;
    }

    /// The absolute position of a relative offset: cursor plus offset.
    fn pos(&self, offset: usize) -> (r: usize)
        requires
            self.spec_offset() + offset <= self.bytes().len(),
        ensures
            r == self.spec_offset() + offset,
    {
        let cap = self.buffer.len();
        self.offset + offset
    }

    /// Store one byte at an absolute position.
    fn put(&mut self, at: usize, value: u8)
        requires
            at < old(self).bytes().len(),
        ensures
            final(self).bytes() == splice(old(self).bytes(), at as int, seq![value]),
            final(self).spec_size() == old(self).spec_size(),
            final(self).spec_offset() == old(self).spec_offset(),
    {
        self.buffer[at] = value;
        proof {
            assert(final(self).bytes() =~= splice(old(self).bytes(), at as int, seq![value]));
        }
    }

    /// Store a short run of bytes at an absolute position.
    fn put_slice(&mut self, at: usize, bytes: &[u8])
        requires
            at + bytes@.len() <= old(self).bytes().len(),
        ensures
            final(self).bytes() == splice(old(self).bytes(), at as int, bytes@),
            final(self).spec_size() == old(self).spec_size(),
            final(self).spec_offset() == old(self).spec_offset(),
    {
        let n = bytes.len();
        let cap = self.buffer.len();
        let mut i: usize = 0;
        while i < n
            invariant
                n == bytes@.len(),
                0 <= i <= n,
                at + n <= cap,
                cap == self.bytes().len(),
                self.bytes() =~= splice(old(self).bytes(), at as int, bytes@.take(i as int)),
                self.spec_size() == old(self).spec_size(),
                self.spec_offset() == old(self).spec_offset(),
            decreases n - i,
        {
            let b = bytes[i];
            self.put(at + i, b);
            proof {
                assert(self.bytes() =~= splice(old(self).bytes(), at as int, bytes@.take(i + 1)));
            }
            i = i + 1;
        }
        proof {
            assert(bytes@.take(n as int) =~= bytes@);
        }
    }

    // Write primitive types
    pub fn write_u8(&mut self, offset: usize, value: u8)
        requires
            old(self).spec_offset() + offset < old(self).bytes().len(),
        ensures
            final(self).bytes() == splice(
                old(self).bytes(),
                old(self).spec_offset() + offset,
                seq![value],
            ),
            final(self).spec_size() == old(self).spec_size(),
            final(self).spec_offset() == old(self).spec_offset(),
    {
        let at = self.pos(offset);
        self.put(at, value);
    }

    pub fn write_byte(&mut self, offset: usize, value: u8)
        requires
            old(self).spec_offset() + offset < old(self).bytes().len(),
        ensures
            final(self).bytes() == splice(
                old(self).bytes(),
                old(self).spec_offset() + offset,
                seq![value],
            ),
            final(self).spec_size() == old(self).spec_size(),
            final(self).spec_offset() == old(self).spec_offset(),
    {
        self.write_u8(offset, value);
    }

    pub fn write_char(&mut self, offset: usize, value: u8)
        requires
            old(self).spec_offset() + offset < old(self).bytes().len(),
        ensures
            final(self).bytes() == splice(
                old(self).bytes(),
                old(self).spec_offset() + offset,
                seq![value],
            ),
            final(self).spec_size() == old(self).spec_size(),
            final(self).spec_offset() == old(self).spec_offset(),
    {
        let at = self.pos(offset);
        self.put(at, value);
    }

    pub fn write_bool(&mut self, offset: usize, value: bool)
        requires
            old(self).spec_offset() + offset < old(self).bytes().len(),
        ensures
            final(self).bytes() == splice(
                old(self).bytes(),
                old(self).spec_offset() + offset,
                enc_bool(value),
            ),
            final(self).spec_size() == old(self).spec_size(),
            final(self).spec_offset() == old(self).spec_offset(),
    {
        let at = self.pos(offset);
        self.put(at, if value { 1 } else { 0 });
    }

    pub fn write_i8(&mut self, offset: usize, value: i8)
        requires
            old(self).spec_offset() + offset < old(self).bytes().len(),
        ensures
            final(self).bytes() == splice(
                old(self).bytes(),
                old(self).spec_offset() + offset,
                seq![value as u8],
            ),
            final(self).spec_size() == old(self).spec_size(),
            final(self).spec_offset() == old(self).spec_offset(),
    {
        let at = self.pos(offset);
        self.put(at, #[verifier::truncate] (value as u8));
    }

    pub fn write_u16(&mut self, offset: usize, value: u16)
        requires
            old(self).spec_offset() + offset + 2 <= old(self).bytes().len(),
        ensures
            final(self).bytes() == splice(
                old(self).bytes(),
                old(self).spec_offset() + offset,
                spec_u16_to_le_bytes(value),
            ),
            final(self).spec_size() == old(self).spec_size(),
            final(self).spec_offset() == old(self).spec_offset(),
    {
        let bs = vstd::bytes::u16_to_le_bytes(value);
        proof {
            vstd::bytes::lemma_auto_spec_u16_to_from_le_bytes();
        }
        let at = self.pos(offset);
        self.put_slice(at, bs.as_slice());
    }

    pub fn write_i16(&mut self, offset: usize, value: i16)
        requires
            old(self).spec_offset() + offset + 2 <= old(self).bytes().len(),
        ensures
            final(self).bytes() == splice(
                old(self).bytes(),
                old(self).spec_offset() + offset,
                spec_u16_to_le_bytes(value as u16),
            ),
            final(self).spec_size() == old(self).spec_size(),
            final(self).spec_offset() == old(self).spec_offset(),
    {
        self.write_u16(offset, #[verifier::truncate] (value as u16));
    }

    pub fn write_u32(&mut self, offset: usize, value: u32)
        requires
            old(self).spec_offset() + offset + 4 <= old(self).bytes().len(),
        ensures
            final(self).bytes() == splice(
                old(self).bytes(),
                old(self).spec_offset() + offset,
                spec_u32_to_le_bytes(value),
            ),
            final(self).spec_size() == old(self).spec_size(),
            final(self).spec_offset() == old(self).spec_offset(),
    {
        let bs = vstd::bytes::u32_to_le_bytes(value);
        proof {
            vstd::bytes::lemma_auto_spec_u32_to_from_le_bytes();
        }
        let at = self.pos(offset);
        self.put_slice(at, bs.as_slice());
    }

    pub fn write_i32(&mut self, offset: usize, value: i32)
        requires
            old(self).spec_offset() + offset + 4 <= old(self).bytes().len(),
        ensures
            final(self).bytes() == splice(
                old(self).bytes(),
                old(self).spec_offset() + offset,
                spec_u32_to_le_bytes(value as u32),
            ),
            final(self).spec_size() == old(self).spec_size(),
            final(self).spec_offset() == old(self).spec_offset(),
    {
        self.write_u32(offset, #[verifier::truncate] (value as u32));
    }

    pub fn write_wchar(&mut self, offset: usize, value: u32)
        requires
            old(self).spec_offset() + offset + 4 <= old(self).bytes().len(),
        ensures
            final(self).bytes() == splice(
                old(self).bytes(),
                old(self).spec_offset() + offset,
                spec_u32_to_le_bytes(value),
            ),
            final(self).spec_size() == old(self).spec_size(),
            final(self).spec_offset() == old(self).spec_offset(),
    {
        self.write_u32(offset, value);
    }

    pub fn write_u64(&mut self, offset: usize, value: u64)
        requires
            old(self).spec_offset() + offset + 8 <= old(self).bytes().len(),
        ensures
            final(self).bytes() == splice(
                old(self).bytes(),
                old(self).spec_offset() + offset,
                spec_u64_to_le_bytes(value),
            ),
            final(self).spec_size() == old(self).spec_size(),
            final(self).spec_offset() == old(self).spec_offset(),
    {
        let bs = vstd::bytes::u64_to_le_bytes(value);
        proof {
            vstd::bytes::lemma_auto_spec_u64_to_from_le_bytes();
        }
        let at = self.pos(offset);
        self.put_slice(at, bs.as_slice());
    }

    pub fn write_i64(&mut self, offset: usize, value: i64)
        requires
            old(self).spec_offset() + offset + 8 <= old(self).bytes().len(),
        ensures
            final(self).bytes() == splice(
                old(self).bytes(),
                old(self).spec_offset() + offset,
                spec_u64_to_le_bytes(value as u64),
            ),
            final(self).spec_size() == old(self).spec_size(),
            final(self).spec_offset() == old(self).spec_offset(),
    {
        self.write_u64(offset, #[verifier::truncate] (value as u64));
    }

    /// Write timestamp as uint64 (nanoseconds since epoch)
    pub fn write_timestamp(&mut self, offset: usize, value: u64)
        requires
            old(self).spec_offset() + offset + 8 <= old(self).bytes().len(),
        ensures
            final(self).bytes() == splice(
                old(self).bytes(),
                old(self).spec_offset() + offset,
                spec_u64_to_le_bytes(value),
            ),
            final(self).spec_size() == old(self).spec_size(),
            final(self).spec_offset() == old(self).spec_offset(),
    {
        self.write_u64(offset, value);
    }

    /// Write vector of i32 values: a 4-byte relative pointer at the field's
    /// position, leading to an appended block of a 4-byte count and the
    /// elements
    pub fn write_vector_i32(&mut self, offset: usize, values: &[i32]) -> (r: usize)
        requires
            old(self).wf(),
            old(self).spec_offset() + offset + 4 <= old(self).spec_size(),
            old(self).spec_size() + 4 + 4 * values@.len() <= u32::MAX,
        ensures
            r == 4 + 4 * values@.len(),
            final(self).spec_size() == old(self).spec_size() + 4 + 4 * values@.len(),
            final(self).spec_offset() == old(self).spec_offset(),
            final(self).bytes() == splice(
                splice(
                    grown(old(self).bytes(), old(self).spec_size() + 4 + 4 * values@.len()),
                    old(self).spec_offset() + offset,
                    spec_u32_to_le_bytes((old(self).spec_size() - old(self).spec_offset()) as u32),
                ),
                old(self).spec_size(),
                crate::wire::enc_vector_i32(values@),
            ),
            final(self).wf(),
    {
        proof {
            vstd::bytes::lemma_auto_spec_u32_to_from_le_bytes();
        }
        let len = values.len();
        let data_size = 4 + len * 4;
        let data_offset = self.allocate(data_size);
        let ghost g = grown(old(self).bytes(), old(self).spec_size() + 4 + 4 * values@.len());
        let cap = self.buffer.len();
        let base = self.offset;
        self.write_u32(offset, (data_offset - base) as u32);
        let ghost ptr_bytes = spec_u32_to_le_bytes(
            (old(self).spec_size() - old(self).spec_offset()) as u32,
        );
        let count_bytes = vstd::bytes::u32_to_le_bytes(len as u32);
        self.put_slice(data_offset, count_bytes.as_slice());
        proof {
            assert(self.bytes() =~= splice(
                splice(g, base + offset, ptr_bytes),
                data_offset as int,
                spec_u32_to_le_bytes(len as u32) + crate::wire::enc_i32_elems(
                    values@.take(0),
                ),
            ));
        }
        let mut i: usize = 0;
        while i < len
            invariant
                0 <= i <= len,
                len == values@.len(),
                cap == self.bytes().len(),
                g.len() == cap,
                base == old(self).spec_offset(),
                data_offset == old(self).spec_size(),
                base + offset + 4 <= data_offset,
                data_offset + 4 + 4 * len <= cap,
                ptr_bytes == spec_u32_to_le_bytes((data_offset - base) as u32),
                ptr_bytes.len() == 4,
                self.spec_size() == data_offset + 4 + 4 * len,
                self.spec_offset() == base,
                self.bytes() =~= splice(
                    splice(g, base + offset, ptr_bytes),
                    data_offset as int,
                    spec_u32_to_le_bytes(len as u32) + crate::wire::enc_i32_elems(
                        values@.take(i as int),
                    ),
                ),
            decreases len - i,
        {
            let v = values[i];
            let elem_bytes = vstd::bytes::u32_to_le_bytes(#[verifier::truncate] (v as u32));
            self.put_slice(data_offset + 4 + i * 4, elem_bytes.as_slice());
            proof {
                vstd::bytes::lemma_auto_spec_u32_to_from_le_bytes();
                crate::wire::lemma_enc_i32_elems_len(values@.take(i as int));
                crate::wire::lemma_enc_i32_elems_push(values@.take(i as int), v);
                assert(values@.take(i + 1) =~= values@.take(i as int).push(v));
                assert(self.bytes() =~= splice(
                    splice(g, base + offset, ptr_bytes),
                    data_offset as int,
                    spec_u32_to_le_bytes(len as u32) + crate::wire::enc_i32_elems(
                        values@.take(i + 1),
                    ),
                ));
            }
            i = i + 1;
        }
        proof {
            assert(values@.take(len as int) =~= values@);
        }
        data_size
    }

    /// Write list of i32 values: the linked list shares the vector's wire
    /// format
    pub fn write_list_i32(&mut self, offset: usize, values: &[i32]) -> (r: usize)
        requires
            old(self).wf(),
            old(self).spec_offset() + offset + 4 <= old(self).spec_size(),
            old(self).spec_size() + 4 + 4 * values@.len() <= u32::MAX,
        ensures
            r == 4 + 4 * values@.len(),
            final(self).spec_size() == old(self).spec_size() + 4 + 4 * values@.len(),
            final(self).spec_offset() == old(self).spec_offset(),
            final(self).bytes() == splice(
                splice(
                    grown(old(self).bytes(), old(self).spec_size() + 4 + 4 * values@.len()),
                    old(self).spec_offset() + offset,
                    spec_u32_to_le_bytes((old(self).spec_size() - old(self).spec_offset()) as u32),
                ),
                old(self).spec_size(),
                crate::wire::enc_vector_i32(values@),
            ),
            final(self).wf(),
    {
        self.write_vector_i32(offset, values)
    }

    /// Write set of i32 values: the set shares the vector's wire format;
    /// uniqueness is the caller's business
    pub fn write_set_i32(&mut self, offset: usize, values: &[i32]) -> (r: usize)
        requires
            old(self).wf(),
            old(self).spec_offset() + offset + 4 <= old(self).spec_size(),
            old(self).spec_size() + 4 + 4 * values@.len() <= u32::MAX,
        ensures
            r == 4 + 4 * values@.len(),
            final(self).spec_size() == old(self).spec_size() + 4 + 4 * values@.len(),
            final(self).spec_offset() == old(self).spec_offset(),
            final(self).bytes() == splice(
                splice(
                    grown(old(self).bytes(), old(self).spec_size() + 4 + 4 * values@.len()),
                    old(self).spec_offset() + offset,
                    spec_u32_to_le_bytes((old(self).spec_size() - old(self).spec_offset()) as u32),
                ),
                old(self).spec_size(),
                crate::wire::enc_vector_i32(values@),
            ),
            final(self).wf(),
    {
        self.write_vector_i32(offset, values)
    }

    /// Write fixed-size array of i32 values inline: elements only, no pointer
    /// and no count
    pub fn write_array_i32(&mut self, offset: usize, values: &[i32])
        requires
            old(self).spec_offset() + offset + 4 * values@.len() <= old(self).bytes().len(),
        ensures
            final(self).bytes() == splice(
                old(self).bytes(),
                old(self).spec_offset() + offset,
                crate::wire::enc_i32_elems(values@),
            ),
            final(self).spec_size() == old(self).spec_size(),
            final(self).spec_offset() == old(self).spec_offset(),
    {
        let cap = self.buffer.len();
        let at = self.pos(offset);
        let len = values.len();
        proof {
            crate::wire::lemma_enc_i32_elems_len(values@);
        }
        let mut i: usize = 0;
        while i < len
            invariant
                0 <= i <= len,
                len == values@.len(),
                cap == self.bytes().len(),
                at == old(self).spec_offset() + offset,
                at + 4 * len <= cap,
                self.spec_size() == old(self).spec_size(),
                self.spec_offset() == old(self).spec_offset(),
                self.bytes() =~= splice(
                    old(self).bytes(),
                    at as int,
                    crate::wire::enc_i32_elems(values@.take(i as int)),
                ),
            decreases len - i,
        {
            let v = values[i];
            let elem_bytes = vstd::bytes::u32_to_le_bytes(#[verifier::truncate] (v as u32));
            self.put_slice(at + i * 4, elem_bytes.as_slice());
            proof {
                vstd::bytes::lemma_auto_spec_u32_to_from_le_bytes();
                crate::wire::lemma_enc_i32_elems_len(values@.take(i as int));
                crate::wire::lemma_enc_i32_elems_push(values@.take(i as int), v);
                assert(values@.take(i + 1) =~= values@.take(i as int).push(v));
                assert(self.bytes() =~= splice(
                    old(self).bytes(),
                    at as int,
                    crate::wire::enc_i32_elems(values@.take(i + 1)),
                ));
            }
            i = i + 1;
        }
        proof {
            assert(values@.take(len as int) =~= values@);
        }
    }

    /// Write map of i32 key-value pairs: a 4-byte relative pointer to an
    /// appended block of a 4-byte count and the key-value pairs
    pub fn write_map_i32(&mut self, offset: usize, entries: &[(i32, i32)]) -> (r: usize)
        requires
            old(self).wf(),
            old(self).spec_offset() + offset + 4 <= old(self).spec_size(),
            old(self).spec_size() + 4 + 8 * entries@.len() <= u32::MAX,
        ensures
            r == 4 + 8 * entries@.len(),
            final(self).spec_size() == old(self).spec_size() + 4 + 8 * entries@.len(),
            final(self).spec_offset() == old(self).spec_offset(),
            final(self).bytes() == splice(
                splice(
                    grown(old(self).bytes(), old(self).spec_size() + 4 + 8 * entries@.len()),
                    old(self).spec_offset() + offset,
                    spec_u32_to_le_bytes((old(self).spec_size() - old(self).spec_offset()) as u32),
                ),
                old(self).spec_size(),
                crate::wire::enc_map_i32(entries@),
            ),
            final(self).wf(),
    {
        proof {
            vstd::bytes::lemma_auto_spec_u32_to_from_le_bytes();
        }
        let len = entries.len();
        let data_size = 4 + len * 8;
        let data_offset = self.allocate(data_size);
        let ghost g = grown(old(self).bytes(), old(self).spec_size() + 4 + 8 * entries@.len());
        let cap = self.buffer.len();
        let base = self.offset;
        self.write_u32(offset, (data_offset - base) as u32);
        let ghost ptr_bytes = spec_u32_to_le_bytes(
            (old(self).spec_size() - old(self).spec_offset()) as u32,
        );
        let count_bytes = vstd::bytes::u32_to_le_bytes(len as u32);
        self.put_slice(data_offset, count_bytes.as_slice());
        proof {
            assert(self.bytes() =~= splice(
                splice(g, base + offset, ptr_bytes),
                data_offset as int,
                spec_u32_to_le_bytes(len as u32) + crate::wire::enc_i32_pairs(
                    entries@.take(0),
                ),
            ));
        }
        let mut i: usize = 0;
        while i < len
            invariant
                0 <= i <= len,
                len == entries@.len(),
                cap == self.bytes().len(),
                g.len() == cap,
                base == old(self).spec_offset(),
                data_offset == old(self).spec_size(),
                base + offset + 4 <= data_offset,
                data_offset + 4 + 8 * len <= cap,
                ptr_bytes == spec_u32_to_le_bytes((data_offset - base) as u32),
                ptr_bytes.len() == 4,
                self.spec_size() == data_offset + 4 + 8 * len,
                self.spec_offset() == base,
                self.bytes() =~= splice(
                    splice(g, base + offset, ptr_bytes),
                    data_offset as int,
                    spec_u32_to_le_bytes(len as u32) + crate::wire::enc_i32_pairs(
                        entries@.take(i as int),
                    ),
                ),
            decreases len - i,
        {
            let (k, v) = entries[i];
            let key_bytes = vstd::bytes::u32_to_le_bytes(#[verifier::truncate] (k as u32));
            self.put_slice(data_offset + 4 + i * 8, key_bytes.as_slice());
            let val_bytes = vstd::bytes::u32_to_le_bytes(#[verifier::truncate] (v as u32));
            self.put_slice(data_offset + 4 + i * 8 + 4, val_bytes.as_slice());
            proof {
                vstd::bytes::lemma_auto_spec_u32_to_from_le_bytes();
                crate::wire::lemma_enc_i32_pairs_len(entries@.take(i as int));
                crate::wire::lemma_enc_i32_pairs_push(entries@.take(i as int), (k, v));
                assert(entries@.take(i + 1) =~= entries@.take(i as int).push((k, v)));
                assert(self.bytes() =~= splice(
                    splice(g, base + offset, ptr_bytes),
                    data_offset as int,
                    spec_u32_to_le_bytes(len as u32) + crate::wire::enc_i32_pairs(
                        entries@.take(i + 1),
                    ),
                ));
            }
            i = i + 1;
        }
        proof {
            assert(entries@.take(len as int) =~= entries@);
        }
        data_size
    }

    /// Write vector of strings: a 4-byte relative pointer to an appended
    /// block of a 4-byte count and the length-prefixed strings
    pub fn write_vector_string(&mut self, offset: usize, values: &[String]) -> (r: usize)
        requires
            old(self).wf(),
            old(self).spec_offset() + offset + 4 <= old(self).spec_size(),
            old(self).spec_size() + crate::wire::enc_vector_string(
                crate::wire::strings_bytes(values@),
            ).len() <= u32::MAX,
            forall|i: int|
                0 <= i < values@.len() ==> #[trigger] crate::wire::strings_bytes(
                    values@,
                )[i].len() <= i32::MAX,
        ensures
            r == crate::wire::enc_vector_string(crate::wire::strings_bytes(values@)).len(),
            final(self).spec_size() == old(self).spec_size() + r,
            final(self).spec_offset() == old(self).spec_offset(),
            final(self).bytes() == splice(
                splice(
                    grown(
                        old(self).bytes(),
                        old(self).spec_size() + crate::wire::enc_vector_string(
                            crate::wire::strings_bytes(values@),
                        ).len(),
                    ),
                    old(self).spec_offset() + offset,
                    spec_u32_to_le_bytes((old(self).spec_size() - old(self).spec_offset()) as u32),
                ),
                old(self).spec_size(),
                crate::wire::enc_vector_string(crate::wire::strings_bytes(values@)),
            ),
            final(self).wf(),
    {
        proof {
            vstd::bytes::lemma_auto_spec_u32_to_from_le_bytes();
        }
        let ghost sb = crate::wire::strings_bytes(values@);
        let len = values.len();
        let mut data_size: usize = 4;
        let mut i: usize = 0;
        while i < len
            invariant
                0 <= i <= len,
                len == values@.len(),
                sb == crate::wire::strings_bytes(values@),
                data_size == 4 + crate::wire::enc_string_elems(sb.take(i as int)).len(),
                4 + crate::wire::enc_string_elems(sb).len() <= u32::MAX,
            decreases len - i,
        {
            let s = &values[i];
            proof {
                vstd::bytes::lemma_auto_spec_u32_to_from_le_bytes();
                assert(sb.take(i + 1) =~= sb.take(i as int).push(sb[i as int]));
                crate::wire::lemma_enc_string_elems_push(sb.take(i as int), sb[i as int]);
                crate::wire::lemma_enc_string_elems_take_le(sb, i + 1);
            }
            data_size = data_size + (4 + s.as_str().len());
            i = i + 1;
        }
        proof {
            assert(sb.take(len as int) =~= sb);
        }
        let data_offset = self.allocate(data_size);
        let ghost g = grown(old(self).bytes(), old(self).spec_size() + data_size as int);
        let cap = self.buffer.len();
        let base = self.offset;
        self.write_u32(offset, (data_offset - base) as u32);
        let ghost ptr_bytes = spec_u32_to_le_bytes(
            (old(self).spec_size() - old(self).spec_offset()) as u32,
        );
        let count_bytes = vstd::bytes::u32_to_le_bytes(len as u32);
        self.put_slice(data_offset, count_bytes.as_slice());
        proof {
            assert(self.bytes() =~= splice(
                splice(g, base + offset, ptr_bytes),
                data_offset as int,
                spec_u32_to_le_bytes(len as u32) + crate::wire::enc_string_elems(sb.take(0)),
            ));
        }
        let mut current: usize = data_offset + 4;
        let mut j: usize = 0;
        while j < len
            invariant
                0 <= j <= len,
                len == values@.len(),
                sb == crate::wire::strings_bytes(values@),
                forall|k: int| 0 <= k < len ==> #[trigger] sb[k].len() <= i32::MAX,
                cap == self.bytes().len(),
                g.len() == cap,
                base == old(self).spec_offset(),
                data_offset == old(self).spec_size(),
                base + offset + 4 <= data_offset,
                data_offset + 4 + crate::wire::enc_string_elems(sb).len() <= cap,
                current == data_offset + 4 + crate::wire::enc_string_elems(
                    sb.take(j as int),
                ).len(),
                ptr_bytes == spec_u32_to_le_bytes((data_offset - base) as u32),
                ptr_bytes.len() == 4,
                self.spec_size() == data_offset + 4 + crate::wire::enc_string_elems(sb).len(),
                self.spec_offset() == base,
                self.bytes() =~= splice(
                    splice(g, base + offset, ptr_bytes),
                    data_offset as int,
                    spec_u32_to_le_bytes(len as u32) + crate::wire::enc_string_elems(
                        sb.take(j as int),
                    ),
                ),
            decreases len - j,
        {
            let s = &values[j];
            proof {
                vstd::bytes::lemma_auto_spec_u32_to_from_le_bytes();
                assert(sb.take(j + 1) =~= sb.take(j as int).push(sb[j as int]));
                crate::wire::lemma_enc_string_elems_push(sb.take(j as int), sb[j as int]);
                crate::wire::lemma_enc_string_elems_take_le(sb, j + 1);
                assert(vstd::utf8::encode_utf8(s@) == sb[j as int]);
            }
            self.write_string(current - base, s.as_str());
            proof {
                assert(self.bytes() =~= splice(
                    splice(g, base + offset, ptr_bytes),
                    data_offset as int,
                    spec_u32_to_le_bytes(len as u32) + crate::wire::enc_string_elems(
                        sb.take(j + 1),
                    ),
                ));
            }
            current = current + (4 + s.as_str().len());
            j = j + 1;
        }
        proof {
            assert(sb.take(len as int) =~= sb);
        }
        data_size
    }

    /// Write fixed-size array of strings inline: the length-prefixed strings
    /// back to back, no pointer and no count; returns the bytes written
    pub fn write_array_string(&mut self, offset: usize, values: &[String]) -> (r: usize)
        requires
            old(self).spec_offset() + offset + crate::wire::enc_string_elems(
                crate::wire::strings_bytes(values@),
            ).len() <= old(self).bytes().len(),
            forall|i: int|
                0 <= i < values@.len() ==> #[trigger] crate::wire::strings_bytes(
                    values@,
                )[i].len() <= i32::MAX,
        ensures
            r == crate::wire::enc_string_elems(crate::wire::strings_bytes(values@)).len(),
            final(self).bytes() == splice(
                old(self).bytes(),
                old(self).spec_offset() + offset,
                crate::wire::enc_string_elems(crate::wire::strings_bytes(values@)),
            ),
            final(self).spec_size() == old(self).spec_size(),
            final(self).spec_offset() == old(self).spec_offset(),
    {
        let ghost sb = crate::wire::strings_bytes(values@);
        let cap = self.buffer.len();
        let at = self.pos(offset);
        let base = self.offset;
        let len = values.len();
        let mut current: usize = at;
        let mut i: usize = 0;
        while i < len
            invariant
                0 <= i <= len,
                len == values@.len(),
                sb == crate::wire::strings_bytes(values@),
                forall|k: int| 0 <= k < len ==> #[trigger] sb[k].len() <= i32::MAX,
                cap == self.bytes().len(),
                at == old(self).spec_offset() + offset,
                base == old(self).spec_offset(),
                at + crate::wire::enc_string_elems(sb).len() <= cap,
                current == at + crate::wire::enc_string_elems(sb.take(i as int)).len(),
                self.spec_size() == old(self).spec_size(),
                self.spec_offset() == base,
                self.bytes() =~= splice(
                    old(self).bytes(),
                    at as int,
                    crate::wire::enc_string_elems(sb.take(i as int)),
                ),
            decreases len - i,
        {
            let s = &values[i];
            proof {
                vstd::bytes::lemma_auto_spec_u32_to_from_le_bytes();
                assert(sb.take(i + 1) =~= sb.take(i as int).push(sb[i as int]));
                crate::wire::lemma_enc_string_elems_push(sb.take(i as int), sb[i as int]);
                crate::wire::lemma_enc_string_elems_take_le(sb, i + 1);
                assert(vstd::utf8::encode_utf8(s@) == sb[i as int]);
            }
            self.write_string(current - base, s.as_str());
            proof {
                assert(self.bytes() =~= splice(
                    old(self).bytes(),
                    at as int,
                    crate::wire::enc_string_elems(sb.take(i + 1)),
                ));
            }
            current = current + (4 + s.as_str().len());
            i = i + 1;
        }
        proof {
            assert(sb.take(len as int) =~= sb);
        }
        current - at
    }

    /// Write an optional i32 in the pointer-based layout: one flag byte;
    /// when present, a 4-byte pointer to an appended 4-byte value
    pub fn write_optional_i32(&mut self, offset: usize, value: Option<i32>)
        requires
            old(self).wf(),
            old(self).spec_offset() + offset + 1 <= old(self).spec_size(),
            value.is_some() ==> old(self).spec_offset() == 0 && offset + 5 <= old(
                self,
            ).spec_size() && old(self).spec_size() + 4 <= u32::MAX,
        ensures
            value.is_none() ==> final(self).bytes() == splice(
                old(self).bytes(),
                old(self).spec_offset() + offset,
                enc_bool(false),
            ) && final(self).spec_size() == old(self).spec_size(),
            value.is_some() ==> final(self).bytes() == splice(
                splice(
                    splice(
                        grown(old(self).bytes(), old(self).spec_size() + 4),
                        offset as int,
                        enc_bool(true),
                    ),
                    offset + 1,
                    spec_u32_to_le_bytes(old(self).spec_size() as u32),
                ),
                old(self).spec_size(),
                spec_u32_to_le_bytes(value.unwrap() as u32),
            ) && final(self).spec_size() == old(self).spec_size() + 4,
            final(self).spec_offset() == old(self).spec_offset(),
            final(self).wf(),
    {
        match value {
            None => self.write_u8(offset, 0),
            Some(v) => {
                self.write_u8(offset, 1);
                let data_offset = self.allocate(4);
                self.write_u32(offset + 1, data_offset as u32);
                self.write_i32(data_offset, v);
                proof {
                    vstd::bytes::lemma_auto_spec_u32_to_from_le_bytes();
                    assert(final(self).bytes() =~= splice(
                        splice(
                            splice(
                                grown(old(self).bytes(), old(self).spec_size() + 4),
                                offset as int,
                                enc_bool(true),
                            ),
                            offset + 1,
                            spec_u32_to_le_bytes(old(self).spec_size() as u32),
                        ),
                        old(self).spec_size(),
                        spec_u32_to_le_bytes(v as u32),
                    ));
                }
            },
        }
    }

    /// Write an optional string in the pointer-based layout: one flag byte;
    /// when present, a 4-byte pointer to an appended length-prefixed string
    pub fn write_optional_string(&mut self, offset: usize, value: Option<&str>)
        requires
            old(self).wf(),
            old(self).spec_offset() + offset + 1 <= old(self).spec_size(),
            value.is_some() ==> old(self).spec_offset() == 0 && offset + 5 <= old(
                self,
            ).spec_size() && old(self).spec_size() + 4 + value.unwrap().spec_bytes().len()
                <= u32::MAX && value.unwrap().spec_bytes().len() <= i32::MAX,
        ensures
            value.is_none() ==> final(self).bytes() == splice(
                old(self).bytes(),
                old(self).spec_offset() + offset,
                enc_bool(false),
            ) && final(self).spec_size() == old(self).spec_size(),
            value.is_some() ==> final(self).bytes() == splice(
                splice(
                    splice(
                        grown(
                            old(self).bytes(),
                            old(self).spec_size() + 4 + value.unwrap().spec_bytes().len(),
                        ),
                        offset as int,
                        enc_bool(true),
                    ),
                    offset + 1,
                    spec_u32_to_le_bytes(old(self).spec_size() as u32),
                ),
                old(self).spec_size(),
                enc_block(value.unwrap().spec_bytes()),
            ) && final(self).spec_size() == old(self).spec_size() + 4
                + value.unwrap().spec_bytes().len(),
            final(self).spec_offset() == old(self).spec_offset(),
            final(self).wf(),
    {
        match value {
            None => self.write_u8(offset, 0),
            Some(v) => {
                self.write_u8(offset, 1);
                let len = v.as_bytes().len();
                let data_offset = self.allocate(4 + len);
                self.write_u32(offset + 1, data_offset as u32);
                self.write_string(data_offset, v);
                proof {
                    vstd::bytes::lemma_auto_spec_u32_to_from_le_bytes();
                    assert(final(self).bytes() =~= splice(
                        splice(
                            splice(
                                grown(old(self).bytes(), old(self).spec_size() + 4 + len),
                                offset as int,
                                enc_bool(true),
                            ),
                            offset + 1,
                            spec_u32_to_le_bytes(old(self).spec_size() as u32),
                        ),
                        old(self).spec_size(),
                        enc_block(v.spec_bytes()),
                    ));
                }
            },
        }
    }

    /// Write an optional i32 in the inline (final) layout: one flag byte,
    /// then the 4-byte value itself when present; returns the bytes written
    pub fn write_optional_i32_final(&mut self, offset: usize, value: Option<i32>) -> (r: usize)
        requires
            old(self).spec_offset() + offset + 1 <= old(self).bytes().len(),
            value.is_some() ==> old(self).spec_offset() + offset + 5 <= old(self).bytes().len(),
        ensures
            value.is_none() ==> r == 1 && final(self).bytes() == splice(
                old(self).bytes(),
                old(self).spec_offset() + offset,
                enc_bool(false),
            ),
            value.is_some() ==> r == 5 && final(self).bytes() == splice(
                old(self).bytes(),
                old(self).spec_offset() + offset,
                enc_bool(true) + spec_u32_to_le_bytes(value.unwrap() as u32),
            ),
            final(self).spec_size() == old(self).spec_size(),
            final(self).spec_offset() == old(self).spec_offset(),
    {
        match value {
            None => {
                self.write_u8(offset, 0);
                1
            },
            Some(v) => {
                let cap = self.buffer.len();
                self.write_u8(offset, 1);
                self.write_i32(offset + 1, v);
                proof {
                    vstd::bytes::lemma_auto_spec_u32_to_from_le_bytes();
                    assert(final(self).bytes() =~= splice(
                        old(self).bytes(),
                        old(self).spec_offset() + offset,
                        enc_bool(true) + spec_u32_to_le_bytes(v as u32),
                    ));
                }
                5
            },
        }
    }

    /// Write bytes (a 4-byte length prefix, then the raw payload)
    pub fn write_bytes(&mut self, offset: usize, value: &[u8])
        requires
            old(self).spec_offset() + offset + 4 + value@.len() <= old(self).bytes().len(),
            value@.len() <= i32::MAX,
        ensures
            final(self).bytes() == splice(
                old(self).bytes(),
                old(self).spec_offset() + offset,
                enc_block(value@),
            ),
            final(self).spec_size() == old(self).spec_size(),
            final(self).spec_offset() == old(self).spec_offset(),
    {
        let cap = self.buffer.len();
        let at = self.pos(offset);
        let len = value.len();
        self.write_u32(offset, len as u32);
        self.put_slice(at + 4, value);
        proof {
            vstd::bytes::lemma_auto_spec_u32_to_from_le_bytes();
            assert(final(self).bytes() =~= splice(
                old(self).bytes(),
                old(self).spec_offset() + offset,
                enc_block(value@),
            ));
        }
    }

    /// Write a string: a 4-byte length prefix, then the UTF-8 bytes, with no
    /// terminator
    pub fn write_string(&mut self, offset: usize, value: &str)
        requires
            old(self).spec_offset() + offset + 4 + value.spec_bytes().len() <= old(
                self,
            ).bytes().len(),
            value.spec_bytes().len() <= i32::MAX,
        ensures
            final(self).bytes() == splice(
                old(self).bytes(),
                old(self).spec_offset() + offset,
                enc_block(value.spec_bytes()),
            ),
            final(self).spec_size() == old(self).spec_size(),
            final(self).spec_offset() == old(self).spec_offset(),
    {
        self.write_bytes(offset, value.as_bytes());
    }

    /// Write decimal as 16 bytes: little-endian 96-bit unscaled magnitude,
    /// two reserved zero bytes, the scale, and the sign flag
    pub fn write_decimal(&mut self, offset: usize, value: i128, scale: u8, negative: bool)
        requires
            old(self).spec_offset() + offset + 16 <= old(self).bytes().len(),
        ensures
            final(self).bytes() == splice(
                old(self).bytes(),
                old(self).spec_offset() + offset,
                enc_decimal(value, scale, negative),
            ),
            final(self).spec_size() == old(self).spec_size(),
            final(self).spec_offset() == old(self).spec_offset(),
    {
        let cap = self.buffer.len();
        let at = self.pos(offset);
        let lo = vstd::bytes::u64_to_le_bytes(#[verifier::truncate] (value as u64));
        let hi = vstd::bytes::u32_to_le_bytes(#[verifier::truncate] ((value >> 64u32) as u32));
        proof {
            vstd::bytes::lemma_auto_spec_u64_to_from_le_bytes();
            vstd::bytes::lemma_auto_spec_u32_to_from_le_bytes();
        }
        self.put_slice(at, lo.as_slice());
        self.put_slice(at + 8, hi.as_slice());
        self.put(at + 12, 0);
        self.put(at + 13, 0);
        self.put(at + 14, scale);
        self.put(at + 15, if negative { 0x80 } else { 0x00 });
        proof {
            assert(final(self).bytes() =~= splice(
                old(self).bytes(),
                old(self).spec_offset() + offset,
                enc_decimal(value, scale, negative),
            ));
        }
    }

    /// Write UUID as 16 raw bytes
    pub fn write_uuid(&mut self, offset: usize, value: &[u8; 16])
        requires
            old(self).spec_offset() + offset + 16 <= old(self).bytes().len(),
        ensures
            final(self).bytes() == splice(
                old(self).bytes(),
                old(self).spec_offset() + offset,
                value@,
            ),
            final(self).spec_size() == old(self).spec_size(),
            final(self).spec_offset() == old(self).spec_offset(),
    {
        let at = self.pos(offset);
        self.put_slice(at, value.as_slice());
    }
}

/// What `String::from_utf8_lossy` makes of a byte sequence: its result
/// depends on the bytes alone.
pub uninterp spec fn lossy_decode(bytes: Seq<u8>) -> Seq<char>;

/// Relies on `String::from_utf8_lossy`: valid UTF-8 converts losslessly,
/// invalid sequences are replaced deterministically.
#[verifier::external_body]
fn string_from_utf8_lossy(bytes: &[u8]) -> (r: String)
    ensures
        r@ == lossy_decode(bytes@),
        vstd::utf8::valid_utf8(bytes@) ==> r@ == vstd::utf8::decode_utf8(bytes@),
{
    String::from_utf8_lossy(bytes).to_string()
}

/// Read buffer: attached bytes, a logical size, and a cursor `offset` added
/// to every relative access.
///
/// Invariant (`wf`): `offset <= size <= capacity`.
pub struct ReadBuffer {
    buffer: Vec<u8>,
    size: usize,
    offset: usize,
}

impl ReadBuffer {
    /// The whole attached byte store.
    pub closed spec fn bytes(&self) -> Seq<u8> {
        self.buffer@
    }

    pub closed spec fn spec_size(&self) -> int {
        self.size as int
    }

    pub closed spec fn spec_offset(&self) -> int {
        self.offset as int
    }

    pub open spec fn wf(&self) -> bool {
        self.spec_offset() <= self.spec_size() <= self.bytes().len()
    }

    /// Create a new read buffer
    pub fn new() -> (r: Self)
        ensures
            r.bytes() == Seq::<u8>::empty(),
            r.spec_size() == 0,
            r.spec_offset() == 0,
            r.wf(),
    {
        Self { buffer: Vec::new(), size: 0, offset: 0 }
    }

    /// Get buffer data
    pub fn data(&self) -> (r: &[u8])
        ensures
            r@ == self.bytes(),
    {
        self.buffer.as_slice()
    }

    /// Get buffer capacity: a read buffer's capacity is its size
    pub fn capacity(&self) -> (r: usize)
        ensures
            r == self.spec_size(),
    {
        self.size
    }

    /// Get buffer size
    pub fn size(&self) -> (r: usize)
        ensures
            r == self.spec_size(),
    {
        self.size
    }

    /// Get current offset
    pub fn offset(&self) -> (r: usize)
        ensures
            r == self.spec_offset(),
    {
        self.offset
    }

    /// Attach a given memory buffer
    pub fn attach_buffer(&mut self, buffer: &[u8], offset: usize, size: usize)
        requires
            buffer@.len() > 0,
            size > 0,
            offset <= size <= buffer@.len(),
        ensures
            final(self).bytes() == buffer@,
            final(self).spec_size() == size,
            final(self).spec_offset() == offset,
            final(self).wf(),
    {
        self.buffer = vstd::slice::slice_to_vec(buffer);
        self.size = size;
        self.offset = offset;
    }

    /// Reset buffer and offset
    pub fn reset(&mut self)
        ensures
            final(self).bytes() == Seq::<u8>::empty(),
            final(self).spec_size() == 0,
            final(self).spec_offset() == 0,
            final(self).wf(),
    {
        self.buffer.clear();
        self.size = 0;
        self.offset = 0;
    }

    /// Shift offset forward
    pub fn shift(&mut self, offset: usize)
        requires
            old(self).spec_offset() + offset <= old(self).spec_size(),
        ensures
            final(self).bytes() == old(self).bytes(),
            final(self).spec_size() == old(self).spec_size(),
            final(self).spec_offset() == old(self).spec_offset() + offset,
            old(self).wf() ==> final(self).wf(),
    {
        self.offset = self.offset + offset;
    }

    /// Shift offset backward
    pub fn unshift(&mut self, offset: usize)
        requires
            offset <= old(self).spec_offset(),
        ensures
            final(self).bytes() == old(self).bytes(),
            final(self).spec_size() == old(self).spec_size(),
            final(self).spec_offset() == old(self).spec_offset() - offset,
            old(self).wf() ==> final(self).wf(),
    {
        self.offset = self.offset - offset;
    }

    /// The absolute position of a relative offset: cursor plus offset.
    fn pos(&self, offset: usize) -> (r: usize)
        requires
            self.spec_offset() + offset <= self.bytes().len(),
        ensures
            r == self.spec_offset() + offset,
    {
        let cap = self.buffer.len();
        self.offset + offset
    }

    /// Borrow `n` bytes at an absolute position.
    fn get_slice(&self, at: usize, n: usize) -> (r: &[u8])
        requires
            at + n <= self.bytes().len(),
        ensures
            r@ == self.bytes().subrange(at as int, at + n),
    {
        let cap = self.buffer.len();
        &self.buffer.as_slice()[at..at + n]
    }

    // Read primitive types
    pub fn read_u8(&self, offset: usize) -> (r: u8)
        requires
            self.wf(),
            self.spec_offset() + offset + 1 <= self.spec_size(),
        ensures
            r == self.bytes()[self.spec_offset() + offset],
    {
        let at = self.pos(offset);
        self.buffer[at]
    }

    pub fn read_byte(&self, offset: usize) -> (r: u8)
        requires
            self.wf(),
            self.spec_offset() + offset + 1 <= self.spec_size(),
        ensures
            r == self.bytes()[self.spec_offset() + offset],
    {
        self.read_u8(offset)
    }

    pub fn read_char(&self, offset: usize) -> (r: u8)
        requires
            self.wf(),
            self.spec_offset() + offset + 1 <= self.spec_size(),
        ensures
            r == self.bytes()[self.spec_offset() + offset],
    {
        let at = self.pos(offset);
        self.buffer[at]
    }

    pub fn read_bool(&self, offset: usize) -> (r: bool)
        requires
            self.wf(),
            self.spec_offset() + offset + 1 <= self.spec_size(),
        ensures
            r == (self.bytes()[self.spec_offset() + offset] != 0),
    {
        let at = self.pos(offset);
        self.buffer[at] != 0
    }

    pub fn read_i8(&self, offset: usize) -> (r: i8)
        requires
            self.wf(),
            self.spec_offset() + offset + 1 <= self.spec_size(),
        ensures
            r == self.bytes()[self.spec_offset() + offset] as i8,
    {
        let at = self.pos(offset);
        #[verifier::truncate] (self.buffer[at] as i8)
    }

    pub fn read_u16(&self, offset: usize) -> (r: u16)
        requires
            self.wf(),
            self.spec_offset() + offset + 2 <= self.spec_size(),
        ensures
            r == crate::wire::le16_at(self.bytes(), self.spec_offset() + offset),
    {
        let at = self.pos(offset);
        vstd::bytes::u16_from_le_bytes(self.get_slice(at, 2))
    }

    pub fn read_i16(&self, offset: usize) -> (r: i16)
        requires
            self.wf(),
            self.spec_offset() + offset + 2 <= self.spec_size(),
        ensures
            r == crate::wire::le16_at(self.bytes(), self.spec_offset() + offset) as i16,
    {
        #[verifier::truncate] (self.read_u16(offset) as i16)
    }

    pub fn read_u32(&self, offset: usize) -> (r: u32)
        requires
            self.wf(),
            self.spec_offset() + offset + 4 <= self.spec_size(),
        ensures
            r == crate::wire::le32_at(self.bytes(), self.spec_offset() + offset),
    {
        let at = self.pos(offset);
        vstd::bytes::u32_from_le_bytes(self.get_slice(at, 4))
    }

    pub fn read_i32(&self, offset: usize) -> (r: i32)
        requires
            self.wf(),
            self.spec_offset() + offset + 4 <= self.spec_size(),
        ensures
            r == crate::wire::le32_at(self.bytes(), self.spec_offset() + offset) as i32,
    {
        #[verifier::truncate] (self.read_u32(offset) as i32)
    }

    pub fn read_wchar(&self, offset: usize) -> (r: u32)
        requires
            self.wf(),
            self.spec_offset() + offset + 4 <= self.spec_size(),
        ensures
            r == crate::wire::le32_at(self.bytes(), self.spec_offset() + offset),
    {
        self.read_u32(offset)
    }

    pub fn read_u64(&self, offset: usize) -> (r: u64)
        requires
            self.wf(),
            self.spec_offset() + offset + 8 <= self.spec_size(),
        ensures
            r == crate::wire::le64_at(self.bytes(), self.spec_offset() + offset),
    {
        let at = self.pos(offset);
        vstd::bytes::u64_from_le_bytes(self.get_slice(at, 8))
    }

    pub fn read_i64(&self, offset: usize) -> (r: i64)
        requires
            self.wf(),
            self.spec_offset() + offset + 8 <= self.spec_size(),
        ensures
            r == crate::wire::le64_at(self.bytes(), self.spec_offset() + offset) as i64,
    {
        #[verifier::truncate] (self.read_u64(offset) as i64)
    }

    /// Read timestamp as uint64 (nanoseconds since epoch)
    pub fn read_timestamp(&self, offset: usize) -> (r: u64)
        requires
            self.wf(),
            self.spec_offset() + offset + 8 <= self.spec_size(),
        ensures
            r == crate::wire::le64_at(self.bytes(), self.spec_offset() + offset),
    {
        self.read_u64(offset)
    }

    /// Read UUID as 16 raw bytes
    pub fn read_uuid(&self, offset: usize) -> (r: [u8; 16])
        requires
            self.wf(),
            self.spec_offset() + offset + 16 <= self.spec_size(),
        ensures
            r@ == self.bytes().subrange(
                self.spec_offset() + offset,
                self.spec_offset() + offset + 16,
            ),
    {
        let cap = self.buffer.len();
        let at = self.pos(offset);
        let mut out = [0u8; 16];
        let mut i: usize = 0;
        while i < 16
            invariant
                0 <= i <= 16,
                self.wf(),
                cap == self.bytes().len(),
                at + 16 <= cap,
                at == self.spec_offset() + offset,
                out@.len() == 16,
                forall|k: int| 0 <= k < i ==> out@[k] == self.bytes()[at + k],
            decreases 16 - i,
        {
            let b = self.buffer[at + i];
            out[i] = b;
            i = i + 1;
        }
        proof {
            assert(out@ =~= self.bytes().subrange(
                self.spec_offset() + offset,
                self.spec_offset() + offset + 16,
            ));
        }
        out
    }

    /// Read bytes (a 4-byte length prefix, then the raw payload)
    pub fn read_bytes(&self, offset: usize) -> (r: Vec<u8>)
        requires
            self.wf(),
            self.spec_offset() + offset + 4 <= self.spec_size(),
            crate::wire::le32_at(self.bytes(), self.spec_offset() + offset) <= i32::MAX,
            self.spec_offset() + offset + 4 + crate::wire::le32_at(
                self.bytes(),
                self.spec_offset() + offset,
            ) <= self.spec_size(),
        ensures
            r@ == crate::wire::dec_block(self.bytes(), self.spec_offset() + offset),
    {
        let at = self.pos(offset);
        let len = self.read_u32(offset) as usize;
        vstd::slice::slice_to_vec(self.get_slice(at + 4, len))
    }

    /// Read a string: a 4-byte length prefix, then UTF-8 bytes decoded
    /// tolerantly (invalid sequences are replaced, never rejected)
    pub fn read_string(&self, offset: usize) -> (r: String)
        requires
            self.wf(),
            self.spec_offset() + offset + 4 <= self.spec_size(),
            crate::wire::le32_at(self.bytes(), self.spec_offset() + offset) <= i32::MAX,
            self.spec_offset() + offset + 4 + crate::wire::le32_at(
                self.bytes(),
                self.spec_offset() + offset,
            ) <= self.spec_size(),
        ensures
            r@ == lossy_decode(crate::wire::dec_block(self.bytes(), self.spec_offset() + offset)),
            vstd::utf8::valid_utf8(
                crate::wire::dec_block(self.bytes(), self.spec_offset() + offset),
            ) ==> r@ == vstd::utf8::decode_utf8(
                crate::wire::dec_block(self.bytes(), self.spec_offset() + offset),
            ),
    {
        let at = self.pos(offset);
        let len = self.read_u32(offset) as usize;
        string_from_utf8_lossy(self.get_slice(at + 4, len))
    }

    /// Read decimal as (unscaled value, scale, negative): the 96-bit
    /// magnitude from the first 12 bytes, the scale from byte 14 and the
    /// sign from byte 15's high bit
    pub fn read_decimal(&self, offset: usize) -> (r: (i128, u8, bool))
        requires
            self.wf(),
            self.spec_offset() + offset + 16 <= self.spec_size(),
        ensures
            r.0 == crate::wire::dec_decimal_value(self.bytes(), self.spec_offset() + offset),
            0 <= r.0 < 0x1000000000000000000000000,
            r.1 == self.bytes()[self.spec_offset() + offset + 14],
            r.2 == ((self.bytes()[self.spec_offset() + offset + 15] & 0x80u8) != 0),
    {
        let lo = self.read_u64(offset);
        let hi = self.read_u32(offset + 8);
        let value = (hi as u128) * 0x10000000000000000u128 + (lo as u128);
        let scale = self.read_u8(offset + 14);
        let flag = self.read_u8(offset + 15);
        let negative = (flag & 0x80u8) != 0;
        (value as i128, scale, negative)
    }

    /// Read vector of i32 values: a zero pointer stands for the empty
    /// vector, otherwise the pointer leads to a count and the elements
    pub fn read_vector_i32(&self, offset: usize) -> (r: Vec<i32>)
        requires
            self.wf(),
            self.spec_offset() + offset + 4 <= self.spec_size(),
            ({
                let p = crate::wire::le32_at(self.bytes(), self.spec_offset() + offset) as int;
                p != 0 ==> self.spec_offset() + p + 4 <= self.spec_size() && self.spec_offset() + p
                    + 4 + 4 * crate::wire::le32_at(self.bytes(), self.spec_offset() + p)
                    <= self.spec_size()
            }),
        ensures
            r@ == crate::wire::dec_vector_i32(self.bytes(), self.spec_offset(), offset as int),
    {
        let data_offset = self.read_u32(offset) as usize;
        if data_offset == 0 {
            let r: Vec<i32> = Vec::new();
            proof {
                assert(r@ =~= crate::wire::dec_vector_i32(
                    self.bytes(),
                    self.spec_offset(),
                    offset as int,
                ));
            }
            return r;
        }
        let size = self.read_u32(data_offset) as usize;
        let mut result: Vec<i32> = Vec::new();
        let mut i: usize = 0;
        while i < size
            invariant
                0 <= i <= size,
                self.wf(),
                data_offset == crate::wire::le32_at(self.bytes(), self.spec_offset() + offset),
                data_offset != 0,
                size == crate::wire::le32_at(self.bytes(), self.spec_offset() + data_offset),
                self.spec_offset() + data_offset + 4 + 4 * size <= self.spec_size(),
                result@.len() == i,
                forall|k: int|
                    0 <= k < i ==> result@[k] == crate::wire::le32_at(
                        self.bytes(),
                        self.spec_offset() + data_offset + 4 + 4 * k,
                    ) as i32,
            decreases size - i,
        {
            let v = self.read_i32(data_offset + 4 + i * 4);
            result.push(v);
            i = i + 1;
        }
        proof {
            assert(result@ =~= crate::wire::dec_vector_i32(
                self.bytes(),
                self.spec_offset(),
                offset as int,
            ));
        }
        result
    }

    /// Read list of i32 values: the linked list shares the vector's wire
    /// format
    pub fn read_list_i32(&self, offset: usize) -> (r: Vec<i32>)
        requires
            self.wf(),
            self.spec_offset() + offset + 4 <= self.spec_size(),
            ({
                let p = crate::wire::le32_at(self.bytes(), self.spec_offset() + offset) as int;
                p != 0 ==> self.spec_offset() + p + 4 <= self.spec_size() && self.spec_offset() + p
                    + 4 + 4 * crate::wire::le32_at(self.bytes(), self.spec_offset() + p)
                    <= self.spec_size()
            }),
        ensures
            r@ == crate::wire::dec_vector_i32(self.bytes(), self.spec_offset(), offset as int),
    {
        self.read_vector_i32(offset)
    }

    /// Read set of i32 values: the set shares the vector's wire format
    pub fn read_set_i32(&self, offset: usize) -> (r: Vec<i32>)
        requires
            self.wf(),
            self.spec_offset() + offset + 4 <= self.spec_size(),
            ({
                let p = crate::wire::le32_at(self.bytes(), self.spec_offset() + offset) as int;
                p != 0 ==> self.spec_offset() + p + 4 <= self.spec_size() && self.spec_offset() + p
                    + 4 + 4 * crate::wire::le32_at(self.bytes(), self.spec_offset() + p)
                    <= self.spec_size()
            }),
        ensures
            r@ == crate::wire::dec_vector_i32(self.bytes(), self.spec_offset(), offset as int),
    {
        self.read_vector_i32(offset)
    }

    /// Read fixed-size array of i32 values inline: elements only, no pointer
    pub fn read_array_i32(&self, offset: usize, size: usize) -> (r: Vec<i32>)
        requires
            self.wf(),
            self.spec_offset() + offset + 4 * size <= self.spec_size(),
        ensures
            r@ == crate::wire::dec_array_i32(
                self.bytes(),
                self.spec_offset(),
                offset as int,
                size as int,
            ),
    {
        let mut result: Vec<i32> = Vec::new();
        let mut i: usize = 0;
        while i < size
            invariant
                0 <= i <= size,
                self.wf(),
                self.spec_offset() + offset + 4 * size <= self.spec_size(),
                result@.len() == i,
                forall|k: int|
                    0 <= k < i ==> result@[k] == crate::wire::le32_at(
                        self.bytes(),
                        self.spec_offset() + offset + 4 * k,
                    ) as i32,
            decreases size - i,
        {
            let v = self.read_i32(offset + i * 4);
            result.push(v);
            i = i + 1;
        }
        proof {
            assert(result@ =~= crate::wire::dec_array_i32(
                self.bytes(),
                self.spec_offset(),
                offset as int,
                size as int,
            ));
        }
        result
    }

    /// Read map of i32 key-value pairs in declaration order
    pub fn read_map_i32(&self, offset: usize) -> (r: Vec<(i32, i32)>)
        requires
            self.wf(),
            self.spec_offset() + offset + 4 <= self.spec_size(),
            ({
                let p = crate::wire::le32_at(self.bytes(), self.spec_offset() + offset) as int;
                p != 0 ==> self.spec_offset() + p + 4 <= self.spec_size() && self.spec_offset() + p
                    + 4 + 8 * crate::wire::le32_at(self.bytes(), self.spec_offset() + p)
                    <= self.spec_size()
            }),
        ensures
            r@ == crate::wire::dec_map_i32(self.bytes(), self.spec_offset(), offset as int),
    {
        let data_offset = self.read_u32(offset) as usize;
        if data_offset == 0 {
            let r: Vec<(i32, i32)> = Vec::new();
            proof {
                assert(r@ =~= crate::wire::dec_map_i32(
                    self.bytes(),
                    self.spec_offset(),
                    offset as int,
                ));
            }
            return r;
        }
        let size = self.read_u32(data_offset) as usize;
        let mut result: Vec<(i32, i32)> = Vec::new();
        let mut i: usize = 0;
        while i < size
            invariant
                0 <= i <= size,
                self.wf(),
                data_offset == crate::wire::le32_at(self.bytes(), self.spec_offset() + offset),
                data_offset != 0,
                size == crate::wire::le32_at(self.bytes(), self.spec_offset() + data_offset),
                self.spec_offset() + data_offset + 4 + 8 * size <= self.spec_size(),
                result@.len() == i,
                forall|k: int|
                    0 <= k < i ==> result@[k] == (
                        crate::wire::le32_at(
                            self.bytes(),
                            self.spec_offset() + data_offset + 4 + 8 * k,
                        ) as i32,
                        crate::wire::le32_at(
                            self.bytes(),
                            self.spec_offset() + data_offset + 4 + 8 * k + 4,
                        ) as i32,
                    ),
            decreases size - i,
        {
            let key = self.read_i32(data_offset + 4 + i * 8);
            let value = self.read_i32(data_offset + 4 + i * 8 + 4);
            result.push((key, value));
            i = i + 1;
        }
        proof {
            assert(result@ =~= crate::wire::dec_map_i32(
                self.bytes(),
                self.spec_offset(),
                offset as int,
            ));
        }
        result
    }

    /// Read `count` consecutive length-prefixed strings starting at the
    /// relative position `start`.
    fn read_string_run(&self, start: usize, count: usize) -> (r: Vec<String>)
        requires
            self.wf(),
            self.spec_offset() + start <= self.spec_size(),
            crate::wire::strings_wf(
                self.bytes(),
                self.spec_size(),
                self.spec_offset() + start,
                count as int,
            ),
        ensures
            r@.len() == count,
            forall|k: int|
                0 <= k < count ==> #[trigger] r@[k]@ == lossy_decode(
                    crate::wire::dec_string_blocks(
                        self.bytes(),
                        self.spec_offset() + start,
                        count as int,
                    )[k],
                ),
            forall|k: int|
                0 <= k < count ==> vstd::utf8::valid_utf8(
                    #[trigger] crate::wire::dec_string_blocks(
                        self.bytes(),
                        self.spec_offset() + start,
                        count as int,
                    )[k],
                ) ==> r@[k]@ == vstd::utf8::decode_utf8(
                    crate::wire::dec_string_blocks(
                        self.bytes(),
                        self.spec_offset() + start,
                        count as int,
                    )[k],
                ),
    {
        let ghost first = self.spec_offset() + start;
        let mut values: Vec<String> = Vec::new();
        let mut current: usize = start;
        let mut i: usize = 0;
        while i < count
            invariant
                0 <= i <= count,
                self.wf(),
                self.spec_offset() + current <= self.spec_size(),
                first == self.spec_offset() + start,
                self.spec_offset() + current == crate::wire::blocks_end(
                    self.bytes(),
                    first,
                    i as int,
                ),
                crate::wire::strings_wf(
                    self.bytes(),
                    self.spec_size(),
                    self.spec_offset() + current,
                    count - i,
                ),
                values@.len() == i,
                forall|k: int|
                    0 <= k < i ==> #[trigger] values@[k]@ == lossy_decode(
                        crate::wire::dec_string_blocks(self.bytes(), first, i as int)[k],
                    ),
                forall|k: int|
                    0 <= k < i ==> vstd::utf8::valid_utf8(
                        #[trigger] crate::wire::dec_string_blocks(
                            self.bytes(),
                            first,
                            i as int,
                        )[k],
                    ) ==> values@[k]@ == vstd::utf8::decode_utf8(
                        crate::wire::dec_string_blocks(self.bytes(), first, i as int)[k],
                    ),
            decreases count - i,
        {
            let block_len = self.read_u32(current) as usize;
            let s = self.read_string(current);
            values.push(s);
            proof {
                crate::wire::lemma_string_blocks_snoc(self.bytes(), first, i as int);
                crate::wire::lemma_dec_string_blocks_len(self.bytes(), first, i as int);
                crate::wire::lemma_dec_string_blocks_len(self.bytes(), first, i + 1);
            }
            current = current + (4 + block_len);
            i = i + 1;
        }
        values
    }

    /// Read vector of strings: a zero pointer stands for the empty vector,
    /// otherwise the pointer leads to a count and the length-prefixed
    /// strings
    pub fn read_vector_string(&self, offset: usize) -> (r: Vec<String>)
        requires
            self.wf(),
            self.spec_offset() + offset + 4 <= self.spec_size(),
            ({
                let p = crate::wire::le32_at(self.bytes(), self.spec_offset() + offset) as int;
                p != 0 ==> self.spec_offset() + p + 4 <= self.spec_size()
                    && crate::wire::strings_wf(
                    self.bytes(),
                    self.spec_size(),
                    self.spec_offset() + p + 4,
                    crate::wire::le32_at(self.bytes(), self.spec_offset() + p) as int,
                )
            }),
        ensures
            ({
                let p = crate::wire::le32_at(self.bytes(), self.spec_offset() + offset) as int;
                if p == 0 {
                    r@.len() == 0
                } else {
                    let n = crate::wire::le32_at(self.bytes(), self.spec_offset() + p) as int;
                    let blocks = crate::wire::dec_string_blocks(
                        self.bytes(),
                        self.spec_offset() + p + 4,
                        n,
                    );
                    r@.len() == n && (forall|k: int|
                        0 <= k < n ==> #[trigger] r@[k]@ == lossy_decode(blocks[k])) && (forall|
                        k: int,
                    |
                        0 <= k < n ==> vstd::utf8::valid_utf8(#[trigger] blocks[k]) ==> r@[k]@
                            == vstd::utf8::decode_utf8(blocks[k]))
                }
            }),
    {
        let pointer = self.read_u32(offset) as usize;
        if pointer == 0 {
            return Vec::new();
        }
        let size = self.read_u32(pointer) as usize;
        self.read_string_run(pointer + 4, size)
    }

    /// Read fixed-size array of strings: the length-prefixed strings back to
    /// back at the field's position
    pub fn read_array_string(&self, offset: usize, count: usize) -> (r: Vec<String>)
        requires
            self.wf(),
            self.spec_offset() + offset <= self.spec_size(),
            crate::wire::strings_wf(
                self.bytes(),
                self.spec_size(),
                self.spec_offset() + offset,
                count as int,
            ),
        ensures
            r@.len() == count,
            forall|k: int|
                0 <= k < count ==> #[trigger] r@[k]@ == lossy_decode(
                    crate::wire::dec_string_blocks(
                        self.bytes(),
                        self.spec_offset() + offset,
                        count as int,
                    )[k],
                ),
            forall|k: int|
                0 <= k < count ==> vstd::utf8::valid_utf8(
                    #[trigger] crate::wire::dec_string_blocks(
                        self.bytes(),
                        self.spec_offset() + offset,
                        count as int,
                    )[k],
                ) ==> r@[k]@ == vstd::utf8::decode_utf8(
                    crate::wire::dec_string_blocks(
                        self.bytes(),
                        self.spec_offset() + offset,
                        count as int,
                    )[k],
                ),
    {
        self.read_string_run(offset, count)
    }

    // Optional types
    /// Whether the optional field at the given position is present
    pub fn has_value(&self, offset: usize) -> (r: bool)
        requires
            self.wf(),
            self.spec_offset() + offset + 1 <= self.spec_size(),
        ensures
            r == (self.bytes()[self.spec_offset() + offset] != 0),
    {
        self.read_u8(offset) != 0
    }

    /// Read an optional i32 in the pointer-based layout
    pub fn read_optional_i32(&self, offset: usize) -> (r: Option<i32>)
        requires
            self.wf(),
            self.spec_offset() + offset + 1 <= self.spec_size(),
            self.bytes()[self.spec_offset() + offset] != 0 ==> self.spec_offset() + offset + 5
                <= self.spec_size() && self.spec_offset() + crate::wire::le32_at(
                self.bytes(),
                self.spec_offset() + offset + 1,
            ) + 4 <= self.spec_size(),
        ensures
            r == crate::wire::dec_optional_i32(self.bytes(), self.spec_offset(), offset as int),
    {
        if !self.has_value(offset) {
            return None;
        }
        let data_offset = self.read_u32(offset + 1) as usize;
        Some(self.read_i32(data_offset))
    }

    /// Read an optional string in the pointer-based layout
    pub fn read_optional_string(&self, offset: usize) -> (r: Option<String>)
        requires
            self.wf(),
            self.spec_offset() + offset + 1 <= self.spec_size(),
            self.bytes()[self.spec_offset() + offset] != 0 ==> ({
                let p = crate::wire::le32_at(self.bytes(), self.spec_offset() + offset + 1) as int;
                &&& self.spec_offset() + offset + 5 <= self.spec_size()
                &&& self.spec_offset() + p + 4 <= self.spec_size()
                &&& crate::wire::le32_at(self.bytes(), self.spec_offset() + p) <= i32::MAX
                &&& self.spec_offset() + p + 4 + crate::wire::le32_at(
                    self.bytes(),
                    self.spec_offset() + p,
                ) <= self.spec_size()
            }),
        ensures
            r.is_none() <==> crate::wire::dec_optional_block(
                self.bytes(),
                self.spec_offset(),
                offset as int,
            ).is_none(),
            r.is_some() ==> r.unwrap()@ == lossy_decode(
                crate::wire::dec_optional_block(
                    self.bytes(),
                    self.spec_offset(),
                    offset as int,
                ).unwrap(),
            ),
            r.is_some() ==> (vstd::utf8::valid_utf8(
                crate::wire::dec_optional_block(
                    self.bytes(),
                    self.spec_offset(),
                    offset as int,
                ).unwrap(),
            ) ==> r.unwrap()@ == vstd::utf8::decode_utf8(
                crate::wire::dec_optional_block(
                    self.bytes(),
                    self.spec_offset(),
                    offset as int,
                ).unwrap(),
            )),
    {
        if !self.has_value(offset) {
            return None;
        }
        let data_offset = self.read_u32(offset + 1) as usize;
        Some(self.read_string(data_offset))
    }

    /// Read an optional i32 in the inline (final) layout: the value follows
    /// the flag byte directly
    pub fn read_optional_i32_final(&self, offset: usize) -> (r: Option<i32>)
        requires
            self.wf(),
            self.spec_offset() + offset + 1 <= self.spec_size(),
            self.bytes()[self.spec_offset() + offset] != 0 ==> self.spec_offset() + offset + 5
                <= self.spec_size(),
        ensures
            r == crate::wire::dec_optional_i32_final(
                self.bytes(),
                self.spec_offset(),
                offset as int,
            ),
    {
        if !self.has_value(offset) {
            return None;
        }
        Some(self.read_i32(offset + 1))
    }
}

impl From<Vec<u8>> for ReadBuffer {
    /// Attach a byte vector whole: its length is the size, the cursor is 0.
    fn from(data: Vec<u8>) -> (r: Self) {
        let size = data.len();
        Self { buffer: data, size, offset: 0 }
    }
}

impl vstd::std_specs::convert::FromSpecImpl<Vec<u8>> for ReadBuffer {
    open spec fn obeys_from_spec() -> bool {
        true
    }

    closed spec fn from_spec(data: Vec<u8>) -> Self {
        ReadBuffer { buffer: data, size: data@.len() as usize, offset: 0 }
    }
}

/// What `ReadBuffer::from` builds: the vector's bytes whole, the cursor at
/// the start.
pub proof fn lemma_read_buffer_from(data: Vec<u8>)
    ensures
        ({
            let r = <ReadBuffer as vstd::std_specs::convert::FromSpec<Vec<u8>>>::from_spec(data);
            r.bytes() == data@ && r.spec_size() == data@.len() && r.spec_offset() == 0 && r.wf()
        }),
{
    vstd::std_specs::vec::axiom_spec_len(&data);
}

} // verus!
