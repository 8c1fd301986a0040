//! Collection field models: vector, fixed array, map and set views over a
//! buffer position, in the pointer-based layout.

use vstd::prelude::*;
use vstd::bytes::{spec_u32_to_le_bytes, spec_u32_from_le_bytes};
use std::collections::HashMap;
use std::collections::HashSet;
use crate::buffer::{ReadBuffer, WriteBuffer};
use crate::field_model::{FieldModel, reader_over};
use crate::wire::{
    splice, enc_vector_i32, enc_map_i32, enc_i32_elems, le32_at, dec_vector_i32, dec_map_i32,
    dec_array_i32, dec_string_blocks, strings_wf, enc_vector_string, enc_string_elems,
    strings_bytes,
};

verus! {

/// The bounds a pointer-based i32 collection's bytes must satisfy before its
/// block can be read: the pointer and count lie inside the buffer, and so do
/// `width` bytes per element.
pub open spec fn i32_block_readable(b: Seq<u8>, off: int, width: int) -> bool {
    &&& off + 4 <= b.len()
    &&& ({
        let p = le32_at(b, off) as int;
        p != 0 ==> p + 4 <= b.len() && p + 4 + width * le32_at(b, p) <= b.len()
    })
}

/// The bytes a run of `n` length-prefixed strings occupies from position
/// `j`: four length bytes plus the stated payload per string, stopping early
/// where the next length prefix would lie past the buffer.
pub open spec fn string_run_extra(b: Seq<u8>, j: int, n: int) -> int
    decreases n,
{
    if n <= 0 {
        0
    } else if j + 4 > b.len() {
        0
    } else {
        let l = le32_at(b, j) as int;
        4 + l + string_run_extra(b, j + 4 + l, n - 1)
    }
}

/// `x` clamped to the machine's integer range.
pub open spec fn cap_usize(x: int) -> int {
    if x > usize::MAX {
        usize::MAX as int
    } else {
        x
    }
}

/// Walk `n` length-prefixed strings from `start` and return the bytes they
/// occupy by their stated lengths.
fn string_run_len(buffer: &[u8], start: usize, n: usize) -> (r: u128)
    ensures
        r == string_run_extra(buffer@, start as int, n as int),
        r <= usize::MAX as u128 + 4 + u32::MAX as u128,
{
    let len = buffer.len();
    let len128 = len as u128;
    let mut total: u128 = 0;
    let mut current: u128 = start as u128;
    let mut i: usize = 0;
    while i < n
        invariant
            0 <= i <= n,
            len == buffer@.len(),
            len128 == len as u128,
            start as u128 <= current <= usize::MAX as u128 + 4 + u32::MAX as u128,
            total == current - start as u128,
            string_run_extra(buffer@, start as int, n as int) == total + string_run_extra(
                buffer@,
                current as int,
                n - i,
            ),
        decreases n - i,
    {
        if current + 4 > len128 {
            proof {
                assert(string_run_extra(buffer@, current as int, n - i) == 0);
            }
            return total;
        }
        let cur = current as usize;
        let l = vstd::bytes::u32_from_le_bytes(&buffer[cur..cur + 4]);
        total = total + 4 + (l as u128);
        current = current + 4 + (l as u128);
        i = i + 1;
    }
    total
}

/// The map a pair sequence builds up, later keys overwriting earlier ones.
pub open spec fn pairs_to_map(ps: Seq<(i32, i32)>) -> Map<i32, i32>
    decreases ps.len(),
{
    if ps.len() == 0 {
        Map::empty()
    } else {
        pairs_to_map(ps.drop_last()).insert(ps.last().0, ps.last().1)
    }
}

/// The set an element sequence builds up.
pub open spec fn elems_to_set(vs: Seq<i32>) -> Set<i32>
    decreases vs.len(),
{
    if vs.len() == 0 {
        Set::empty()
    } else {
        elems_to_set(vs.drop_last()).insert(vs.last())
    }
}

/// Read view over a vector of i32: a 4-byte pointer to a count-prefixed
/// block.
pub struct FieldModelVectorI32<'a> {
    buffer: &'a [u8],
    offset: usize,
}

impl<'a> FieldModelVectorI32<'a> {
    pub closed spec fn buf(&self) -> Seq<u8> {
        self.buffer@
    }

    pub fn new(buffer: &'a [u8], offset: usize) -> (r: Self)
        ensures
            r.buf() == buffer@,
            r.spec_offset() == offset,
    {
        Self { buffer, offset }
    }

    pub fn get(&self) -> (r: Vec<i32>)
        requires
            i32_block_readable(self.buf(), self.spec_offset(), 4),
        ensures
            r@ == dec_vector_i32(self.buf(), 0, self.spec_offset()),
    {
        let rb = reader_over(self.buffer);
        rb.read_vector_i32(self.offset)
    }
}

impl<'a> FieldModel for FieldModelVectorI32<'a> {
    closed spec fn spec_offset(&self) -> int {
        self.offset as int
    }

    open spec fn spec_size(&self) -> int {
        4
    }

    open spec fn spec_extra(&self) -> int {
        if self.buf().len() < self.spec_offset() + 4 {
            0
        } else {
            let p = le32_at(self.buf(), self.spec_offset()) as int;
            if p == 0 || self.buf().len() < p + 4 {
                0
            } else {
                cap_usize(4 + 4 * le32_at(self.buf(), p))
            }
        }
    }

    fn offset(&self) -> usize {
        self.offset
    }

    fn set_offset(&mut self, offset: usize) {
        self.offset = offset;
    }

    fn size(&self) -> usize {
        4
    }

    fn extra(&self) -> (r: usize)
        ensures
            r == self.spec_extra(),
    {
        let len = self.buffer.len();
        if len < 4 || self.offset > len - 4 {
            return 0;
        }
        let pointer = vstd::bytes::u32_from_le_bytes(
            &self.buffer[self.offset..self.offset + 4],
        ) as usize;
        if pointer == 0 || len < 4 || pointer > len - 4 {
            return 0;
        }
        let count = vstd::bytes::u32_from_le_bytes(&self.buffer[pointer..pointer + 4]);
        let total: u128 = 4 + (count as u128) * 4;
        if total > usize::MAX as u128 {
            usize::MAX
        } else {
            total as usize
        }
    }

    fn shift(&mut self, size: usize) {
        self.offset = self.offset + size;
    }

    fn unshift(&mut self, size: usize) {
        self.offset = self.offset - size;
    }

    fn verify(&self) -> bool {
        true
    }
}

/// Write view over a vector of i32.
pub struct FieldModelVectorI32Mut {
    offset: usize,
}

impl FieldModelVectorI32Mut {
    pub closed spec fn spec_offset(&self) -> int {
        self.offset as int
    }

    pub fn new(offset: usize) -> (r: Self)
        ensures
            r.spec_offset() == offset,
    {
        Self { offset }
    }

    pub fn set(&self, buffer: &mut WriteBuffer, values: &[i32])
        requires
            old(buffer).wf(),
            old(buffer).spec_offset() + self.spec_offset() + 4 <= old(buffer).spec_size(),
            old(buffer).spec_size() + 4 + 4 * values@.len() <= u32::MAX,
        ensures
            final(buffer).spec_size() == old(buffer).spec_size() + 4 + 4 * values@.len(),
            final(buffer).spec_offset() == old(buffer).spec_offset(),
            final(buffer).bytes() == splice(
                splice(
                    crate::buffer::grown(
                        old(buffer).bytes(),
                        old(buffer).spec_size() + 4 + 4 * values@.len(),
                    ),
                    old(buffer).spec_offset() + self.spec_offset(),
                    spec_u32_to_le_bytes(
                        (old(buffer).spec_size() - old(buffer).spec_offset()) as u32,
                    ),
                ),
                old(buffer).spec_size(),
                enc_vector_i32(values@),
            ),
            final(buffer).wf(),
    {
        buffer.write_vector_i32(self.offset, values);
    }
}

/// Read view over a fixed-size array of i32: inline elements, no pointer.
pub struct FieldModelArrayI32<'a> {
    buffer: &'a [u8],
    offset: usize,
    count: usize,
}

impl<'a> FieldModelArrayI32<'a> {
    pub closed spec fn buf(&self) -> Seq<u8> {
        self.buffer@
    }

    pub closed spec fn spec_count(&self) -> int {
        self.count as int
    }

    pub fn new(buffer: &'a [u8], offset: usize, count: usize) -> (r: Self)
        ensures
            r.buf() == buffer@,
            r.spec_offset() == offset,
            r.spec_count() == count,
    {
        Self { buffer, offset, count }
    }

    pub fn get(&self) -> (r: Vec<i32>)
        requires
            self.spec_offset() + 4 * self.spec_count() <= self.buf().len(),
        ensures
            r@ == dec_array_i32(self.buf(), 0, self.spec_offset(), self.spec_count()),
    {
        if self.count == 0 {
            let r: Vec<i32> = Vec::new();
            proof {
                assert(r@ =~= dec_array_i32(self.buf(), 0, self.spec_offset(), self.spec_count()));
            }
            return r;
        }
        let rb = reader_over(self.buffer);
        rb.read_array_i32(self.offset, self.count)
    }
}

impl<'a> FieldModel for FieldModelArrayI32<'a> {
    closed spec fn spec_offset(&self) -> int {
        self.offset as int
    }

    open spec fn spec_size(&self) -> int {
        cap_usize(4 * self.spec_count())
    }

    open spec fn spec_extra(&self) -> int {
        0
    }

    fn offset(&self) -> usize {
        self.offset
    }

    fn set_offset(&mut self, offset: usize) {
        self.offset = offset;
    }

    fn size(&self) -> (r: usize)
        ensures
            r == self.spec_size(),
    {
        let total: u128 = (self.count as u128) * 4;
        if total > usize::MAX as u128 {
            usize::MAX
        } else {
            total as usize
        }
    }

    fn extra(&self) -> usize {
        0
    }

    fn shift(&mut self, size: usize) {
        self.offset = self.offset + size;
    }

    fn unshift(&mut self, size: usize) {
        self.offset = self.offset - size;
    }

    fn verify(&self) -> bool {
        true
    }
}

/// Write view over a fixed-size array of i32: the declared count must match
/// the values handed in (an arity mismatch is a programmer error).
pub struct FieldModelArrayI32Mut {
    offset: usize,
    count: usize,
}

impl FieldModelArrayI32Mut {
    pub closed spec fn spec_offset(&self) -> int {
        self.offset as int
    }

    pub closed spec fn spec_count(&self) -> int {
        self.count as int
    }

    pub fn new(offset: usize, count: usize) -> (r: Self)
        ensures
            r.spec_offset() == offset,
            r.spec_count() == count,
    {
        Self { offset, count }
    }

    pub fn set(&self, buffer: &mut WriteBuffer, values: &[i32])
        requires
            values@.len() == self.spec_count(),
            old(buffer).spec_offset() + self.spec_offset() + 4 * values@.len() <= old(
                buffer,
            ).bytes().len(),
        ensures
            final(buffer).bytes() == splice(
                old(buffer).bytes(),
                old(buffer).spec_offset() + self.spec_offset(),
                enc_i32_elems(values@),
            ),
            final(buffer).spec_size() == old(buffer).spec_size(),
            final(buffer).spec_offset() == old(buffer).spec_offset(),
    {
        buffer.write_array_i32(self.offset, values);
    }
}

/// Read view over a map of i32 to i32: a 4-byte pointer to a count-prefixed
/// block of key-value pairs.
pub struct FieldModelMapI32<'a> {
    buffer: &'a [u8],
    offset: usize,
}

impl<'a> FieldModelMapI32<'a> {
    pub closed spec fn buf(&self) -> Seq<u8> {
        self.buffer@
    }

    pub fn new(buffer: &'a [u8], offset: usize) -> (r: Self)
        ensures
            r.buf() == buffer@,
            r.spec_offset() == offset,
    {
        Self { buffer, offset }
    }

    pub fn get(&self) -> (r: HashMap<i32, i32>)
        requires
            i32_block_readable(self.buf(), self.spec_offset(), 8),
        ensures
            r@ == pairs_to_map(dec_map_i32(self.buf(), 0, self.spec_offset())),
    {
        broadcast use vstd::std_specs::hash::group_hash_axioms;

        let rb = reader_over(self.buffer);
        let pairs = rb.read_map_i32(self.offset);
        let ghost ps = dec_map_i32(self.buf(), 0, self.spec_offset());
        let mut result: HashMap<i32, i32> = HashMap::new();
        let n = pairs.len();
        let mut i: usize = 0;
        while i < n
            invariant
                0 <= i <= n,
                n == pairs@.len(),
                pairs@ == ps,
                result@ == pairs_to_map(ps.take(i as int)),
            decreases n - i,
        {
            let (k, v) = pairs[i];
            result.insert(k, v);
            proof {
                assert(ps.take(i + 1).drop_last() =~= ps.take(i as int));
            }
            i = i + 1;
        }
        proof {
            assert(ps.take(n as int) =~= ps);
        }
        result
    }
}

impl<'a> FieldModel for FieldModelMapI32<'a> {
    closed spec fn spec_offset(&self) -> int {
        self.offset as int
    }

    open spec fn spec_size(&self) -> int {
        4
    }

    open spec fn spec_extra(&self) -> int {
        if self.buf().len() < self.spec_offset() + 4 {
            0
        } else {
            let p = le32_at(self.buf(), self.spec_offset()) as int;
            if p == 0 || self.buf().len() < p + 4 {
                0
            } else {
                cap_usize(4 + 8 * le32_at(self.buf(), p))
            }
        }
    }

    fn offset(&self) -> usize {
        self.offset
    }

    fn set_offset(&mut self, offset: usize) {
        self.offset = offset;
    }

    fn size(&self) -> usize {
        4
    }

    fn extra(&self) -> (r: usize)
        ensures
            r == self.spec_extra(),
    {
        let len = self.buffer.len();
        if len < 4 || self.offset > len - 4 {
            return 0;
        }
        let pointer = vstd::bytes::u32_from_le_bytes(
            &self.buffer[self.offset..self.offset + 4],
        ) as usize;
        if pointer == 0 || len < 4 || pointer > len - 4 {
            return 0;
        }
        let count = vstd::bytes::u32_from_le_bytes(&self.buffer[pointer..pointer + 4]);
        let total: u128 = 4 + (count as u128) * 8;
        if total > usize::MAX as u128 {
            usize::MAX
        } else {
            total as usize
        }
    }

    fn shift(&mut self, size: usize) {
        self.offset = self.offset + size;
    }

    fn unshift(&mut self, size: usize) {
        self.offset = self.offset - size;
    }

    fn verify(&self) -> bool {
        true
    }
}

/// Strictly ascending keys: at most one pair per key, in one fixed order.
pub open spec fn pairs_sorted(ps: Seq<(i32, i32)>) -> bool {
    forall|i: int, j: int| 0 <= i < j < ps.len() ==> (#[trigger] ps[i]).0 < (#[trigger] ps[j]).0
}

/// `ps` holds exactly the map's entries: one pair per key of the map, each
/// carrying the map's value.
pub open spec fn map_pairs_of(ps: Seq<(i32, i32)>, m: Map<i32, i32>) -> bool {
    &&& ps.len() == m.dom().len()
    &&& (forall|i: int|
        0 <= i < ps.len() ==> m.contains_key((#[trigger] ps[i]).0) && m.index(ps[i].0)
            == ps[i].1)
    &&& (forall|i: int, j: int| 0 <= i < j < ps.len() ==> (#[trigger] ps[i]).0 != (
    #[trigger] ps[j]).0)
    &&& (forall|k: i32| m.contains_key(k) ==> exists|i: int| 0 <= i < ps.len() && ps[i].0 == k)
}

/// Strictly ascending values: at most one slot per value, in one fixed
/// order.
pub open spec fn elems_sorted(vs: Seq<i32>) -> bool {
    forall|i: int, j: int| 0 <= i < j < vs.len() ==> vs[i] < vs[j]
}

/// `vs` holds exactly the set's elements, each once.
pub open spec fn set_elems_of(vs: Seq<i32>, s: Set<i32>) -> bool {
    &&& vs.len() == s.len()
    &&& (forall|i: int| 0 <= i < vs.len() ==> s.contains(#[trigger] vs[i]))
    &&& (forall|i: int, j: int| 0 <= i < j < vs.len() ==> vs[i] != vs[j])
    &&& (forall|x: i32| s.contains(x) ==> exists|i: int| 0 <= i < vs.len() && vs[i] == x)
}

/// There is exactly one key-sorted pair sequence for a map: canonical order
/// makes the map's serialization a pure function of the map.
pub proof fn lemma_sorted_map_pairs_unique(ps1: Seq<(i32, i32)>, ps2: Seq<(i32, i32)>, m: Map<i32, i32>)
    requires
        m.dom().finite(),
        pairs_sorted(ps1),
        map_pairs_of(ps1, m),
        pairs_sorted(ps2),
        map_pairs_of(ps2, m),
    ensures
        ps1 == ps2,
    decreases ps1.len(),
{
    broadcast use vstd::set::group_set_axioms;

    if ps1.len() == 0 {
        assert(ps1 =~= ps2);
    } else {
        let h1 = ps1[0];
        let h2 = ps2[0];
        let j2 = choose|j: int| 0 <= j < ps2.len() && ps2[j].0 == h1.0;
        let j1 = choose|j: int| 0 <= j < ps1.len() && ps1[j].0 == h2.0;
        assert(h2.0 <= h1.0);
        assert(h1.0 <= h2.0);
        assert(h1.1 == m.index(h1.0) && h2.1 == m.index(h2.0));
        assert(h1 == h2);
        let t1 = ps1.drop_first();
        let t2 = ps2.drop_first();
        let m2 = m.remove(h1.0);
        assert(m2.dom() =~= m.dom().remove(h1.0));
        assert(m2.dom().len() == m.dom().len() - 1);
        assert forall|k: i32| m2.contains_key(k) implies exists|i: int|
            0 <= i < t1.len() && t1[i].0 == k by {
            let i = choose|i: int| 0 <= i < ps1.len() && ps1[i].0 == k;
            assert(i != 0);
            assert(t1[i - 1].0 == k);
        }
        assert forall|k: i32| m2.contains_key(k) implies exists|i: int|
            0 <= i < t2.len() && t2[i].0 == k by {
            let i = choose|i: int| 0 <= i < ps2.len() && ps2[i].0 == k;
            assert(i != 0);
            assert(t2[i - 1].0 == k);
        }
        assert(map_pairs_of(t1, m2));
        assert(map_pairs_of(t2, m2));
        lemma_sorted_map_pairs_unique(t1, t2, m2);
        assert(ps1 =~= ps2);
    }
}

/// There is exactly one sorted element sequence for a set.
pub proof fn lemma_sorted_set_elems_unique(vs1: Seq<i32>, vs2: Seq<i32>, s: Set<i32>)
    requires
        s.finite(),
        elems_sorted(vs1),
        set_elems_of(vs1, s),
        elems_sorted(vs2),
        set_elems_of(vs2, s),
    ensures
        vs1 == vs2,
    decreases vs1.len(),
{
    broadcast use vstd::set::group_set_axioms;

    if vs1.len() == 0 {
        assert(vs1 =~= vs2);
    } else {
        let h1 = vs1[0];
        let h2 = vs2[0];
        let j2 = choose|j: int| 0 <= j < vs2.len() && vs2[j] == h1;
        let j1 = choose|j: int| 0 <= j < vs1.len() && vs1[j] == h2;
        assert(h2 <= h1);
        assert(h1 <= h2);
        let t1 = vs1.drop_first();
        let t2 = vs2.drop_first();
        let s2 = s.remove(h1);
        assert(s2.len() == s.len() - 1);
        assert forall|x: i32| s2.contains(x) implies exists|i: int|
            0 <= i < t1.len() && t1[i] == x by {
            let i = choose|i: int| 0 <= i < vs1.len() && vs1[i] == x;
            assert(i != 0);
            assert(t1[i - 1] == x);
        }
        assert forall|x: i32| s2.contains(x) implies exists|i: int|
            0 <= i < t2.len() && t2[i] == x by {
            let i = choose|i: int| 0 <= i < vs2.len() && vs2[i] == x;
            assert(i != 0);
            assert(t2[i - 1] == x);
        }
        assert(set_elems_of(t1, s2));
        assert(set_elems_of(t2, s2));
        lemma_sorted_set_elems_unique(t1, t2, s2);
        assert(vs1 =~= vs2);
    }
}

/// Sort pairs into strictly ascending key order by repeatedly extracting
/// the minimal key.
fn sort_pairs_by_key(input: Vec<(i32, i32)>) -> (r: Vec<(i32, i32)>)
    requires
        forall|i: int, j: int|
            0 <= i < j < input@.len() ==> (#[trigger] input@[i]).0 != (#[trigger] input@[j]).0,
    ensures
        r@.len() == input@.len(),
        forall|x: (i32, i32)| r@.contains(x) <==> input@.contains(x),
        pairs_sorted(r@),
{
    let mut v = input;
    let mut out: Vec<(i32, i32)> = Vec::new();
    while v.len() > 0
        invariant
            out@.len() + v@.len() == input@.len(),
            forall|x: (i32, i32)| #[trigger] out@.contains(x) ==> input@.contains(x),
            forall|x: (i32, i32)| #[trigger] v@.contains(x) ==> input@.contains(x),
            forall|x: (i32, i32)|
                #[trigger] input@.contains(x) ==> out@.contains(x) || v@.contains(x),
            forall|i: int, j: int|
                0 <= i < j < v@.len() ==> (#[trigger] v@[i]).0 != (#[trigger] v@[j]).0,
            pairs_sorted(out@),
            forall|i: int, j: int|
                0 <= i < out@.len() && 0 <= j < v@.len() ==> (#[trigger] out@[i]).0 < (
                #[trigger] v@[j]).0,
        decreases v@.len(),
    {
        let n = v.len();
        let mut m: usize = 0;
        let mut k: usize = 1;
        while k < n
            invariant
                0 < n == v@.len(),
                0 <= m < k <= n,
                forall|t: int| 0 <= t < k ==> (#[trigger] v@[t]).0 >= v@[m as int].0,
            decreases n - k,
        {
            if v[k].0 < v[m].0 {
                m = k;
            }
            k = k + 1;
        }
        let ghost v0 = v@;
        let ghost out0 = out@;
        let p = v.remove(m);
        proof {
            assert(v@ =~= v0.subrange(0, m as int) + v0.subrange(m + 1, v0.len() as int));
            assert(forall|t: int|
                0 <= t < v@.len() ==> #[trigger] v@[t] == (if t < m {
                    v0[t]
                } else {
                    v0[t + 1]
                }));
            assert forall|x: (i32, i32)| #[trigger] v@.contains(x) implies v0.contains(x) by {
                let t = choose|t: int| 0 <= t < v@.len() && v@[t] == x;
                if t < m {
                    assert(v0[t] == x);
                } else {
                    assert(v0[t + 1] == x);
                }
            }
        }
        out.push(p);
        proof {
            assert(out@ =~= out0.push(p));
            assert(p == v0[m as int]);
            assert(v0.contains(p));
            assert forall|x: (i32, i32)| #[trigger] out@.contains(x) implies input@.contains(
                x,
            ) by {
                let t = choose|t: int| 0 <= t < out@.len() && out@[t] == x;
                if t < out0.len() {
                    assert(out0[t] == x);
                    assert(out0.contains(x));
                } else {
                    assert(x == p);
                }
            }
            assert forall|x: (i32, i32)| #[trigger] input@.contains(x) implies out@.contains(x)
                || v@.contains(x) by {
                if out0.contains(x) {
                    let t = choose|t: int| 0 <= t < out0.len() && out0[t] == x;
                    assert(out@[t] == x);
                } else if v0.contains(x) {
                    let t = choose|t: int| 0 <= t < v0.len() && v0[t] == x;
                    if t == m {
                        assert(out@[out0.len() as int] == x);
                    } else if t < m {
                        assert(v@[t] == x);
                    } else {
                        assert(v@[t - 1] == x);
                    }
                }
            }
            assert forall|i: int, j: int|
                0 <= i < out@.len() && 0 <= j < v@.len() implies (#[trigger] out@[i]).0 < (
            #[trigger] v@[j]).0 by {
                let w = if j < m {
                    j
                } else {
                    j + 1
                };
                assert(v@[j] == v0[w]);
                assert(w != m);
                assert(v0[w].0 >= p.0);
                assert(v0[w].0 != p.0);
                if i < out0.len() {
                    assert(out0[i].0 < v0[w].0);
                } else {
                    assert(out@[i] == p);
                }
            }
            assert(pairs_sorted(out@));
        }
    }
    proof {
        assert(v@.len() == 0);
    }
    out
}

/// Sort values into strictly ascending order by repeatedly extracting the
/// minimum.
fn sort_values(input: Vec<i32>) -> (r: Vec<i32>)
    requires
        forall|i: int, j: int| 0 <= i < j < input@.len() ==> input@[i] != input@[j],
    ensures
        r@.len() == input@.len(),
        forall|x: i32| r@.contains(x) <==> input@.contains(x),
        elems_sorted(r@),
{
    let mut v = input;
    let mut out: Vec<i32> = Vec::new();
    while v.len() > 0
        invariant
            out@.len() + v@.len() == input@.len(),
            forall|x: i32| #[trigger] out@.contains(x) ==> input@.contains(x),
            forall|x: i32| #[trigger] v@.contains(x) ==> input@.contains(x),
            forall|x: i32| #[trigger] input@.contains(x) ==> out@.contains(x) || v@.contains(x),
            forall|i: int, j: int| 0 <= i < j < v@.len() ==> v@[i] != v@[j],
            elems_sorted(out@),
            forall|i: int, j: int|
                0 <= i < out@.len() && 0 <= j < v@.len() ==> out@[i] < v@[j],
        decreases v@.len(),
    {
        let n = v.len();
        let mut m: usize = 0;
        let mut k: usize = 1;
        while k < n
            invariant
                0 < n == v@.len(),
                0 <= m < k <= n,
                forall|t: int| 0 <= t < k ==> #[trigger] v@[t] >= v@[m as int],
            decreases n - k,
        {
            if v[k] < v[m] {
                m = k;
            }
            k = k + 1;
        }
        let ghost v0 = v@;
        let ghost out0 = out@;
        let p = v.remove(m);
        proof {
            assert(v@ =~= v0.subrange(0, m as int) + v0.subrange(m + 1, v0.len() as int));
            assert(forall|t: int|
                0 <= t < v@.len() ==> #[trigger] v@[t] == (if t < m {
                    v0[t]
                } else {
                    v0[t + 1]
                }));
            assert forall|x: i32| #[trigger] v@.contains(x) implies v0.contains(x) by {
                let t = choose|t: int| 0 <= t < v@.len() && v@[t] == x;
                if t < m {
                    assert(v0[t] == x);
                } else {
                    assert(v0[t + 1] == x);
                }
            }
        }
        out.push(p);
        proof {
            assert(out@ =~= out0.push(p));
            assert(p == v0[m as int]);
            assert(v0.contains(p));
            assert forall|x: i32| #[trigger] out@.contains(x) implies input@.contains(x) by {
                let t = choose|t: int| 0 <= t < out@.len() && out@[t] == x;
                if t < out0.len() {
                    assert(out0[t] == x);
                    assert(out0.contains(x));
                } else {
                    assert(x == p);
                }
            }
            assert forall|x: i32| #[trigger] input@.contains(x) implies out@.contains(x)
                || v@.contains(x) by {
                if out0.contains(x) {
                    let t = choose|t: int| 0 <= t < out0.len() && out0[t] == x;
                    assert(out@[t] == x);
                } else if v0.contains(x) {
                    let t = choose|t: int| 0 <= t < v0.len() && v0[t] == x;
                    if t == m {
                        assert(out@[out0.len() as int] == x);
                    } else if t < m {
                        assert(v@[t] == x);
                    } else {
                        assert(v@[t - 1] == x);
                    }
                }
            }
            assert forall|i: int, j: int|
                0 <= i < out@.len() && 0 <= j < v@.len() implies out@[i] < v@[j] by {
                let w = if j < m {
                    j
                } else {
                    j + 1
                };
                assert(v@[j] == v0[w]);
                assert(w != m);
                assert(v0[w] >= p);
                assert(v0[w] != p);
                if i < out0.len() {
                    assert(out0[i] < v0[w]);
                } else {
                    assert(out@[i] == p);
                }
            }
            assert(elems_sorted(out@));
        }
    }
    out
}

/// Relies on `HashMap::iter`: every entry of the map is yielded exactly
/// once; the order is the hasher's business and no promise is made of it.
#[verifier::external_body]
fn map_entries(m: &HashMap<i32, i32>) -> (r: Vec<(i32, i32)>)
    ensures
        r@.len() == m@.dom().len(),
        forall|i: int|
            0 <= i < r@.len() ==> m@.contains_key(#[trigger] r@[i].0) && m@.index(r@[i].0)
                == r@[i].1,
        forall|i: int, j: int| 0 <= i < j < r@.len() ==> r@[i].0 != r@[j].0,
        forall|k: i32| m@.contains_key(k) ==> exists|i: int| 0 <= i < r@.len() && r@[i].0 == k,
{
    m.iter().map(|(k, v)| (*k, *v)).collect()
}

/// Write view over a map of i32 to i32: the entries are written in
/// ascending key order, the one canonical order, so the serialization is a
/// pure function of the map's logical content.
pub struct FieldModelMapI32Mut {
    offset: usize,
}

impl FieldModelMapI32Mut {
    pub closed spec fn spec_offset(&self) -> int {
        self.offset as int
    }

    pub fn new(offset: usize) -> (r: Self)
        ensures
            r.spec_offset() == offset,
    {
        Self { offset }
    }

    pub fn set(&self, buffer: &mut WriteBuffer, map: &HashMap<i32, i32>)
        requires
            old(buffer).wf(),
            old(buffer).spec_offset() + self.spec_offset() + 4 <= old(buffer).spec_size(),
            old(buffer).spec_size() + 4 + 8 * map@.dom().len() <= u32::MAX,
        ensures
            final(buffer).spec_size() == old(buffer).spec_size() + 4 + 8 * map@.dom().len(),
            final(buffer).spec_offset() == old(buffer).spec_offset(),
            exists|ps: Seq<(i32, i32)>|
                {
                    &&& pairs_sorted(ps)
                    &&& map_pairs_of(ps, map@)
                    &&& final(buffer).bytes() == splice(
                        splice(
                            crate::buffer::grown(
                                old(buffer).bytes(),
                                old(buffer).spec_size() + 4 + 8 * ps.len(),
                            ),
                            old(buffer).spec_offset() + self.spec_offset(),
                            spec_u32_to_le_bytes(
                                (old(buffer).spec_size() - old(buffer).spec_offset()) as u32,
                            ),
                        ),
                        old(buffer).spec_size(),
                        enc_map_i32(ps),
                    )
                },
            final(buffer).wf(),
    {
        let pairs = map_entries(map);
        let ghost raw = pairs@;
        let sorted = sort_pairs_by_key(pairs);
        proof {
            assert forall|i: int|
                0 <= i < sorted@.len() implies map@.contains_key((#[trigger] sorted@[i]).0)
                && map@.index(sorted@[i].0) == sorted@[i].1 by {
                assert(sorted@.contains(sorted@[i]));
                let t = choose|t: int| 0 <= t < raw.len() && raw[t] == sorted@[i];
            }
            assert forall|k: i32| map@.contains_key(k) implies exists|i: int|
                0 <= i < sorted@.len() && sorted@[i].0 == k by {
                let t = choose|t: int| 0 <= t < raw.len() && raw[t].0 == k;
                assert(raw.contains(raw[t]));
                assert(sorted@.contains(raw[t]));
                let i = choose|i: int| 0 <= i < sorted@.len() && sorted@[i] == raw[t];
                assert(sorted@[i].0 == k);
            }
            assert(map_pairs_of(sorted@, map@));
        }
        buffer.write_map_i32(self.offset, sorted.as_slice());
    }
}

/// Read view over a set of i32: the set shares the vector's wire format.
pub struct FieldModelSetI32<'a> {
    buffer: &'a [u8],
    offset: usize,
}

impl<'a> FieldModelSetI32<'a> {
    pub closed spec fn buf(&self) -> Seq<u8> {
        self.buffer@
    }

    pub fn new(buffer: &'a [u8], offset: usize) -> (r: Self)
        ensures
            r.buf() == buffer@,
            r.spec_offset() == offset,
    {
        Self { buffer, offset }
    }

    pub fn get(&self) -> (r: HashSet<i32>)
        requires
            i32_block_readable(self.buf(), self.spec_offset(), 4),
        ensures
            r@ == elems_to_set(dec_vector_i32(self.buf(), 0, self.spec_offset())),
    {
        broadcast use vstd::std_specs::hash::group_hash_axioms;

        let rb = reader_over(self.buffer);
        let values = rb.read_set_i32(self.offset);
        let ghost vs = dec_vector_i32(self.buf(), 0, self.spec_offset());
        let mut result: HashSet<i32> = HashSet::new();
        let n = values.len();
        let mut i: usize = 0;
        while i < n
            invariant
                0 <= i <= n,
                n == values@.len(),
                values@ == vs,
                result@ == elems_to_set(vs.take(i as int)),
            decreases n - i,
        {
            let v = values[i];
            result.insert(v);
            proof {
                assert(vs.take(i + 1).drop_last() =~= vs.take(i as int));
            }
            i = i + 1;
        }
        proof {
            assert(vs.take(n as int) =~= vs);
        }
        result
    }
}

impl<'a> FieldModel for FieldModelSetI32<'a> {
    closed spec fn spec_offset(&self) -> int {
        self.offset as int
    }

    open spec fn spec_size(&self) -> int {
        4
    }

    open spec fn spec_extra(&self) -> int {
        if self.buf().len() < self.spec_offset() + 4 {
            0
        } else {
            let p = le32_at(self.buf(), self.spec_offset()) as int;
            if p == 0 || self.buf().len() < p + 4 {
                0
            } else {
                cap_usize(4 + 4 * le32_at(self.buf(), p))
            }
        }
    }

    fn offset(&self) -> usize {
        self.offset
    }

    fn set_offset(&mut self, offset: usize) {
        self.offset = offset;
    }

    fn size(&self) -> usize {
        4
    }

    fn extra(&self) -> (r: usize)
        ensures
            r == self.spec_extra(),
    {
        let len = self.buffer.len();
        if len < 4 || self.offset > len - 4 {
            return 0;
        }
        let pointer = vstd::bytes::u32_from_le_bytes(
            &self.buffer[self.offset..self.offset + 4],
        ) as usize;
        if pointer == 0 || len < 4 || pointer > len - 4 {
            return 0;
        }
        let count = vstd::bytes::u32_from_le_bytes(&self.buffer[pointer..pointer + 4]);
        let total: u128 = 4 + (count as u128) * 4;
        if total > usize::MAX as u128 {
            usize::MAX
        } else {
            total as usize
        }
    }

    fn shift(&mut self, size: usize) {
        self.offset = self.offset + size;
    }

    fn unshift(&mut self, size: usize) {
        self.offset = self.offset - size;
    }

    fn verify(&self) -> bool {
        true
    }
}

/// Relies on `HashSet::iter`: every element is yielded exactly once; the
/// order is the hasher's business and no promise is made of it.
#[verifier::external_body]
fn set_items(s: &HashSet<i32>) -> (r: Vec<i32>)
    ensures
        r@.len() == s@.len(),
        forall|i: int| 0 <= i < r@.len() ==> s@.contains(#[trigger] r@[i]),
        forall|i: int, j: int| 0 <= i < j < r@.len() ==> r@[i] != r@[j],
        forall|x: i32| s@.contains(x) ==> exists|i: int| 0 <= i < r@.len() && r@[i] == x,
{
    s.iter().copied().collect()
}

/// Write view over a set of i32: elements are written in ascending order,
/// the one canonical order, so the serialization is a pure function of the
/// set's logical content.
pub struct FieldModelSetI32Mut {
    offset: usize,
}

impl FieldModelSetI32Mut {
    pub closed spec fn spec_offset(&self) -> int {
        self.offset as int
    }

    pub fn new(offset: usize) -> (r: Self)
        ensures
            r.spec_offset() == offset,
    {
        Self { offset }
    }

    pub fn set(&self, buffer: &mut WriteBuffer, values: &HashSet<i32>)
        requires
            old(buffer).wf(),
            old(buffer).spec_offset() + self.spec_offset() + 4 <= old(buffer).spec_size(),
            old(buffer).spec_size() + 4 + 4 * values@.len() <= u32::MAX,
        ensures
            final(buffer).spec_size() == old(buffer).spec_size() + 4 + 4 * values@.len(),
            final(buffer).spec_offset() == old(buffer).spec_offset(),
            exists|vs: Seq<i32>|
                {
                    &&& elems_sorted(vs)
                    &&& set_elems_of(vs, values@)
                    &&& final(buffer).bytes() == splice(
                        splice(
                            crate::buffer::grown(
                                old(buffer).bytes(),
                                old(buffer).spec_size() + 4 + 4 * vs.len(),
                            ),
                            old(buffer).spec_offset() + self.spec_offset(),
                            spec_u32_to_le_bytes(
                                (old(buffer).spec_size() - old(buffer).spec_offset()) as u32,
                            ),
                        ),
                        old(buffer).spec_size(),
                        enc_vector_i32(vs),
                    )
                },
            final(buffer).wf(),
    {
        let items = set_items(values);
        let ghost raw = items@;
        let sorted = sort_values(items);
        proof {
            assert forall|i: int| 0 <= i < sorted@.len() implies values@.contains(
                #[trigger] sorted@[i],
            ) by {
                assert(sorted@.contains(sorted@[i]));
                let t = choose|t: int| 0 <= t < raw.len() && raw[t] == sorted@[i];
            }
            assert forall|x: i32| values@.contains(x) implies exists|i: int|
                0 <= i < sorted@.len() && sorted@[i] == x by {
                let t = choose|t: int| 0 <= t < raw.len() && raw[t] == x;
                assert(raw.contains(x));
                assert(sorted@.contains(x));
            }
            assert(set_elems_of(sorted@, values@));
        }
        buffer.write_set_i32(self.offset, sorted.as_slice());
    }
}

/// Read view over a vector of strings: a 4-byte pointer to a count-prefixed
/// run of length-prefixed strings.
pub struct FieldModelVectorString<'a> {
    buffer: &'a [u8],
    offset: usize,
}

impl<'a> FieldModelVectorString<'a> {
    pub closed spec fn buf(&self) -> Seq<u8> {
        self.buffer@
    }

    pub fn new(buffer: &'a [u8], offset: usize) -> (r: Self)
        ensures
            r.buf() == buffer@,
            r.spec_offset() == offset,
    {
        Self { buffer, offset }
    }

    pub fn get(&self) -> (r: Vec<String>)
        requires
            self.spec_offset() + 4 <= self.buf().len(),
            ({
                let p = le32_at(self.buf(), self.spec_offset()) as int;
                p != 0 ==> p + 4 <= self.buf().len() && strings_wf(
                    self.buf(),
                    self.buf().len() as int,
                    p + 4,
                    le32_at(self.buf(), p) as int,
                )
            }),
        ensures
            ({
                let p = le32_at(self.buf(), self.spec_offset()) as int;
                if p == 0 {
                    r@.len() == 0
                } else {
                    let n = le32_at(self.buf(), p) as int;
                    let blocks = dec_string_blocks(self.buf(), p + 4, n);
                    r@.len() == n && (forall|k: int|
                        0 <= k < n ==> #[trigger] r@[k]@ == crate::buffer::lossy_decode(blocks[k]))
                        && (forall|k: int|
                        0 <= k < n ==> vstd::utf8::valid_utf8(#[trigger] blocks[k]) ==> r@[k]@
                            == vstd::utf8::decode_utf8(blocks[k]))
                }
            }),
    {
        let rb = reader_over(self.buffer);
        rb.read_vector_string(self.offset)
    }
}

impl<'a> FieldModel for FieldModelVectorString<'a> {
    closed spec fn spec_offset(&self) -> int {
        self.offset as int
    }

    open spec fn spec_size(&self) -> int {
        4
    }

    open spec fn spec_extra(&self) -> int {
        if self.buf().len() < self.spec_offset() + 4 {
            0
        } else {
            let p = le32_at(self.buf(), self.spec_offset()) as int;
            if p == 0 || self.buf().len() < p + 4 {
                0
            } else {
                let n = le32_at(self.buf(), p) as int;
                cap_usize(4 + string_run_extra(self.buf(), p + 4, n))
            }
        }
    }

    fn offset(&self) -> usize {
        self.offset
    }

    fn set_offset(&mut self, offset: usize) {
        self.offset = offset;
    }

    fn size(&self) -> usize {
        4
    }

    fn extra(&self) -> (r: usize)
        ensures
            r == self.spec_extra(),
    {
        let len = self.buffer.len();
        if len < 4 || self.offset > len - 4 {
            return 0;
        }
        let pointer = vstd::bytes::u32_from_le_bytes(
            &self.buffer[self.offset..self.offset + 4],
        ) as usize;
        if pointer == 0 || pointer > len - 4 {
            return 0;
        }
        let count = vstd::bytes::u32_from_le_bytes(
            &self.buffer[pointer..pointer + 4],
        ) as usize;
        let run = string_run_len(self.buffer, pointer + 4, count);
        let total: u128 = 4 + run;
        if total > usize::MAX as u128 {
            usize::MAX
        } else {
            total as usize
        }
    }

    fn shift(&mut self, size: usize) {
        self.offset = self.offset + size;
    }

    fn unshift(&mut self, size: usize) {
        self.offset = self.offset - size;
    }

    fn verify(&self) -> bool {
        true
    }
}

/// Write view over a vector of strings.
pub struct FieldModelVectorStringMut {
    offset: usize,
}

impl FieldModelVectorStringMut {
    pub closed spec fn spec_offset(&self) -> int {
        self.offset as int
    }

    pub fn new(offset: usize) -> (r: Self)
        ensures
            r.spec_offset() == offset,
    {
        Self { offset }
    }

    pub fn set(&self, buffer: &mut WriteBuffer, values: &[String])
        requires
            old(buffer).wf(),
            old(buffer).spec_offset() + self.spec_offset() + 4 <= old(buffer).spec_size(),
            old(buffer).spec_size() + enc_vector_string(strings_bytes(values@)).len() <= u32::MAX,
            forall|i: int|
                0 <= i < values@.len() ==> #[trigger] strings_bytes(values@)[i].len() <= i32::MAX,
        ensures
            final(buffer).spec_size() == old(buffer).spec_size() + enc_vector_string(
                strings_bytes(values@),
            ).len(),
            final(buffer).spec_offset() == old(buffer).spec_offset(),
            final(buffer).bytes() == splice(
                splice(
                    crate::buffer::grown(
                        old(buffer).bytes(),
                        old(buffer).spec_size() + enc_vector_string(strings_bytes(values@)).len(),
                    ),
                    old(buffer).spec_offset() + self.spec_offset(),
                    spec_u32_to_le_bytes(
                        (old(buffer).spec_size() - old(buffer).spec_offset()) as u32,
                    ),
                ),
                old(buffer).spec_size(),
                enc_vector_string(strings_bytes(values@)),
            ),
            final(buffer).wf(),
    {
        buffer.write_vector_string(self.offset, values);
    }
}

/// Read view over a fixed-size array of strings: length-prefixed strings
/// back to back, no pointer and no count.
pub struct FieldModelArrayString<'a> {
    buffer: &'a [u8],
    offset: usize,
    count: usize,
}

impl<'a> FieldModelArrayString<'a> {
    pub closed spec fn buf(&self) -> Seq<u8> {
        self.buffer@
    }

    pub closed spec fn spec_count(&self) -> int {
        self.count as int
    }

    pub fn new(buffer: &'a [u8], offset: usize, count: usize) -> (r: Self)
        ensures
            r.buf() == buffer@,
            r.spec_offset() == offset,
            r.spec_count() == count,
    {
        Self { buffer, offset, count }
    }

    pub fn get(&self) -> (r: Vec<String>)
        requires
            self.buf().len() > 0,
            self.spec_offset() <= self.buf().len(),
            strings_wf(self.buf(), self.buf().len() as int, self.spec_offset(), self.spec_count()),
        ensures
            r@.len() == self.spec_count(),
            forall|k: int|
                0 <= k < self.spec_count() ==> #[trigger] r@[k]@ == crate::buffer::lossy_decode(
                    dec_string_blocks(self.buf(), self.spec_offset(), self.spec_count())[k],
                ),
            forall|k: int|
                0 <= k < self.spec_count() ==> vstd::utf8::valid_utf8(
                    #[trigger] dec_string_blocks(
                        self.buf(),
                        self.spec_offset(),
                        self.spec_count(),
                    )[k],
                ) ==> r@[k]@ == vstd::utf8::decode_utf8(
                    dec_string_blocks(self.buf(), self.spec_offset(), self.spec_count())[k],
                ),
    {
        let rb = reader_over(self.buffer);
        rb.read_array_string(self.offset, self.count)
    }
}

impl<'a> FieldModel for FieldModelArrayString<'a> {
    closed spec fn spec_offset(&self) -> int {
        self.offset as int
    }

    open spec fn spec_size(&self) -> int {
        cap_usize(string_run_extra(self.buf(), self.spec_offset(), self.spec_count()))
    }

    open spec fn spec_extra(&self) -> int {
        0
    }

    fn offset(&self) -> usize {
        self.offset
    }

    fn set_offset(&mut self, offset: usize) {
        self.offset = offset;
    }

    fn size(&self) -> (r: usize)
        ensures
            r == self.spec_size(),
    {
        let run = string_run_len(self.buffer, self.offset, self.count);
        if run > usize::MAX as u128 {
            usize::MAX
        } else {
            run as usize
        }
    }

    fn extra(&self) -> usize {
        0
    }

    fn shift(&mut self, size: usize) {
        self.offset = self.offset + size;
    }

    fn unshift(&mut self, size: usize) {
        self.offset = self.offset - size;
    }

    fn verify(&self) -> bool {
        true
    }
}

/// Write view over a fixed-size array of strings: the declared count must
/// match the values handed in.
pub struct FieldModelArrayStringMut {
    offset: usize,
    count: usize,
}

impl FieldModelArrayStringMut {
    pub closed spec fn spec_offset(&self) -> int {
        self.offset as int
    }

    pub closed spec fn spec_count(&self) -> int {
        self.count as int
    }

    pub fn new(offset: usize, count: usize) -> (r: Self)
        ensures
            r.spec_offset() == offset,
            r.spec_count() == count,
    {
        Self { offset, count }
    }

    pub fn set(&self, buffer: &mut WriteBuffer, values: &[String])
        requires
            values@.len() == self.spec_count(),
            old(buffer).spec_offset() + self.spec_offset() + enc_string_elems(
                strings_bytes(values@),
            ).len() <= old(buffer).bytes().len(),
            forall|i: int|
                0 <= i < values@.len() ==> #[trigger] strings_bytes(values@)[i].len() <= i32::MAX,
        ensures
            final(buffer).bytes() == splice(
                old(buffer).bytes(),
                old(buffer).spec_offset() + self.spec_offset(),
                enc_string_elems(strings_bytes(values@)),
            ),
            final(buffer).spec_size() == old(buffer).spec_size(),
            final(buffer).spec_offset() == old(buffer).spec_offset(),
    {
        buffer.write_array_string(self.offset, values);
    }
}

} // verus!
