//! A nested-struct demonstration: a record whose strings are written through
//! relative pointers to appended blocks, behind an 8-byte struct header.

use vstd::prelude::*;
use vstd::bytes::spec_u32_to_le_bytes;
use vstd::string::StringSliceAdditionalSpecFns;
use crate::buffer::{ReadBuffer, WriteBuffer, lossy_decode};
use crate::wire::{le32_at, dec_block};

verus! {

#[derive(Debug)]
pub struct Address {
    pub city: String,
    pub country: String,
}

impl Address {
    pub open spec fn wf(&self) -> bool {
        vstd::utf8::encode_utf8(self.city@).len() <= i32::MAX && vstd::utf8::encode_utf8(
            self.country@,
        ).len() <= i32::MAX
    }

    pub fn new(city: String, country: String) -> (r: Self)
        ensures
            r.city == city,
            r.country == country,
    {
        Self { city, country }
    }

    /// Serialize at `offset`: an 8-byte struct header, then two 4-byte
    /// pointers to the appended city and country blocks; returns the
    /// buffer's new size.
    #[verifier::rlimit(100)]
    pub fn serialize(&self, buffer: &mut WriteBuffer, offset: usize) -> (r: usize)
        requires
            self.wf(),
            old(buffer).wf(),
            old(buffer).spec_offset() == 0,
            offset + 16 <= old(buffer).spec_size(),
            old(buffer).spec_size() + 8 + vstd::utf8::encode_utf8(self.city@).len()
                + vstd::utf8::encode_utf8(self.country@).len() <= u32::MAX,
        ensures
            ({
                let b = final(buffer).bytes();
                let s0 = old(buffer).spec_size();
                let cb = vstd::utf8::encode_utf8(self.city@);
                let ob = vstd::utf8::encode_utf8(self.country@);
                &&& final(buffer).spec_size() == s0 + 8 + cb.len() + ob.len()
                &&& r == final(buffer).spec_size()
                &&& le32_at(b, offset as int) == 0
                &&& le32_at(b, offset + 4) == 8
                &&& le32_at(b, offset + 8) == s0
                &&& le32_at(b, s0) == cb.len()
                &&& dec_block(b, s0) == cb
                &&& le32_at(b, offset + 12) == s0 + 4 + cb.len()
                &&& le32_at(b, s0 + 4 + cb.len()) == ob.len()
                &&& dec_block(b, s0 + 4 + cb.len()) == ob
                &&& (forall|k: int|
                    0 <= k < s0 && !(offset <= k < offset + 16) ==> b[k] == old(buffer).bytes()[k])
            }),
            final(buffer).spec_offset() == 0,
            final(buffer).wf(),
    {
        proof {
            vstd::bytes::lemma_auto_spec_u32_to_from_le_bytes();
        }
        let cap = buffer.capacity();
        let base_offset = offset + 8;
        buffer.write_i32(offset, 0);
        buffer.write_i32(offset + 4, 8);
        let city_ptr = buffer.size();
        buffer.write_u32(base_offset, city_ptr as u32);
        buffer.allocate(4 + self.city.as_str().len());
        let cap2 = buffer.capacity();
        buffer.write_string(city_ptr, self.city.as_str());
        let country_ptr = buffer.size();
        buffer.write_u32(base_offset + 4, country_ptr as u32);
        buffer.allocate(4 + self.country.as_str().len());
        let cap3 = buffer.capacity();
        buffer.write_string(country_ptr, self.country.as_str());
        proof {
            let b = final(buffer).bytes();
            let s0 = old(buffer).spec_size();
            let cb = vstd::utf8::encode_utf8(self.city@);
            let ob = vstd::utf8::encode_utf8(self.country@);
            assert(b.subrange(offset as int, offset + 4) =~= spec_u32_to_le_bytes(0));
            assert(b.subrange(offset + 4, offset + 8) =~= spec_u32_to_le_bytes(8));
            assert(b.subrange(offset + 8, offset + 12) =~= spec_u32_to_le_bytes(s0 as u32));
            assert(b.subrange(s0 as int, s0 + 4) =~= spec_u32_to_le_bytes(cb.len() as u32));
            assert(dec_block(b, s0 as int) =~= cb);
            assert(b.subrange(offset + 12, offset + 16) =~= spec_u32_to_le_bytes(
                (s0 + 4 + cb.len()) as u32,
            ));
            assert(b.subrange(s0 + 4 + cb.len(), s0 + 8 + cb.len()) =~= spec_u32_to_le_bytes(
                ob.len() as u32,
            ));
            assert(dec_block(b, s0 + 4 + cb.len()) =~= ob);
        }
        buffer.size()
    }

    /// Deserialize from `offset`: follow the two pointers past the header
    /// and decode the blocks.
    pub fn deserialize(buffer: &ReadBuffer, offset: usize) -> (r: Self)
        requires
            buffer.wf(),
            buffer.spec_offset() == 0,
            offset + 16 <= buffer.spec_size(),
            ({
                let cp = le32_at(buffer.bytes(), offset + 8) as int;
                let op = le32_at(buffer.bytes(), offset + 12) as int;
                &&& cp + 4 <= buffer.spec_size()
                &&& le32_at(buffer.bytes(), cp) <= i32::MAX
                &&& cp + 4 + le32_at(buffer.bytes(), cp) <= buffer.spec_size()
                &&& op + 4 <= buffer.spec_size()
                &&& le32_at(buffer.bytes(), op) <= i32::MAX
                &&& op + 4 + le32_at(buffer.bytes(), op) <= buffer.spec_size()
            }),
        ensures
            ({
                let cp = le32_at(buffer.bytes(), offset + 8) as int;
                let op = le32_at(buffer.bytes(), offset + 12) as int;
                &&& r.city@ == lossy_decode(dec_block(buffer.bytes(), cp))
                &&& r.country@ == lossy_decode(dec_block(buffer.bytes(), op))
                &&& (vstd::utf8::valid_utf8(dec_block(buffer.bytes(), cp)) ==> r.city@
                    == vstd::utf8::decode_utf8(dec_block(buffer.bytes(), cp)))
                &&& (vstd::utf8::valid_utf8(dec_block(buffer.bytes(), op)) ==> r.country@
                    == vstd::utf8::decode_utf8(dec_block(buffer.bytes(), op)))
            }),
    {
        let sz = buffer.size();
        let base_offset = offset + 8;
        let city_ptr = buffer.read_u32(base_offset) as usize;
        let city = buffer.read_string(city_ptr);
        let country_ptr = buffer.read_u32(base_offset + 4) as usize;
        let country = buffer.read_string(country_ptr);
        Self { city, country }
    }
}

impl Clone for Address {
    fn clone(&self) -> (r: Self)
        ensures
            r.city@ == self.city@,
            r.country@ == self.country@,
    {
        Self { city: self.city.clone(), country: self.country.clone() }
    }
}

impl PartialEq for Address {
    fn eq(&self, other: &Self) -> (r: bool) {
        self.city == other.city && self.country == other.country
    }
}

impl vstd::std_specs::cmp::PartialEqSpecImpl for Address {
    open spec fn obeys_eq_spec() -> bool {
        true
    }

    open spec fn eq_spec(&self, other: &Self) -> bool {
        self.city@ == other.city@ && self.country@ == other.country@
    }
}

impl Eq for Address {

}

} // verus!
