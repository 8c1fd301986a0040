//! A record holding a nested struct: the nested address is addressed inline
//! at its own position inside the parent's layout, its strings through
//! relative pointers like the parent's own.

use vstd::prelude::*;
use vstd::bytes::spec_u32_to_le_bytes;
use vstd::string::StringSliceAdditionalSpecFns;
use crate::address::Address;
use crate::buffer::{ReadBuffer, WriteBuffer, lossy_decode};
use crate::wire::{le32_at, dec_block};

verus! {

#[derive(Debug)]
pub struct UserWithAddress {
    pub id: i32,
    pub name: String,
    pub address: Address,
}

impl UserWithAddress {
    pub open spec fn wf(&self) -> bool {
        vstd::utf8::encode_utf8(self.name@).len() <= i32::MAX && self.address.wf()
    }

    pub fn new(id: i32, name: String, address: Address) -> (r: Self)
        ensures
            r.id == id,
            r.name == name,
            r.address == address,
    {
        Self { id, name, address }
    }

    /// Serialize at `offset`: an 8-byte struct header, the id, a pointer to
    /// the appended name block, then the nested address inline; returns the
    /// buffer's new size.
    #[verifier::rlimit(100)]
    pub fn serialize(&self, buffer: &mut WriteBuffer, offset: usize) -> (r: usize)
        requires
            self.wf(),
            old(buffer).wf(),
            old(buffer).spec_offset() == 0,
            offset + 32 <= old(buffer).spec_size(),
            old(buffer).spec_size() + 12 + vstd::utf8::encode_utf8(self.name@).len()
                + vstd::utf8::encode_utf8(self.address.city@).len() + vstd::utf8::encode_utf8(
                self.address.country@,
            ).len() <= u32::MAX,
        ensures
            ({
                let b = final(buffer).bytes();
                let s0 = old(buffer).spec_size();
                let nb = vstd::utf8::encode_utf8(self.name@);
                let cb = vstd::utf8::encode_utf8(self.address.city@);
                let ob = vstd::utf8::encode_utf8(self.address.country@);
                &&& final(buffer).spec_size() == s0 + 12 + nb.len() + cb.len() + ob.len()
                &&& r == final(buffer).spec_size()
                &&& le32_at(b, offset + 8) as i32 == self.id
                &&& le32_at(b, offset + 12) == s0
                &&& le32_at(b, s0) == nb.len()
                &&& dec_block(b, s0) == nb
                &&& le32_at(b, offset + 24) == s0 + 4 + nb.len()
                &&& le32_at(b, s0 + 4 + nb.len()) == cb.len()
                &&& dec_block(b, s0 + 4 + nb.len()) == cb
                &&& le32_at(b, offset + 28) == s0 + 8 + nb.len() + cb.len()
                &&& le32_at(b, s0 + 8 + nb.len() + cb.len()) == ob.len()
                &&& dec_block(b, s0 + 8 + nb.len() + cb.len()) == ob
            }),
            final(buffer).spec_offset() == 0,
            final(buffer).wf(),
    {
        proof {
            vstd::bytes::lemma_auto_spec_u32_to_from_le_bytes();
        }
        let cap = buffer.capacity();
        let base_offset = offset + 8;
        buffer.write_i32(offset, 0);
        buffer.write_i32(offset + 4, 24);
        buffer.write_i32(base_offset, self.id);
        let name_ptr = buffer.size();
        buffer.write_u32(base_offset + 4, name_ptr as u32);
        buffer.allocate(4 + self.name.as_str().len());
        let cap2 = buffer.capacity();
        buffer.write_string(name_ptr, self.name.as_str());
        proof {
            let b = buffer.bytes();
            let s0 = old(buffer).spec_size();
            let nb = vstd::utf8::encode_utf8(self.name@);
            assert(b.subrange(offset + 8, offset + 12) =~= spec_u32_to_le_bytes(self.id as u32));
            assert(b.subrange(offset + 12, offset + 16) =~= spec_u32_to_le_bytes(s0 as u32));
            assert(b.subrange(s0 as int, s0 + 4) =~= spec_u32_to_le_bytes(nb.len() as u32));
            assert(dec_block(b, s0 as int) =~= nb);
            crate::laws::lemma_i32_cast(self.id);
        }
        let r = self.address.serialize(buffer, base_offset + 8);
        proof {
            let b = final(buffer).bytes();
            let s0 = old(buffer).spec_size();
            let nb = vstd::utf8::encode_utf8(self.name@);
            assert(b.subrange(offset + 8, offset + 12) =~= spec_u32_to_le_bytes(self.id as u32));
            assert(b.subrange(offset + 12, offset + 16) =~= spec_u32_to_le_bytes(s0 as u32));
            assert(b.subrange(s0 as int, s0 + 4) =~= spec_u32_to_le_bytes(nb.len() as u32));
            assert(dec_block(b, s0 as int) =~= nb);
        }
        r
    }

    /// Deserialize from `offset`: the id, the name through its pointer, and
    /// the nested address inline.
    pub fn deserialize(buffer: &ReadBuffer, offset: usize) -> (r: Self)
        requires
            buffer.wf(),
            buffer.spec_offset() == 0,
            offset + 32 <= buffer.spec_size(),
            ({
                let np = le32_at(buffer.bytes(), offset + 12) as int;
                &&& np + 4 <= buffer.spec_size()
                &&& le32_at(buffer.bytes(), np) <= i32::MAX
                &&& np + 4 + le32_at(buffer.bytes(), np) <= buffer.spec_size()
            }),
            ({
                let cp = le32_at(buffer.bytes(), offset + 24) as int;
                let op = le32_at(buffer.bytes(), offset + 28) as int;
                &&& cp + 4 <= buffer.spec_size()
                &&& le32_at(buffer.bytes(), cp) <= i32::MAX
                &&& cp + 4 + le32_at(buffer.bytes(), cp) <= buffer.spec_size()
                &&& op + 4 <= buffer.spec_size()
                &&& le32_at(buffer.bytes(), op) <= i32::MAX
                &&& op + 4 + le32_at(buffer.bytes(), op) <= buffer.spec_size()
            }),
        ensures
            ({
                let np = le32_at(buffer.bytes(), offset + 12) as int;
                let cp = le32_at(buffer.bytes(), offset + 24) as int;
                let op = le32_at(buffer.bytes(), offset + 28) as int;
                &&& r.id == le32_at(buffer.bytes(), offset + 8) as i32
                &&& r.name@ == lossy_decode(dec_block(buffer.bytes(), np))
                &&& r.address.city@ == lossy_decode(dec_block(buffer.bytes(), cp))
                &&& r.address.country@ == lossy_decode(dec_block(buffer.bytes(), op))
                &&& (vstd::utf8::valid_utf8(dec_block(buffer.bytes(), np)) ==> r.name@
                    == vstd::utf8::decode_utf8(dec_block(buffer.bytes(), np)))
                &&& (vstd::utf8::valid_utf8(dec_block(buffer.bytes(), cp)) ==> r.address.city@
                    == vstd::utf8::decode_utf8(dec_block(buffer.bytes(), cp)))
                &&& (vstd::utf8::valid_utf8(dec_block(buffer.bytes(), op)) ==> r.address.country@
                    == vstd::utf8::decode_utf8(dec_block(buffer.bytes(), op)))
            }),
    {
        let sz = buffer.size();
        let base_offset = offset + 8;
        let id = buffer.read_i32(base_offset);
        let name_ptr = buffer.read_u32(base_offset + 4) as usize;
        let name = buffer.read_string(name_ptr);
        let address = Address::deserialize(buffer, base_offset + 8);
        Self { id, name, address }
    }
}

impl Clone for UserWithAddress {
    fn clone(&self) -> (r: Self)
        ensures
            r.id == self.id,
            r.name@ == self.name@,
            r.address.city@ == self.address.city@,
            r.address.country@ == self.address.country@,
    {
        Self { id: self.id, name: self.name.clone(), address: self.address.clone() }
    }
}

impl PartialEq for UserWithAddress {
    fn eq(&self, other: &Self) -> (r: bool) {
        self.id == other.id && self.name == other.name && self.address == other.address
    }
}

impl vstd::std_specs::cmp::PartialEqSpecImpl for UserWithAddress {
    open spec fn obeys_eq_spec() -> bool {
        true
    }

    open spec fn eq_spec(&self, other: &Self) -> bool {
        self.id == other.id && self.name@ == other.name@ && self.address.city@
            == other.address.city@ && self.address.country@ == other.address.country@
    }
}

impl Eq for UserWithAddress {

}

} // verus!
