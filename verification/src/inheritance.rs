//! Struct inheritance: a derived record serializes its base fields first, in
//! declaration order, then its own. Salaries travel as IEEE-754 bit
//! patterns, held here as the raw bits.

use vstd::prelude::*;
use vstd::bytes::{spec_u32_to_le_bytes, spec_u64_to_le_bytes};
use vstd::string::StringSliceAdditionalSpecFns;
use crate::buffer::{ReadBuffer, WriteBuffer, lossy_decode};
use crate::wire::{enc_block, le32_at, le64_at, dec_block};

verus! {

/// The base record.
#[derive(Debug)]
pub struct Person {
    pub name: String,
    pub age: i32,
}

/// The wire bytes of a person: length-prefixed name, age.
pub open spec fn person_bytes(name: Seq<char>, age: i32) -> Seq<u8> {
    enc_block(vstd::utf8::encode_utf8(name)) + spec_u32_to_le_bytes(age as u32)
}

impl Person {
    pub open spec fn wf(&self) -> bool {
        vstd::utf8::encode_utf8(self.name@).len() <= i32::MAX
    }

    pub fn new(name: String, age: i32) -> (r: Self)
        ensures
            r.name == name,
            r.age == age,
    {
        Self { name, age }
    }

    pub fn serialize(&self, buffer: &mut WriteBuffer) -> (r: usize)
        requires
            self.wf(),
            old(buffer).spec_offset() == 0,
            8 + vstd::utf8::encode_utf8(self.name@).len() <= old(buffer).bytes().len(),
        ensures
            r == person_bytes(self.name@, self.age).len(),
            final(buffer).data_bytes() == person_bytes(self.name@, self.age),
            final(buffer).spec_size() == r,
            final(buffer).spec_offset() == 0,
            final(buffer).wf(),
    {
        proof {
            vstd::bytes::lemma_auto_spec_u32_to_from_le_bytes();
        }
        let cap = buffer.capacity();
        let mut offset: usize = 0;
        buffer.write_string(offset, self.name.as_str());
        offset = offset + 4 + self.name.as_str().len();
        buffer.write_i32(offset, self.age);
        offset = offset + 4;
        buffer.set_size(offset);
        proof {
            assert(final(buffer).data_bytes() =~= person_bytes(self.name@, self.age));
        }
        offset
    }

    pub fn deserialize(buffer: &ReadBuffer) -> (r: Self)
        requires
            buffer.wf(),
            buffer.spec_offset() == 0,
            4 <= buffer.spec_size(),
            le32_at(buffer.bytes(), 0) <= i32::MAX,
            8 + le32_at(buffer.bytes(), 0) <= buffer.spec_size(),
        ensures
            r.name@ == lossy_decode(dec_block(buffer.bytes(), 0)),
            r.age == le32_at(buffer.bytes(), 4 + le32_at(buffer.bytes(), 0)) as i32,
            vstd::utf8::valid_utf8(dec_block(buffer.bytes(), 0)) ==> r.name@
                == vstd::utf8::decode_utf8(dec_block(buffer.bytes(), 0)),
    {
        let sz = buffer.size();
        let mut offset: usize = 0;
        let name_len = buffer.read_u32(offset) as usize;
        let name = buffer.read_string(offset);
        offset = offset + 4 + name_len;
        let age = buffer.read_i32(offset);
        Self { name, age }
    }
}

impl Clone for Person {
    fn clone(&self) -> (r: Self)
        ensures
            r.name@ == self.name@,
            r.age == self.age,
    {
        Self { name: self.name.clone(), age: self.age }
    }
}

impl PartialEq for Person {
    fn eq(&self, other: &Self) -> (r: bool) {
        self.name == other.name && self.age == other.age
    }
}

impl vstd::std_specs::cmp::PartialEqSpecImpl for Person {
    open spec fn obeys_eq_spec() -> bool {
        true
    }

    open spec fn eq_spec(&self, other: &Self) -> bool {
        self.name@ == other.name@ && self.age == other.age
    }
}

impl Eq for Person {

}

impl Default for Person {
    fn default() -> (r: Self)
        ensures
            r.name@ == Seq::<char>::empty(),
            r.age == 0,
    {
        Self { name: String::new(), age: 0 }
    }
}

/// A derived record: the base fields, then a company and a salary.
#[derive(Debug)]
pub struct Employee {
    pub name: String,
    pub age: i32,
    pub company: String,
    pub salary_bits: u64,
}

/// The wire bytes of an employee: the base fields first, then the derived
/// ones.
pub open spec fn employee_bytes(
    name: Seq<char>,
    age: i32,
    company: Seq<char>,
    salary_bits: u64,
) -> Seq<u8> {
    person_bytes(name, age) + enc_block(vstd::utf8::encode_utf8(company)) + spec_u64_to_le_bytes(
        salary_bits,
    )
}

impl Employee {
    pub open spec fn wf(&self) -> bool {
        vstd::utf8::encode_utf8(self.name@).len() <= i32::MAX && vstd::utf8::encode_utf8(
            self.company@,
        ).len() <= i32::MAX
    }

    pub fn new(name: String, age: i32, company: String, salary_bits: u64) -> (r: Self)
        ensures
            r.name == name,
            r.age == age,
            r.company == company,
            r.salary_bits == salary_bits,
    {
        Self { name, age, company, salary_bits }
    }

    pub fn serialize(&self, buffer: &mut WriteBuffer) -> (r: usize)
        requires
            self.wf(),
            old(buffer).spec_offset() == 0,
            20 + vstd::utf8::encode_utf8(self.name@).len() + vstd::utf8::encode_utf8(
                self.company@,
            ).len() <= old(buffer).bytes().len(),
        ensures
            r == employee_bytes(self.name@, self.age, self.company@, self.salary_bits).len(),
            final(buffer).data_bytes() == employee_bytes(
                self.name@,
                self.age,
                self.company@,
                self.salary_bits,
            ),
            final(buffer).spec_size() == r,
            final(buffer).spec_offset() == 0,
            final(buffer).wf(),
    {
        proof {
            vstd::bytes::lemma_auto_spec_u32_to_from_le_bytes();
            vstd::bytes::lemma_auto_spec_u64_to_from_le_bytes();
        }
        let cap = buffer.capacity();
        let mut offset: usize = 0;
        buffer.write_string(offset, self.name.as_str());
        offset = offset + 4 + self.name.as_str().len();
        buffer.write_i32(offset, self.age);
        offset = offset + 4;
        buffer.write_string(offset, self.company.as_str());
        offset = offset + 4 + self.company.as_str().len();
        buffer.write_u64(offset, self.salary_bits);
        offset = offset + 8;
        buffer.set_size(offset);
        proof {
            assert(final(buffer).data_bytes() =~= employee_bytes(
                self.name@,
                self.age,
                self.company@,
                self.salary_bits,
            ));
        }
        offset
    }

    pub fn deserialize(buffer: &ReadBuffer) -> (r: Self)
        requires
            buffer.wf(),
            buffer.spec_offset() == 0,
            4 <= buffer.spec_size(),
            le32_at(buffer.bytes(), 0) <= i32::MAX,
            ({
                let nl = le32_at(buffer.bytes(), 0) as int;
                &&& 12 + nl <= buffer.spec_size()
                &&& le32_at(buffer.bytes(), 8 + nl) <= i32::MAX
                &&& 20 + nl + le32_at(buffer.bytes(), 8 + nl) <= buffer.spec_size()
            }),
        ensures
            ({
                let nl = le32_at(buffer.bytes(), 0) as int;
                let cl = le32_at(buffer.bytes(), 8 + nl) as int;
                &&& r.name@ == lossy_decode(dec_block(buffer.bytes(), 0))
                &&& r.age == le32_at(buffer.bytes(), 4 + nl) as i32
                &&& r.company@ == lossy_decode(dec_block(buffer.bytes(), 8 + nl))
                &&& r.salary_bits == le64_at(buffer.bytes(), 12 + nl + cl)
                &&& (vstd::utf8::valid_utf8(dec_block(buffer.bytes(), 0)) ==> r.name@
                    == vstd::utf8::decode_utf8(dec_block(buffer.bytes(), 0)))
                &&& (vstd::utf8::valid_utf8(dec_block(buffer.bytes(), 8 + nl)) ==> r.company@
                    == vstd::utf8::decode_utf8(dec_block(buffer.bytes(), 8 + nl)))
            }),
    {
        let sz = buffer.size();
        let mut offset: usize = 0;
        let name_len = buffer.read_u32(offset) as usize;
        let name = buffer.read_string(offset);
        offset = offset + 4 + name_len;
        let age = buffer.read_i32(offset);
        offset = offset + 4;
        let company_len = buffer.read_u32(offset) as usize;
        let company = buffer.read_string(offset);
        offset = offset + 4 + company_len;
        let salary_bits = buffer.read_u64(offset);
        Self { name, age, company, salary_bits }
    }
}

impl Clone for Employee {
    fn clone(&self) -> (r: Self)
        ensures
            r.name@ == self.name@,
            r.age == self.age,
            r.company@ == self.company@,
            r.salary_bits == self.salary_bits,
    {
        Self {
            name: self.name.clone(),
            age: self.age,
            company: self.company.clone(),
            salary_bits: self.salary_bits,
        }
    }
}

impl PartialEq for Employee {
    fn eq(&self, other: &Self) -> (r: bool) {
        self.name == other.name && self.age == other.age && self.company == other.company
            && self.salary_bits == other.salary_bits
    }
}

impl vstd::std_specs::cmp::PartialEqSpecImpl for Employee {
    open spec fn obeys_eq_spec() -> bool {
        true
    }

    open spec fn eq_spec(&self, other: &Self) -> bool {
        self.name@ == other.name@ && self.age == other.age && self.company@ == other.company@
            && self.salary_bits == other.salary_bits
    }
}

impl Eq for Employee {

}

impl Default for Employee {
    fn default() -> (r: Self)
        ensures
            r.name@ == Seq::<char>::empty(),
            r.age == 0,
            r.company@ == Seq::<char>::empty(),
            r.salary_bits == 0,
    {
        Self { name: String::new(), age: 0, company: String::new(), salary_bits: 0 }
    }
}

/// A twice-derived record: the employee fields, then a team size.
#[derive(Debug)]
pub struct Manager {
    pub name: String,
    pub age: i32,
    pub company: String,
    pub salary_bits: u64,
    pub team_size: i32,
}

/// The wire bytes of a manager: every base field in order, then its own.
pub open spec fn manager_bytes(
    name: Seq<char>,
    age: i32,
    company: Seq<char>,
    salary_bits: u64,
    team_size: i32,
) -> Seq<u8> {
    employee_bytes(name, age, company, salary_bits) + spec_u32_to_le_bytes(team_size as u32)
}

impl Manager {
    pub open spec fn wf(&self) -> bool {
        vstd::utf8::encode_utf8(self.name@).len() <= i32::MAX && vstd::utf8::encode_utf8(
            self.company@,
        ).len() <= i32::MAX
    }

    pub fn new(
        name: String,
        age: i32,
        company: String,
        salary_bits: u64,
        team_size: i32,
    ) -> (r: Self)
        ensures
            r.name == name,
            r.age == age,
            r.company == company,
            r.salary_bits == salary_bits,
            r.team_size == team_size,
    {
        Self { name, age, company, salary_bits, team_size }
    }

    pub fn serialize(&self, buffer: &mut WriteBuffer) -> (r: usize)
        requires
            self.wf(),
            old(buffer).spec_offset() == 0,
            24 + vstd::utf8::encode_utf8(self.name@).len() + vstd::utf8::encode_utf8(
                self.company@,
            ).len() <= old(buffer).bytes().len(),
        ensures
            r == manager_bytes(
                self.name@,
                self.age,
                self.company@,
                self.salary_bits,
                self.team_size,
            ).len(),
            final(buffer).data_bytes() == manager_bytes(
                self.name@,
                self.age,
                self.company@,
                self.salary_bits,
                self.team_size,
            ),
            final(buffer).spec_size() == r,
            final(buffer).spec_offset() == 0,
            final(buffer).wf(),
    {
        proof {
            vstd::bytes::lemma_auto_spec_u32_to_from_le_bytes();
            vstd::bytes::lemma_auto_spec_u64_to_from_le_bytes();
        }
        let cap = buffer.capacity();
        let mut offset: usize = 0;
        buffer.write_string(offset, self.name.as_str());
        offset = offset + 4 + self.name.as_str().len();
        buffer.write_i32(offset, self.age);
        offset = offset + 4;
        buffer.write_string(offset, self.company.as_str());
        offset = offset + 4 + self.company.as_str().len();
        buffer.write_u64(offset, self.salary_bits);
        offset = offset + 8;
        buffer.write_i32(offset, self.team_size);
        offset = offset + 4;
        buffer.set_size(offset);
        proof {
            assert(final(buffer).data_bytes() =~= manager_bytes(
                self.name@,
                self.age,
                self.company@,
                self.salary_bits,
                self.team_size,
            ));
        }
        offset
    }

    pub fn deserialize(buffer: &ReadBuffer) -> (r: Self)
        requires
            buffer.wf(),
            buffer.spec_offset() == 0,
            4 <= buffer.spec_size(),
            le32_at(buffer.bytes(), 0) <= i32::MAX,
            ({
                let nl = le32_at(buffer.bytes(), 0) as int;
                &&& 12 + nl <= buffer.spec_size()
                &&& le32_at(buffer.bytes(), 8 + nl) <= i32::MAX
                &&& 24 + nl + le32_at(buffer.bytes(), 8 + nl) <= buffer.spec_size()
            }),
        ensures
            ({
                let nl = le32_at(buffer.bytes(), 0) as int;
                let cl = le32_at(buffer.bytes(), 8 + nl) as int;
                &&& r.name@ == lossy_decode(dec_block(buffer.bytes(), 0))
                &&& r.age == le32_at(buffer.bytes(), 4 + nl) as i32
                &&& r.company@ == lossy_decode(dec_block(buffer.bytes(), 8 + nl))
                &&& r.salary_bits == le64_at(buffer.bytes(), 12 + nl + cl)
                &&& r.team_size == le32_at(buffer.bytes(), 20 + nl + cl) as i32
                &&& (vstd::utf8::valid_utf8(dec_block(buffer.bytes(), 0)) ==> r.name@
                    == vstd::utf8::decode_utf8(dec_block(buffer.bytes(), 0)))
                &&& (vstd::utf8::valid_utf8(dec_block(buffer.bytes(), 8 + nl)) ==> r.company@
                    == vstd::utf8::decode_utf8(dec_block(buffer.bytes(), 8 + nl)))
            }),
    {
        let sz = buffer.size();
        let mut offset: usize = 0;
        let name_len = buffer.read_u32(offset) as usize;
        let name = buffer.read_string(offset);
        offset = offset + 4 + name_len;
        let age = buffer.read_i32(offset);
        offset = offset + 4;
        let company_len = buffer.read_u32(offset) as usize;
        let company = buffer.read_string(offset);
        offset = offset + 4 + company_len;
        let salary_bits = buffer.read_u64(offset);
        offset = offset + 8;
        let team_size = buffer.read_i32(offset);
        Self { name, age, company, salary_bits, team_size }
    }
}

impl Clone for Manager {
    fn clone(&self) -> (r: Self)
        ensures
            r.name@ == self.name@,
            r.age == self.age,
            r.company@ == self.company@,
            r.salary_bits == self.salary_bits,
            r.team_size == self.team_size,
    {
        Self {
            name: self.name.clone(),
            age: self.age,
            company: self.company.clone(),
            salary_bits: self.salary_bits,
            team_size: self.team_size,
        }
    }
}

impl PartialEq for Manager {
    fn eq(&self, other: &Self) -> (r: bool) {
        self.name == other.name && self.age == other.age && self.company == other.company
            && self.salary_bits == other.salary_bits && self.team_size == other.team_size
    }
}

impl vstd::std_specs::cmp::PartialEqSpecImpl for Manager {
    open spec fn obeys_eq_spec() -> bool {
        true
    }

    open spec fn eq_spec(&self, other: &Self) -> bool {
        self.name@ == other.name@ && self.age == other.age && self.company@ == other.company@
            && self.salary_bits == other.salary_bits && self.team_size == other.team_size
    }
}

impl Eq for Manager {

}

impl Default for Manager {
    fn default() -> (r: Self)
        ensures
            r.name@ == Seq::<char>::empty(),
            r.age == 0,
            r.company@ == Seq::<char>::empty(),
            r.salary_bits == 0,
            r.team_size == 0,
    {
        Self {
            name: String::new(),
            age: 0,
            company: String::new(),
            salary_bits: 0,
            team_size: 0,
        }
    }
}

} // verus!
