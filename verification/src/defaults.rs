//! Default values: records whose `Default` carries the schema's declared
//! defaults. Floating-point defaults travel as IEEE-754 bit patterns, held
//! here as the raw bits.

use vstd::prelude::*;
use vstd::bytes::{spec_u32_to_le_bytes, spec_u64_to_le_bytes};
use vstd::string::StringSliceAdditionalSpecFns;
use crate::buffer::{ReadBuffer, WriteBuffer, lossy_decode};
use crate::wire::{enc_bool, enc_block, le32_at, le64_at, dec_block};

verus! {

/// The bit pattern of the 64-bit float 0.95, a schema default.
pub const THRESHOLD_DEFAULT_BITS: u64 = 0x3FEE666666666666;

/// The bit pattern of the 32-bit float 1.5, a schema default.
pub const RATIO_DEFAULT_BITS: u32 = 0x3FC00000;

/// The bit pattern of the 64-bit float 10.0, a schema default.
pub const TP_DEFAULT_BITS: u64 = 0x4024000000000000;

/// The bit pattern of the 64-bit float -10.0, a schema default.
pub const SL_DEFAULT_BITS: u64 = 0xC024000000000000;

/// Numeric defaults.
#[derive(Debug)]
pub struct Config {
    pub timeout: i32,
    pub retries: i32,
    pub threshold_bits: u64,
    pub ratio_bits: u32,
}

/// The wire bytes of a config: timeout, retries, threshold bits, ratio bits.
pub open spec fn config_bytes(
    timeout: i32,
    retries: i32,
    threshold_bits: u64,
    ratio_bits: u32,
) -> Seq<u8> {
    spec_u32_to_le_bytes(timeout as u32) + spec_u32_to_le_bytes(retries as u32)
        + spec_u64_to_le_bytes(threshold_bits) + spec_u32_to_le_bytes(ratio_bits)
}

impl Config {
    pub fn new() -> (r: Self)
        ensures
            r.timeout == 30,
            r.retries == 3,
            r.threshold_bits == THRESHOLD_DEFAULT_BITS,
            r.ratio_bits == RATIO_DEFAULT_BITS,
    {
        Self::default()
    }

    pub fn serialize(&self, buffer: &mut WriteBuffer) -> (r: usize)
        requires
            old(buffer).spec_offset() == 0,
            20 <= old(buffer).bytes().len(),
        ensures
            r == 20,
            final(buffer).data_bytes() == config_bytes(
                self.timeout,
                self.retries,
                self.threshold_bits,
                self.ratio_bits,
            ),
            final(buffer).spec_size() == 20,
            final(buffer).spec_offset() == 0,
            final(buffer).wf(),
    {
        proof {
            vstd::bytes::lemma_auto_spec_u32_to_from_le_bytes();
            vstd::bytes::lemma_auto_spec_u64_to_from_le_bytes();
        }
        let cap = buffer.capacity();
        let mut offset: usize = 0;
        buffer.write_i32(offset, self.timeout);
        offset = offset + 4;
        buffer.write_i32(offset, self.retries);
        offset = offset + 4;
        buffer.write_u64(offset, self.threshold_bits);
        offset = offset + 8;
        buffer.write_u32(offset, self.ratio_bits);
        offset = offset + 4;
        buffer.set_size(offset);
        proof {
            assert(final(buffer).data_bytes() =~= config_bytes(
                self.timeout,
                self.retries,
                self.threshold_bits,
                self.ratio_bits,
            ));
        }
        offset
    }

    pub fn deserialize(buffer: &ReadBuffer) -> (r: Self)
        requires
            buffer.wf(),
            buffer.spec_offset() == 0,
            20 <= buffer.spec_size(),
        ensures
            r.timeout == le32_at(buffer.bytes(), 0) as i32,
            r.retries == le32_at(buffer.bytes(), 4) as i32,
            r.threshold_bits == le64_at(buffer.bytes(), 8),
            r.ratio_bits == le32_at(buffer.bytes(), 16),
    {
        let mut offset: usize = 0;
        let timeout = buffer.read_i32(offset);
        offset = offset + 4;
        let retries = buffer.read_i32(offset);
        offset = offset + 4;
        let threshold_bits = buffer.read_u64(offset);
        offset = offset + 8;
        let ratio_bits = buffer.read_u32(offset);
        Self { timeout, retries, threshold_bits, ratio_bits }
    }
}

impl Clone for Config {
    fn clone(&self) -> (r: Self)
        ensures
            r == self,
    {
        Self {
            timeout: self.timeout,
            retries: self.retries,
            threshold_bits: self.threshold_bits,
            ratio_bits: self.ratio_bits,
        }
    }
}

impl PartialEq for Config {
    fn eq(&self, other: &Self) -> (r: bool) {
        self.timeout == other.timeout && self.retries == other.retries && self.threshold_bits
            == other.threshold_bits && self.ratio_bits == other.ratio_bits
    }
}

impl vstd::std_specs::cmp::PartialEqSpecImpl for Config {
    open spec fn obeys_eq_spec() -> bool {
        true
    }

    open spec fn eq_spec(&self, other: &Self) -> bool {
        self.timeout == other.timeout && self.retries == other.retries && self.threshold_bits
            == other.threshold_bits && self.ratio_bits == other.ratio_bits
    }
}

impl Eq for Config {

}

impl Default for Config {
    /// The schema defaults: timeout 30, retries 3, threshold 0.95, ratio
    /// 1.5.
    fn default() -> (r: Self)
        ensures
            r.timeout == 30,
            r.retries == 3,
            r.threshold_bits == THRESHOLD_DEFAULT_BITS,
            r.ratio_bits == RATIO_DEFAULT_BITS,
    {
        Self {
            timeout: 30,
            retries: 3,
            threshold_bits: THRESHOLD_DEFAULT_BITS,
            ratio_bits: RATIO_DEFAULT_BITS,
        }
    }
}

/// String and boolean defaults.
#[derive(Debug)]
pub struct Settings {
    pub enabled: bool,
    pub debug: bool,
    pub name: String,
    pub path: String,
}

/// The wire bytes of a settings record: two flags, then two length-prefixed
/// strings.
pub open spec fn settings_bytes(
    enabled: bool,
    debug: bool,
    name: Seq<char>,
    path: Seq<char>,
) -> Seq<u8> {
    enc_bool(enabled) + enc_bool(debug) + enc_block(vstd::utf8::encode_utf8(name)) + enc_block(
        vstd::utf8::encode_utf8(path),
    )
}

impl Settings {
    pub open spec fn wf(&self) -> bool {
        vstd::utf8::encode_utf8(self.name@).len() <= i32::MAX && vstd::utf8::encode_utf8(
            self.path@,
        ).len() <= i32::MAX
    }

    pub fn new() -> (r: Self)
        ensures
            r.enabled == true,
            r.debug == false,
            r.name@ == "DefaultName"@,
            r.path@ == "/var/log"@,
    {
        Self::default()
    }

    pub fn serialize(&self, buffer: &mut WriteBuffer) -> (r: usize)
        requires
            self.wf(),
            old(buffer).spec_offset() == 0,
            10 + vstd::utf8::encode_utf8(self.name@).len() + vstd::utf8::encode_utf8(
                self.path@,
            ).len() <= old(buffer).bytes().len(),
        ensures
            r == settings_bytes(self.enabled, self.debug, self.name@, self.path@).len(),
            final(buffer).data_bytes() == settings_bytes(
                self.enabled,
                self.debug,
                self.name@,
                self.path@,
            ),
            final(buffer).spec_size() == r,
            final(buffer).spec_offset() == 0,
            final(buffer).wf(),
    {
        proof {
            vstd::bytes::lemma_auto_spec_u32_to_from_le_bytes();
        }
        let cap = buffer.capacity();
        let mut offset: usize = 0;
        buffer.write_bool(offset, self.enabled);
        offset = offset + 1;
        buffer.write_bool(offset, self.debug);
        offset = offset + 1;
        buffer.write_string(offset, self.name.as_str());
        offset = offset + 4 + self.name.as_str().len();
        buffer.write_string(offset, self.path.as_str());
        offset = offset + 4 + self.path.as_str().len();
        buffer.set_size(offset);
        proof {
            assert(final(buffer).data_bytes() =~= settings_bytes(
                self.enabled,
                self.debug,
                self.name@,
                self.path@,
            ));
        }
        offset
    }

    pub fn deserialize(buffer: &ReadBuffer) -> (r: Self)
        requires
            buffer.wf(),
            buffer.spec_offset() == 0,
            6 <= buffer.spec_size(),
            le32_at(buffer.bytes(), 2) <= i32::MAX,
            ({
                let nl = le32_at(buffer.bytes(), 2) as int;
                &&& 10 + nl <= buffer.spec_size()
                &&& le32_at(buffer.bytes(), 6 + nl) <= i32::MAX
                &&& 10 + nl + le32_at(buffer.bytes(), 6 + nl) <= buffer.spec_size()
            }),
        ensures
            ({
                let nl = le32_at(buffer.bytes(), 2) as int;
                &&& r.enabled == (buffer.bytes()[0] != 0)
                &&& r.debug == (buffer.bytes()[1] != 0)
                &&& r.name@ == lossy_decode(dec_block(buffer.bytes(), 2))
                &&& r.path@ == lossy_decode(dec_block(buffer.bytes(), 6 + nl))
                &&& (vstd::utf8::valid_utf8(dec_block(buffer.bytes(), 2)) ==> r.name@
                    == vstd::utf8::decode_utf8(dec_block(buffer.bytes(), 2)))
                &&& (vstd::utf8::valid_utf8(dec_block(buffer.bytes(), 6 + nl)) ==> r.path@
                    == vstd::utf8::decode_utf8(dec_block(buffer.bytes(), 6 + nl)))
            }),
    {
        let sz = buffer.size();
        let mut offset: usize = 0;
        let enabled = buffer.read_bool(offset);
        offset = offset + 1;
        let debug = buffer.read_bool(offset);
        offset = offset + 1;
        let name_len = buffer.read_u32(offset) as usize;
        let name = buffer.read_string(offset);
        offset = offset + 4 + name_len;
        let path = buffer.read_string(offset);
        Self { enabled, debug, name, path }
    }
}

impl Clone for Settings {
    fn clone(&self) -> (r: Self)
        ensures
            r.enabled == self.enabled,
            r.debug == self.debug,
            r.name@ == self.name@,
            r.path@ == self.path@,
    {
        Self {
            enabled: self.enabled,
            debug: self.debug,
            name: self.name.clone(),
            path: self.path.clone(),
        }
    }
}

impl PartialEq for Settings {
    fn eq(&self, other: &Self) -> (r: bool) {
        self.enabled == other.enabled && self.debug == other.debug && self.name == other.name
            && self.path == other.path
    }
}

impl vstd::std_specs::cmp::PartialEqSpecImpl for Settings {
    open spec fn obeys_eq_spec() -> bool {
        true
    }

    open spec fn eq_spec(&self, other: &Self) -> bool {
        self.enabled == other.enabled && self.debug == other.debug && self.name@ == other.name@
            && self.path@ == other.path@
    }
}

impl Eq for Settings {

}

impl Default for Settings {
    /// The schema defaults: enabled, not debugging, a default name and log
    /// path.
    fn default() -> (r: Self)
        ensures
            r.enabled == true,
            r.debug == false,
            r.name@ == "DefaultName"@,
            r.path@ == "/var/log"@,
    {
        Self {
            enabled: true,
            debug: false,
            name: String::from_str("DefaultName"),
            path: String::from_str("/var/log"),
        }
    }
}

/// Mixed defaults: some fields carry schema defaults, some the type's own.
#[derive(Debug)]
pub struct Order {
    pub id: i32,
    pub symbol: String,
    pub price_bits: u64,
    pub volume_bits: u64,
    pub tp_bits: u64,
    pub sl_bits: u64,
}

/// The wire bytes of an order: id, length-prefixed symbol, then the four
/// price-like fields as their raw bits.
pub open spec fn order_bytes(
    id: i32,
    symbol: Seq<char>,
    price_bits: u64,
    volume_bits: u64,
    tp_bits: u64,
    sl_bits: u64,
) -> Seq<u8> {
    spec_u32_to_le_bytes(id as u32) + enc_block(vstd::utf8::encode_utf8(symbol))
        + spec_u64_to_le_bytes(price_bits) + spec_u64_to_le_bytes(volume_bits)
        + spec_u64_to_le_bytes(tp_bits) + spec_u64_to_le_bytes(sl_bits)
}

impl Order {
    pub open spec fn wf(&self) -> bool {
        vstd::utf8::encode_utf8(self.symbol@).len() <= i32::MAX
    }

    pub fn new() -> (r: Self)
        ensures
            r.id == 0,
            r.symbol@ == Seq::<char>::empty(),
            r.price_bits == 0,
            r.volume_bits == 0,
            r.tp_bits == TP_DEFAULT_BITS,
            r.sl_bits == SL_DEFAULT_BITS,
    {
        Self::default()
    }

    pub fn serialize(&self, buffer: &mut WriteBuffer) -> (r: usize)
        requires
            self.wf(),
            old(buffer).spec_offset() == 0,
            40 + vstd::utf8::encode_utf8(self.symbol@).len() <= old(buffer).bytes().len(),
        ensures
            r == order_bytes(
                self.id,
                self.symbol@,
                self.price_bits,
                self.volume_bits,
                self.tp_bits,
                self.sl_bits,
            ).len(),
            final(buffer).data_bytes() == order_bytes(
                self.id,
                self.symbol@,
                self.price_bits,
                self.volume_bits,
                self.tp_bits,
                self.sl_bits,
            ),
            final(buffer).spec_size() == r,
            final(buffer).spec_offset() == 0,
            final(buffer).wf(),
    {
        proof {
            vstd::bytes::lemma_auto_spec_u32_to_from_le_bytes();
            vstd::bytes::lemma_auto_spec_u64_to_from_le_bytes();
        }
        let cap = buffer.capacity();
        let mut offset: usize = 0;
        buffer.write_i32(offset, self.id);
        offset = offset + 4;
        buffer.write_string(offset, self.symbol.as_str());
        offset = offset + 4 + self.symbol.as_str().len();
        buffer.write_u64(offset, self.price_bits);
        offset = offset + 8;
        buffer.write_u64(offset, self.volume_bits);
        offset = offset + 8;
        buffer.write_u64(offset, self.tp_bits);
        offset = offset + 8;
        buffer.write_u64(offset, self.sl_bits);
        offset = offset + 8;
        buffer.set_size(offset);
        proof {
            assert(final(buffer).data_bytes() =~= order_bytes(
                self.id,
                self.symbol@,
                self.price_bits,
                self.volume_bits,
                self.tp_bits,
                self.sl_bits,
            ));
        }
        offset
    }

    pub fn deserialize(buffer: &ReadBuffer) -> (r: Self)
        requires
            buffer.wf(),
            buffer.spec_offset() == 0,
            8 <= buffer.spec_size(),
            le32_at(buffer.bytes(), 4) <= i32::MAX,
            40 + le32_at(buffer.bytes(), 4) <= buffer.spec_size(),
        ensures
            ({
                let sl = le32_at(buffer.bytes(), 4) as int;
                &&& r.id == le32_at(buffer.bytes(), 0) as i32
                &&& r.symbol@ == lossy_decode(dec_block(buffer.bytes(), 4))
                &&& r.price_bits == le64_at(buffer.bytes(), 8 + sl)
                &&& r.volume_bits == le64_at(buffer.bytes(), 16 + sl)
                &&& r.tp_bits == le64_at(buffer.bytes(), 24 + sl)
                &&& r.sl_bits == le64_at(buffer.bytes(), 32 + sl)
                &&& (vstd::utf8::valid_utf8(dec_block(buffer.bytes(), 4)) ==> r.symbol@
                    == vstd::utf8::decode_utf8(dec_block(buffer.bytes(), 4)))
            }),
    {
        let sz = buffer.size();
        let mut offset: usize = 0;
        let id = buffer.read_i32(offset);
        offset = offset + 4;
        let symbol_len = buffer.read_u32(offset) as usize;
        let symbol = buffer.read_string(offset);
        offset = offset + 4 + symbol_len;
        let price_bits = buffer.read_u64(offset);
        offset = offset + 8;
        let volume_bits = buffer.read_u64(offset);
        offset = offset + 8;
        let tp_bits = buffer.read_u64(offset);
        offset = offset + 8;
        let sl_bits = buffer.read_u64(offset);
        Self { id, symbol, price_bits, volume_bits, tp_bits, sl_bits }
    }
}

impl Clone for Order {
    fn clone(&self) -> (r: Self)
        ensures
            r.id == self.id,
            r.symbol@ == self.symbol@,
            r.price_bits == self.price_bits,
            r.volume_bits == self.volume_bits,
            r.tp_bits == self.tp_bits,
            r.sl_bits == self.sl_bits,
    {
        Self {
            id: self.id,
            symbol: self.symbol.clone(),
            price_bits: self.price_bits,
            volume_bits: self.volume_bits,
            tp_bits: self.tp_bits,
            sl_bits: self.sl_bits,
        }
    }
}

impl PartialEq for Order {
    fn eq(&self, other: &Self) -> (r: bool) {
        self.id == other.id && self.symbol == other.symbol && self.price_bits == other.price_bits
            && self.volume_bits == other.volume_bits && self.tp_bits == other.tp_bits
            && self.sl_bits == other.sl_bits
    }
}

impl vstd::std_specs::cmp::PartialEqSpecImpl for Order {
    open spec fn obeys_eq_spec() -> bool {
        true
    }

    open spec fn eq_spec(&self, other: &Self) -> bool {
        self.id == other.id && self.symbol@ == other.symbol@ && self.price_bits
            == other.price_bits && self.volume_bits == other.volume_bits && self.tp_bits
            == other.tp_bits && self.sl_bits == other.sl_bits
    }
}

impl Eq for Order {

}

impl Default for Order {
    /// Mixed defaults: id and symbol take the type's own defaults, prices
    /// the schema's (take profit 10.0, stop loss -10.0).
    fn default() -> (r: Self)
        ensures
            r.id == 0,
            r.symbol@ == Seq::<char>::empty(),
            r.price_bits == 0,
            r.volume_bits == 0,
            r.tp_bits == TP_DEFAULT_BITS,
            r.sl_bits == SL_DEFAULT_BITS,
    {
        Self {
            id: 0,
            symbol: String::new(),
            price_bits: 0,
            volume_bits: 0,
            tp_bits: TP_DEFAULT_BITS,
            sl_bits: SL_DEFAULT_BITS,
        }
    }
}

/// Optional fields with defaults.
#[derive(Debug)]
pub struct OptionalFields {
    pub count: Option<i32>,
    pub text: Option<String>,
    pub flag: Option<bool>,
    pub value_bits: Option<u64>,
}

impl OptionalFields {
    pub fn new() -> (r: Self)
        ensures
            r.count.is_none(),
            r.text.is_some() && r.text.unwrap()@ == "Default"@,
            r.flag == Some(true),
            r.value_bits.is_none(),
    {
        Self::default()
    }
}

impl Clone for OptionalFields {
    fn clone(&self) -> (r: Self)
        ensures
            r.count == self.count,
            r.flag == self.flag,
            r.value_bits == self.value_bits,
            r.text.is_some() <==> self.text.is_some(),
            r.text.is_some() ==> r.text.unwrap()@ == self.text.unwrap()@,
    {
        let text: Option<String> = match &self.text {
            Some(t) => Some(t.clone()),
            None => None,
        };
        Self { count: self.count, text, flag: self.flag, value_bits: self.value_bits }
    }
}

impl Default for OptionalFields {
    /// The schema defaults: no count, the text "Default", the flag set, no
    /// value.
    fn default() -> (r: Self)
        ensures
            r.count.is_none(),
            r.text.is_some() && r.text.unwrap()@ == "Default"@,
            r.flag == Some(true),
            r.value_bits.is_none(),
    {
        Self {
            count: None,
            text: Some(String::from_str("Default")),
            flag: Some(true),
            value_bits: None,
        }
    }
}

} // verus!
