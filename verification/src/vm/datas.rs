//! The variant data type of the virtual machine.

use vstd::prelude::*;
use vstd::utf8::encode_utf8;
use crate::datautils::{intvalue_spec, intvalue_chars, dec_text, dec_digits, fmt_isize, fmt_u128, hex_text_all, hex_from_vu8, law_int_text_roundtrip};
use crate::text::{string_chars, string_from_chars, chars_to_utf8};
use crate::fixed::copy_bytes;

verus! {

/// The kinds of data a variant can hold.
#[derive(Debug, Clone, Copy, PartialEq, Eq, Structural)]
pub enum VDataType {
    Unknown,
    Integer,
    String,
    Buffer,
    Special,
}

/// Holds an integer, a string or a binary buffer (or the current time
/// stamp), and converts between them on request in predefined ways.
#[derive(Debug)]
pub enum Variant {
    IntValue(isize),
    StrValue(String),
    BufValue(Vec<u8>),
    XTimeStamp,
}

/// The abstract value of a variant: its kind and the views of its data.
pub enum VVal {
    Int(isize),
    Str(Seq<char>),
    Buf(Seq<u8>),
    Time,
}

/// The abstract value of a variant.
pub open spec fn vval(v: Variant) -> VVal {
    match v {
        Variant::IntValue(i) => VVal::Int(i),
        Variant::StrValue(s) => VVal::Str(s@),
        Variant::BufValue(b) => VVal::Buf(b@),
        Variant::XTimeStamp => VVal::Time,
    }
}

/// The number of bytes of an `isize` on this machine.
pub open spec fn isize_width() -> nat {
    (usize::BITS / 8) as nat
}

/// The `w` low bytes of `u`, least significant first when `le`, else most
/// significant first (the memory layout of an integer in that byte order).
pub open spec fn uint_bytes(u: u128, w: nat, le: bool) -> Seq<u8> {
    Seq::new(w, |k: int| (u >> ((if le { k } else { w - 1 - k }) * 8) as u128) as u8)
}

/// The integer whose bytes, in the given byte order, are `b`.
pub open spec fn bytes_uint(b: Seq<u8>, le: bool) -> u128
    decreases b.len(),
{
    if b.len() == 0 {
        0
    } else if le {
        (bytes_uint(b.drop_last(), le) | ((b.last() as u128) << ((b.len() - 1) * 8) as u128))
    } else {
        ((bytes_uint(b.drop_last(), le) << 8u128) | (b.last() as u128))
    }
}

/// The bytes of an `isize` in the given byte order (what `to_ne_bytes`
/// gives on a machine of that order).
pub open spec fn isize_bytes(i: isize, le: bool) -> Seq<u8> {
    uint_bytes((i as u64) as u128, isize_width(), le)
}

/// The `isize` that an `isize_width()` long buffer holds in the given byte
/// order (what `from_ne_bytes` gives on a machine of that order).
pub open spec fn bytes_isize(b: Seq<u8>, le: bool) -> isize {
    bytes_uint(b, le) as isize
}

/// The bytes of `u`, `w` of them, in the given byte order.
pub fn uint_to_bytes(u: u128, w: usize, le: bool) -> (r: Vec<u8>)
    requires
        w <= 16,
    ensures
        r@ == uint_bytes(u, w as nat, le),
{
    let mut r: Vec<u8> = Vec::new();
    let mut k: usize = 0;
    while k < w
        invariant
            k <= w <= 16,
            r@ == uint_bytes(u, w as nat, le).subrange(0, k as int),
        decreases w - k,
    {
        let sh: u32 = if le { (k * 8) as u32 } else { ((w - 1 - k) * 8) as u32 };
        let b = (u >> sh) as u8;
        assert(b == (u >> ((if le { k as int } else { w - 1 - k }) * 8) as u128) as u8);
        r.push(b);
        assert(r@ =~= uint_bytes(u, w as nat, le).subrange(0, k + 1));
        k = k + 1;
    }
    r
}

/// The integer that the bytes `b` hold in the given byte order.
pub fn bytes_to_uint(b: &[u8], le: bool) -> (r: u128)
    requires
        b@.len() <= 16,
    ensures
        r == bytes_uint(b@, le),
{
    let mut v: u128 = 0;
    let mut k: usize = 0;
    assert(b@.subrange(0, 0).len() == 0);
    while k < b.len()
        invariant
            k <= b@.len() <= 16,
            v == bytes_uint(b@.subrange(0, k as int), le),
        decreases b.len() - k,
    {
        let ghost sub = b@.subrange(0, k + 1);
        assert(sub.drop_last() =~= b@.subrange(0, k as int));
        assert(sub.last() == b@[k as int]);
        if le {
            v = v | ((b[k] as u128) << ((k * 8) as u128));
        } else {
            v = (v << 8u128) | (b[k] as u128);
        }
        k = k + 1;
    }
    assert(b@.subrange(0, b@.len() as int) =~= b@);
    v
}

/// The `u16` that the bytes `[1, 0]` hold in this machine's byte order
/// (`u16::from_ne_bytes`). Nothing is promised of the answer here: it is
/// what the machine does.
#[verifier::external_body]
fn u16_from_ne_bytes(b: [u8; 2]) -> (u: u16) {
    u16::from_ne_bytes(b)
}

/// Whether this machine stores integers least significant byte first.
pub(crate) fn native_little_endian() -> (le: bool) {
    u16_from_ne_bytes([1, 0]) == 1
}

/// The current time (`SystemTime::now`). Nothing is promised of the value.
#[verifier::external_body]
fn system_time_now() -> (t: std::time::SystemTime) {
    std::time::SystemTime::now()
}

/// The time from the Unix epoch to `t` (`SystemTime::duration_since` with
/// `UNIX_EPOCH`), or nothing for a time before the epoch. Nothing is
/// promised of the value.
#[verifier::external_body]
fn since_unix_epoch(t: &std::time::SystemTime) -> (d: Option<std::time::Duration>) {
    match t.duration_since(std::time::UNIX_EPOCH) {
        Ok(d) => Some(d),
        Err(_) => None,
    }
}

/// The whole milliseconds of a duration (`Duration::as_millis`). Nothing is
/// promised of the value here.
#[verifier::external_body]
fn duration_millis(d: &std::time::Duration) -> (ms: u128) {
    d.as_millis()
}

/// The current time in milliseconds since the Unix epoch (0 for a clock set
/// before the epoch).
pub(crate) fn now_millis() -> (ms: u128) {
    let t = system_time_now();
    match since_unix_epoch(&t) {
        Some(d) => duration_millis(&d),
        None => 0,
    }
}

/// The current time of the machine's clock.
#[verifier::external_type_specification]
#[verifier::external_body]
pub struct ExSystemTime(std::time::SystemTime);

/// What `get_type` gives for a value.
pub open spec fn val_type(v: VVal) -> VDataType {
    match v {
        VVal::Int(_) => VDataType::Integer,
        VVal::Str(_) => VDataType::String,
        VVal::Buf(_) => VDataType::Buffer,
        VVal::Time => VDataType::Special,
    }
}

/// What `get_isize` gives for a value, at time stamp `now` on a machine of
/// byte order `le`: an integer as is, a string as an integer literal
/// (decimal, or hex after `0x`), a buffer of an `isize`'s size as its raw
/// bytes, and the time stamp truncated to an `isize`.
pub open spec fn val_isize(v: VVal, now: u128, le: bool) -> Option<isize> {
    match v {
        VVal::Int(i) => Some(i),
        VVal::Str(s) => intvalue_spec(s),
        VVal::Buf(b) => if b.len() == isize_width() { Some(bytes_isize(b, le)) } else { None },
        VVal::Time => Some(now as isize),
    }
}

/// An integer taken as a string and then as an integer is unchanged.
pub proof fn law_int_string_int(i: isize, now: u128, le: bool)
    ensures
        val_isize(VVal::Str(val_string(VVal::Int(i), now)), now, le) == Some(i),
{
    law_int_text_roundtrip(i);
}

/// The low `8 * w` bits of a 128 bit integer, as a mask.
pub open spec fn low_mask(w: nat) -> u128 {
    ((1u128 << ((8 * w) as u128)) - 1) as u128
}

proof fn lemma_uint_bytes_le(u: u128, w: nat)
    requires
        w <= 15,
    ensures
        bytes_uint(uint_bytes(u, w, true), true) == u & low_mask(w),
    decreases w,
{
    if w == 0 {
        assert(u & low_mask(0) == 0) by (bit_vector)
            requires
                low_mask(0) == ((1u128 << 0u128) - 1) as u128,
        ;
    } else {
        lemma_uint_bytes_le(u, (w - 1) as nat);
        let b = uint_bytes(u, w, true);
        assert(b.drop_last() =~= uint_bytes(u, (w - 1) as nat, true));
        let sh: u128 = ((w - 1) * 8) as u128;
        assert(b.last() == (u >> sh) as u8);
        let lo = low_mask((w - 1) as nat);
        let hi = low_mask(w);
        assert(lo == ((1u128 << sh) - 1) as u128);
        assert(hi == ((1u128 << ((sh + 8) as u128)) - 1) as u128);
        assert(((u & lo) | ((((u >> sh) as u8) as u128) << sh)) == u & hi) by (bit_vector)
            requires
                sh <= 112,
                lo == ((1u128 << sh) - 1) as u128,
                hi == ((1u128 << ((sh + 8) as u128)) - 1) as u128,
        ;
    }
}

proof fn lemma_uint_bytes_be(u: u128, w: nat)
    requires
        w <= 15,
    ensures
        bytes_uint(uint_bytes(u, w, false), false) == u & low_mask(w),
    decreases w,
{
    if w == 0 {
        assert(u & low_mask(0) == 0) by (bit_vector)
            requires
                low_mask(0) == ((1u128 << 0u128) - 1) as u128,
        ;
    } else {
        let u2 = u >> 8u128;
        lemma_uint_bytes_be(u2, (w - 1) as nat);
        let b = uint_bytes(u, w, false);
        assert forall|k: int| 0 <= k < w - 1 implies #[trigger] b.drop_last()[k] == uint_bytes(u2, (w - 1) as nat, false)[k] by {
            let t: u128 = ((w - 2 - k) * 8) as u128;
            assert((u >> ((t + 8) as u128)) == (u2 >> t)) by (bit_vector)
                requires
                    t <= 104,
                    u2 == u >> 8u128,
            ;
        }
        assert(b.drop_last() =~= uint_bytes(u2, (w - 1) as nat, false));
        assert(b.last() == (u >> 0u128) as u8);
        let sh: u128 = ((w - 1) * 8) as u128;
        let lo = low_mask((w - 1) as nat);
        let hi = low_mask(w);
        assert(lo == ((1u128 << sh) - 1) as u128);
        assert(hi == ((1u128 << ((sh + 8) as u128)) - 1) as u128);
        assert((((u2 & lo) << 8u128) | (((u >> 0u128) as u8) as u128)) == u & hi) by (bit_vector)
            requires
                sh <= 112,
                u2 == u >> 8u128,
                lo == ((1u128 << sh) - 1) as u128,
                hi == ((1u128 << ((sh + 8) as u128)) - 1) as u128,
        ;
    }
}

/// An integer taken as a buffer (its raw bytes) and then as an integer is
/// unchanged, on a 64 bit machine of either byte order.
pub proof fn law_int_bytes_int(i: isize, now: u128, le: bool)
    requires
        usize::BITS == 64,
    ensures
        val_isize(VVal::Buf(val_bytes(VVal::Int(i), now, le)), now, le) == Some(i),
{
    let u = (i as u64) as u128;
    assert(isize_width() == 8);
    if le {
        lemma_uint_bytes_le(u, 8);
    } else {
        lemma_uint_bytes_be(u, 8);
    }
    assert(low_mask(8) == 0xffff_ffff_ffff_ffffu128) by (bit_vector)
        requires
            low_mask(8) == ((1u128 << 64u128) - 1) as u128,
    ;
    assert(((u & 0xffff_ffff_ffff_ffffu128) as isize) == i) by (bit_vector)
        requires
            u == (i as u64) as u128,
    ;
}

/// What `get_string` gives for a value at time stamp `now`: an integer in
/// decimal, a string as is, a buffer as a hex string
/// (see `hex_from_vu8`), the time stamp in decimal.
pub open spec fn val_string(v: VVal, now: u128) -> Seq<char> {
    match v {
        VVal::Int(i) => dec_text(i as int),
        VVal::Str(s) => s,
        VVal::Buf(b) => hex_text_all(b),
        VVal::Time => dec_digits(now as nat),
    }
}

/// What `get_bufvu8` gives for a value at time stamp `now` on a machine of
/// byte order `le`: an integer's raw bytes, a string's UTF-8 bytes, a buffer
/// as is, the time stamp's raw bytes (as a 128 bit integer).
pub open spec fn val_bytes(v: VVal, now: u128, le: bool) -> Seq<u8> {
    match v {
        VVal::Int(i) => isize_bytes(i, le),
        VVal::Str(s) => encode_utf8(s),
        VVal::Buf(b) => b,
        VVal::Time => uint_bytes(now, 16, le),
    }
}

/// The number of raw bytes of a value (the same at every time stamp and in
/// either byte order).
pub open spec fn val_bytes_len(v: VVal) -> nat {
    match v {
        VVal::Int(_) => isize_width(),
        VVal::Str(s) => encode_utf8(s).len(),
        VVal::Buf(b) => b.len(),
        VVal::Time => 16,
    }
}

/// The raw bytes of a value have the length `val_bytes_len` gives.
pub proof fn lemma_val_bytes_len(v: VVal, now: u128, le: bool)
    ensures
        val_bytes(v, now, le).len() == val_bytes_len(v),
{
}

/// What `get_arrayelement` gives for a value: the element at an index, a
/// byte of an integer (as an integer), a char of a string (as a string), a
/// byte of a buffer or of the time stamp (as a buffer); `None` past the end.
pub open spec fn val_element(v: VVal, index: usize, now: u128, le: bool) -> Option<VVal> {
    match v {
        VVal::Int(i) => {
            let b = isize_bytes(i, le);
            if index < b.len() { Some(VVal::Int(b[index as int] as isize)) } else { None }
        },
        VVal::Str(s) => if index < s.len() { Some(VVal::Str(seq![s[index as int]])) } else { None },
        _ => {
            let b = val_bytes(v, now, le);
            if index < b.len() { Some(VVal::Buf(seq![b[index as int]])) } else { None }
        },
    }
}

impl Variant {
    /// The kind of data held.
    pub fn get_type(&self) -> (t: VDataType)
        ensures
            t == val_type(vval(*self)),
    {
        match self {
            Variant::IntValue(_) => VDataType::Integer,
            Variant::StrValue(_) => VDataType::String,
            Variant::BufValue(_) => VDataType::Buffer,
            Variant::XTimeStamp => VDataType::Special,
        }
    }

    /// A copy of the variant.
    pub fn duplicate(&self) -> (r: Variant)
        ensures
            vval(r) == vval(*self),
    {
        match self {
            Variant::IntValue(i) => Variant::IntValue(*i),
            Variant::StrValue(s) => Variant::StrValue(s.clone()),
            Variant::BufValue(b) => {
                let c = copy_bytes(b);
                proof {
                    assert(c@ == b@);
                }
                Variant::BufValue(c)
            },
            Variant::XTimeStamp => Variant::XTimeStamp,
        }
    }

    /// The value as an integer, at time stamp `now` on a machine of byte
    /// order `le` (see `val_isize`); fails for a string that is no
    /// integer literal and a buffer of another size than an `isize`.
    pub fn get_isize_at(&self, now: u128, le: bool) -> (r: Result<isize, String>)
        ensures
            match r {
                Ok(i) => val_isize(vval(*self), now, le) == Some(i),
                Err(_) => val_isize(vval(*self), now, le) is None,
            },
    {
        match self {
            Variant::IntValue(i) => Ok(*i),
            Variant::StrValue(s) => {
                let sc = string_chars(s);
                match intvalue_chars(sc.as_slice()) {
                    Some(i) => Ok(i),
                    None => Err(String::from_str("Variant:GetISize:StrValue:Conversion failed")),
                }
            },
            Variant::BufValue(b) => {
                let w = (usize::BITS / 8) as usize;
                if b.len() == w {
                    let u = bytes_to_uint(b.as_slice(), le);
                    Ok(u as isize)
                } else {
                    Err(String::from_str("Variant:GetISize:BufValue:Wrong number of bytes for an int"))
                }
            },
            Variant::XTimeStamp => Ok(now as isize),
        }
    }

    /// The value as an integer (see `get_isize_at`), at the current time and
    /// in this machine's byte order.
    pub fn get_isize(&self) -> (r: Result<isize, String>)
        ensures
            !(*self is XTimeStamp) ==> exists|le: bool| match r {
                Ok(i) => val_isize(vval(*self), 0, le) == Some(i),
                Err(_) => val_isize(vval(*self), 0, le) is None,
            },
            *self is XTimeStamp ==> r is Ok,
    {
        let le = native_little_endian();
        let now = if self.is_time_stamp() { now_millis() } else { 0 };
        self.get_isize_at(now, le)
    }

    fn is_time_stamp(&self) -> (b: bool)
        ensures
            b == (*self is XTimeStamp),
    {
        match self {
            Variant::XTimeStamp => true,
            _ => false,
        }
    }

    /// The value as a non negative integer (see `get_isize_at`); fails also
    /// for a negative value.
    pub fn get_usize_at(&self, now: u128, le: bool) -> (r: Result<usize, String>)
        ensures
            match r {
                Ok(u) => val_isize(vval(*self), now, le) == Some(u as isize) && u <= isize::MAX,
                Err(_) => val_isize(vval(*self), now, le) is None || val_isize(vval(*self), now, le).unwrap() < 0,
            },
    {
        let i = self.get_isize_at(now, le)?;
        if i < 0 {
            return Err(String::from_str("Variant:GetUSize: Negative int value not supported here"));
        }
        Ok(i as usize)
    }

    /// The value as a non negative integer (see `get_usize_at`), at the
    /// current time and in this machine's byte order.
    pub fn get_usize(&self) -> (r: Result<usize, String>)
        ensures
            !(*self is XTimeStamp) ==> exists|le: bool| match r {
                Ok(u) => val_isize(vval(*self), 0, le) == Some(u as isize) && u <= isize::MAX,
                Err(_) => val_isize(vval(*self), 0, le) is None || val_isize(vval(*self), 0, le).unwrap() < 0,
            },
    {
        let le = native_little_endian();
        let now = if self.is_time_stamp() { now_millis() } else { 0 };
        self.get_usize_at(now, le)
    }

    /// The value as a string, at time stamp `now` (see `val_string`).
    pub fn get_string_at(&self, now: u128) -> (s: String)
        ensures
            s@ == val_string(vval(*self), now),
    {
        match self {
            Variant::IntValue(i) => {
                let v = fmt_isize(*i);
                string_from_chars(v.as_slice())
            },
            Variant::StrValue(s) => s.clone(),
            Variant::BufValue(b) => hex_from_vu8(b),
            Variant::XTimeStamp => {
                let v = fmt_u128(now);
                string_from_chars(v.as_slice())
            },
        }
    }

    /// The value as a string (see `get_string_at`), at the current time.
    pub fn get_string(&self) -> (s: String)
        ensures
            exists|now: u128| s@ == val_string(vval(*self), now),
            !(*self is XTimeStamp) ==> s@ == val_string(vval(*self), 0),
    {
        let now = if self.is_time_stamp() { now_millis() } else { 0 };
        self.get_string_at(now)
    }

    /// The value's raw bytes, at time stamp `now` on a machine of byte order
    /// `le` (see `val_bytes`).
    pub fn get_bufvu8_at(&self, now: u128, le: bool) -> (b: Vec<u8>)
        ensures
            b@ == val_bytes(vval(*self), now, le),
    {
        match self {
            Variant::IntValue(i) => {
                let w = (usize::BITS / 8) as usize;
                uint_to_bytes((*i as u64) as u128, w, le)
            },
            Variant::StrValue(s) => {
                let sc = string_chars(s);
                chars_to_utf8(sc.as_slice())
            },
            Variant::BufValue(b) => copy_bytes(b),
            Variant::XTimeStamp => uint_to_bytes(now, 16, le),
        }
    }

    /// The value's raw bytes (see `get_bufvu8_at`), at the current time in
    /// this machine's byte order.
    pub fn get_bufvu8(&self) -> (b: Vec<u8>)
        ensures
            exists|now: u128, le: bool| b@ == val_bytes(vval(*self), now, le),
    {
        let le = native_little_endian();
        let now = if self.is_time_stamp() { now_millis() } else { 0 };
        self.get_bufvu8_at(now, le)
    }

    /// The buffer held, to change in place, if the variant is a buffer.
    pub fn get_bufvu8_mut(&mut self) -> (r: Option<&mut Vec<u8>>)
        ensures
            match r {
                Some(b) => (*old(self) matches Variant::BufValue(ob) && *b == ob)
                    && *final(self) == Variant::BufValue(*final(b)),
                None => !(*old(self) is BufValue) && *final(self) == *old(self),
            },
    {
        match self {
            Variant::BufValue(b) => Some(b),
            _ => None,
        }
    }

    /// The byte at `index` of the value's raw bytes (see `get_bufvu8_at`).
    pub fn get_byteelement_at(&self, index: usize, now: u128, le: bool) -> (b: u8)
        requires
            index < val_bytes(vval(*self), now, le).len(),
        ensures
            b == val_bytes(vval(*self), now, le)[index as int],
    {
        let bval = self.get_bufvu8_at(now, le);
        bval[index]
    }

    /// The byte at `index` of the value's raw bytes, at the current time in
    /// this machine's byte order; the index must be inside the bytes.
    pub fn get_byteelement(&self, index: usize) -> (r: u8)
        requires
            index < val_bytes_len(vval(*self)),
        ensures
            exists|now: u128, le: bool| r == val_bytes(vval(*self), now, le)[index as int],
    {
        let bval = self.get_bufvu8();
        proof {
            let (now, le) = choose|now: u128, le: bool| bval@ == val_bytes(vval(*self), now, le);
            lemma_val_bytes_len(vval(*self), now, le);
        }
        bval[index]
    }

    /// The element at `index` (see `val_element`): a byte of an integer, a
    /// char of a string, a byte of a buffer or of the time stamp; fails past
    /// the end.
    pub fn get_arrayelement_at(&self, index: usize, now: u128, le: bool) -> (r: Result<Variant, String>)
        ensures
            match r {
                Ok(e) => val_element(vval(*self), index, now, le) == Some(vval(e)),
                Err(_) => val_element(vval(*self), index, now, le) is None,
            },
    {
        match self {
            Variant::IntValue(_) => {
                let bval = self.get_bufvu8_at(now, le);
                if index >= bval.len() {
                    return Err(String::from_str("Variant:GetArrayEle:IntValue:Invalid index"));
                }
                Ok(Variant::IntValue(bval[index] as isize))
            },
            Variant::StrValue(s) => {
                let sc = string_chars(s);
                if index >= sc.len() {
                    return Err(String::from_str("Variant:GetArrayEle:StrValue:Invalid index, beyond string"));
                }
                let one = [sc[index]];
                let r = string_from_chars(one.as_slice());
                assert(one@ =~= seq![s@[index as int]]);
                Ok(Variant::StrValue(r))
            },
            _ => {
                let bval = self.get_bufvu8_at(now, le);
                if index >= bval.len() {
                    return Err(String::from_str("Variant:GetArrayEle:Invalid index"));
                }
                let mut one: Vec<u8> = Vec::new();
                one.push(bval[index]);
                assert(one@ =~= seq![bval@[index as int]]);
                Ok(Variant::BufValue(one))
            },
        }
    }

    /// The element at `index` (see `get_arrayelement_at`), at the current time
    /// in this machine's byte order.
    pub fn get_arrayelement(&self, index: usize) -> (r: Result<Variant, String>)
        ensures
            exists|now: u128, le: bool| match r {
                Ok(e) => val_element(vval(*self), index, now, le) == Some(vval(e)),
                Err(_) => val_element(vval(*self), index, now, le) is None,
            },
    {
        let le = native_little_endian();
        let now = if self.is_time_stamp() { now_millis() } else { 0 };
        self.get_arrayelement_at(index, now, le)
    }
}

} // verus!
