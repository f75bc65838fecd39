//! Operations that an operand applies to the data of other operands:
//! `!str(..)`, `!strhex(..)`, `!strtrim(..)`, `!be(.., ..)` and `!ae(.., ..)`.

use vstd::prelude::*;
use vstd::utf8::{encode_utf8, decode_utf8, valid_utf8};
use crate::datautils::{intvalue_spec, intvalue_chars, hex_text_all, hex_from_vu8};
use crate::text::{is_ws, law_trim, trim_seq, trim_chars, string_chars, string_from_chars, chars_to_utf8};
use crate::vm::Context;
use crate::vm::VarsView;
use crate::vm::datas::{Variant, VVal, VDataType, vval, val_type, val_isize, val_string, val_bytes, val_element};
use crate::vm::datam::{DataM, DMView, dmv, dm_val, dm_isize, dm_usize, dm_bytes, dm_byteele, dm_element, dm_type, dm_ident};

verus! {

/// An operation on the data of operands.
#[derive(Debug)]
pub enum XOpData {
    /// The data as a string (a buffer's bytes read as UTF-8).
    Str(Box<DataM>),
    /// The data's bytes as a hex string.
    StrHex(Box<DataM>),
    /// The data as a string (as `Str`), trimmed of white space.
    StrTrim(Box<DataM>),
    /// The byte at an index of the data's bytes.
    ByteEle(Box<DataM>, Box<DataM>),
    /// The element at an index of the data.
    ArrayEle(Box<DataM>, Box<DataM>),
}

/// The abstract view of an operation.
pub enum XView {
    Str(Box<DMView>),
    StrHex(Box<DMView>),
    StrTrim(Box<DMView>),
    ByteEle(Box<DMView>, Box<DMView>),
    ArrayEle(Box<DMView>, Box<DMView>),
}

/// The abstract view of an operation.
pub open spec fn xv(x: XOpData) -> XView
    decreases x,
{
    match x {
        XOpData::Str(d) => XView::Str(Box::new(dmv(*d))),
        XOpData::StrHex(d) => XView::StrHex(Box::new(dmv(*d))),
        XOpData::StrTrim(d) => XView::StrTrim(Box::new(dmv(*d))),
        XOpData::ByteEle(d, i) => XView::ByteEle(Box::new(dmv(*d)), Box::new(dmv(*i))),
        XOpData::ArrayEle(d, i) => XView::ArrayEle(Box::new(dmv(*d)), Box::new(dmv(*i))),
    }
}

/// What `String::from_utf8_lossy` gives for bytes (invalid sequences
/// replaced by U+FFFD).
pub uninterp spec fn spec_utf8_lossy(b: Seq<u8>) -> Seq<char>;

/// Reads bytes as UTF-8 with `String::from_utf8_lossy`: the result is named;
/// for valid UTF-8 it is the decoded text, as the documentation says.
#[verifier::external_body]
pub(crate) fn utf8_lossy(b: &[u8]) -> (s: String)
    ensures
        s@ == spec_utf8_lossy(b@),
        valid_utf8(b@) ==> s@ == decode_utf8(b@),
{
    String::from_utf8_lossy(b).into_owned()
}

/// What the string making operations give for a value: a buffer's bytes read
/// as UTF-8, anything else as its string.
pub open spec fn text_of(v: VVal, now: u128, le: bool) -> Seq<char> {
    if val_type(v) == VDataType::Buffer { spec_utf8_lossy(val_bytes(v, now, le)) } else { val_string(v, now) }
}

/// What the operation's `get_string` gives.
pub open spec fn xop_string(x: XView, c: VarsView, now: u128, le: bool) -> Option<Seq<char>>
    decreases x, 1int,
{
    match x {
        XView::Str(d) => match dm_val(*d, c, now, le) {
            Some(v) => Some(text_of(v, now, le)),
            None => None,
        },
        XView::StrTrim(d) => match dm_val(*d, c, now, le) {
            Some(v) => Some(trim_seq(text_of(v, now, le))),
            None => None,
        },
        XView::StrHex(d) => match dm_bytes(*d, c, now, le) {
            Some(b) => Some(hex_text_all(b)),
            None => None,
        },
        XView::ByteEle(d, i) => match dm_usize(*i, c, now, le) {
            Some(ix) => match dm_byteele(*d, c, ix, now, le) {
                Some(b) => Some(seq![b as char]),
                None => None,
            },
            None => None,
        },
        XView::ArrayEle(d, i) => match dm_usize(*i, c, now, le) {
            Some(ix) => match dm_element(*d, c, ix, now, le) {
                Some(v) => Some(val_string(v, now)),
                None => None,
            },
            None => None,
        },
    }
}

/// The byte that a `ByteEle` operation selects, or the element that an
/// `ArrayEle` operation selects (as a value).
pub open spec fn xop_pick(x: XView, c: VarsView, now: u128, le: bool) -> Option<VVal>
    decreases x, 1int,
{
    match x {
        XView::ByteEle(d, i) => match dm_usize(*i, c, now, le) {
            Some(ix) => match dm_byteele(*d, c, ix, now, le) {
                Some(b) => Some(VVal::Int(b as isize)),
                None => None,
            },
            None => None,
        },
        XView::ArrayEle(d, i) => match dm_usize(*i, c, now, le) {
            Some(ix) => dm_element(*d, c, ix, now, le),
            None => None,
        },
        _ => None,
    }
}

/// What the operation's `get_value` gives: the selected byte (as an integer)
/// or element, or the string that the other operations make.
pub open spec fn xop_val(x: XView, c: VarsView, now: u128, le: bool) -> Option<VVal>
    decreases x, 2int,
{
    match x {
        XView::ByteEle(_, _) => xop_pick(x, c, now, le),
        XView::ArrayEle(_, _) => xop_pick(x, c, now, le),
        _ => match xop_string(x, c, now, le) {
            Some(s) => Some(VVal::Str(s)),
            None => None,
        },
    }
}

/// What the operation's `get_isize` gives.
pub open spec fn xop_isize(x: XView, c: VarsView, now: u128, le: bool) -> Option<isize>
    decreases x, 3int,
{
    match xop_val(x, c, now, le) {
        Some(v) => val_isize(v, now, le),
        None => None,
    }
}

/// What the operation's `get_bufvu8` gives: the selected byte alone, the
/// selected element's bytes, or the UTF-8 bytes of the string that the
/// other operations make.
pub open spec fn xop_bytes(x: XView, c: VarsView, now: u128, le: bool) -> Option<Seq<u8>>
    decreases x, 3int,
{
    match x {
        XView::ByteEle(_, _) => match xop_pick(x, c, now, le) {
            Some(VVal::Int(b)) => Some(seq![b as u8]),
            _ => None,
        },
        _ => match xop_val(x, c, now, le) {
            Some(v) => Some(val_bytes(v, now, le)),
            None => None,
        },
    }
}

/// What the operation's `get_arrayelement` gives: not allowed on a byte.
pub open spec fn xop_element(x: XView, c: VarsView, index: usize, now: u128, le: bool) -> Option<VVal>
    decreases x, 3int,
{
    match x {
        XView::ByteEle(_, _) => None,
        _ => match xop_val(x, c, now, le) {
            Some(v) => val_element(v, index, now, le),
            None => None,
        },
    }
}

/// What the operation's `get_type` gives.
pub open spec fn xop_type(x: XView, c: VarsView) -> VDataType
    decreases x, 0int,
{
    match x {
        XView::ByteEle(_, _) => VDataType::Integer,
        XView::ArrayEle(d, _) => dm_type(*d, c),
        _ => VDataType::String,
    }
}

impl XOpData {
    /// The text that names the operation in messages (see `xop_ident`).
    pub fn identify_at(&self, now: u128) -> (s: String)
        ensures
            s@ == xop_ident(xv(*self), now),
        decreases self,
    {
        match self {
            XOpData::Str(d) => String::from_str("!Str(").concat(d.identify_at(now).as_str()).concat(")"),
            XOpData::StrTrim(d) => String::from_str("!StrTrim(").concat(d.identify_at(now).as_str()).concat(")"),
            XOpData::StrHex(d) => String::from_str("!StrHex(").concat(d.identify_at(now).as_str()).concat(")"),
            XOpData::ByteEle(d, i) => String::from_str("!ByteEle(").concat(d.identify_at(now).as_str()).concat(", ").concat(
                i.identify_at(now).as_str()).concat(")"),
            XOpData::ArrayEle(d, i) => String::from_str("!ArrayEle(").concat(d.identify_at(now).as_str()).concat(", ").concat(
                i.identify_at(now).as_str()).concat(")"),
        }
    }

    /// The text that names the operation in messages, at the current time.
    pub fn identify(&self) -> (s: String)
        ensures
            exists|now: u128| s@ == xop_ident(xv(*self), now),
    {
        self.identify_at(crate::vm::datas::now_millis())
    }

    /// The kind of data that the operation gives (see `xop_type`).
    pub fn get_type(&self, ctxt: &Context) -> (t: VDataType)
        ensures
            t == xop_type(xv(*self), ctxt.vars()),
        decreases self, 0int,
    {
        match self {
            XOpData::ByteEle(_, _) => VDataType::Integer,
            XOpData::ArrayEle(d, _) => d.get_type(ctxt),
            _ => VDataType::String,
        }
    }

    /// The string that the operation makes (see `xop_string`).
    pub fn get_string(&self, ctxt: &Context, now: u128, le: bool) -> (r: Result<String, String>)
        ensures
            match r {
                Ok(s) => xop_string(xv(*self), ctxt.vars(), now, le) == Some(s@),
                Err(_) => xop_string(xv(*self), ctxt.vars(), now, le) is None,
            },
        decreases self, 1int,
    {
        match self {
            XOpData::Str(d) => {
                let (t, v) = d.get_type_value(ctxt, now, le)?;
                Ok(Self::text_of_exec(&v, t, now, le))
            },
            XOpData::StrTrim(d) => {
                let (t, v) = d.get_type_value(ctxt, now, le)?;
                let s = Self::text_of_exec(&v, t, now, le);
                let sc = string_chars(&s);
                let tc = trim_chars(sc.as_slice());
                Ok(string_from_chars(tc.as_slice()))
            },
            XOpData::StrHex(d) => {
                let b = d.get_bufvu8(ctxt, now, le)?;
                Ok(hex_from_vu8(&b))
            },
            XOpData::ByteEle(d, i) => {
                let ix = i.get_usize_checked(ctxt, now, le)?;
                let b = d.get_byteelement(ctxt, ix, now, le)?;
                let one = [b as char];
                assert(one@ =~= seq![b as char]);
                Ok(string_from_chars(one.as_slice()))
            },
            XOpData::ArrayEle(d, i) => {
                let ix = i.get_usize_checked(ctxt, now, le)?;
                let v = d.get_arrayelement(ctxt, ix, now, le)?;
                Ok(v.get_string_at(now))
            },
        }
    }

    fn text_of_exec(v: &Variant, t: VDataType, now: u128, le: bool) -> (s: String)
        requires
            t == val_type(vval(*v)),
        ensures
            s@ == text_of(vval(*v), now, le),
    {
        if t == VDataType::Buffer {
            let b = v.get_bufvu8_at(now, le);
            utf8_lossy(b.as_slice())
        } else {
            v.get_string_at(now)
        }
    }

    /// The byte (as an integer) or element that a selecting operation picks
    /// (see `xop_pick`).
    pub fn pick(&self, ctxt: &Context, now: u128, le: bool) -> (r: Result<Variant, String>)
        ensures
            match r {
                Ok(v) => xop_pick(xv(*self), ctxt.vars(), now, le) == Some(vval(v)),
                Err(_) => xop_pick(xv(*self), ctxt.vars(), now, le) is None,
            },
        decreases self, 1int,
    {
        match self {
            XOpData::ByteEle(d, i) => {
                let ix = i.get_usize_checked(ctxt, now, le)?;
                let b = d.get_byteelement(ctxt, ix, now, le)?;
                Ok(Variant::IntValue(b as isize))
            },
            XOpData::ArrayEle(d, i) => {
                let ix = i.get_usize_checked(ctxt, now, le)?;
                d.get_arrayelement(ctxt, ix, now, le)
            },
            _ => Err(String::from_str("XOpData:Pick:not a selecting operation")),
        }
    }

    /// The value that the operation gives (see `xop_val`).
    pub fn get_value(&self, ctxt: &Context, now: u128, le: bool) -> (r: Result<Variant, String>)
        ensures
            match r {
                Ok(v) => xop_val(xv(*self), ctxt.vars(), now, le) == Some(vval(v)),
                Err(_) => xop_val(xv(*self), ctxt.vars(), now, le) is None,
            },
        decreases self, 2int,
    {
        match self {
            XOpData::ByteEle(_, _) => self.pick(ctxt, now, le),
            XOpData::ArrayEle(_, _) => self.pick(ctxt, now, le),
            _ => {
                let s = self.get_string(ctxt, now, le)?;
                Ok(Variant::StrValue(s))
            },
        }
    }

    /// The operation's value as an integer (see `xop_isize`).
    pub fn get_isize(&self, ctxt: &Context, now: u128, le: bool) -> (r: Result<isize, String>)
        ensures
            match r {
                Ok(i) => xop_isize(xv(*self), ctxt.vars(), now, le) == Some(i),
                Err(_) => xop_isize(xv(*self), ctxt.vars(), now, le) is None,
            },
        decreases self, 3int,
    {
        let v = self.get_value(ctxt, now, le)?;
        v.get_isize_at(now, le)
    }

    /// The operation's bytes (see `xop_bytes`).
    pub fn get_bufvu8(&self, ctxt: &Context, now: u128, le: bool) -> (r: Result<Vec<u8>, String>)
        ensures
            match r {
                Ok(b) => xop_bytes(xv(*self), ctxt.vars(), now, le) == Some(b@),
                Err(_) => xop_bytes(xv(*self), ctxt.vars(), now, le) is None,
            },
        decreases self, 3int,
    {
        match self {
            XOpData::ByteEle(_, _) => {
                let v = self.pick(ctxt, now, le)?;
                match v {
                    Variant::IntValue(b) => {
                        let mut r: Vec<u8> = Vec::new();
                        r.push(b as u8);
                        assert(r@ =~= seq![b as u8]);
                        Ok(r)
                    },
                    _ => Err(String::from_str("XOpData:GetBuf:unexpected value")),
                }
            },
            _ => {
                let v = self.get_value(ctxt, now, le)?;
                Ok(v.get_bufvu8_at(now, le))
            },
        }
    }

    /// The element at an index of the operation's value (see `xop_element`).
    pub fn get_arrayelement(&self, ctxt: &Context, index: usize, now: u128, le: bool) -> (r: Result<Variant, String>)
        ensures
            match r {
                Ok(v) => xop_element(xv(*self), ctxt.vars(), index, now, le) == Some(vval(v)),
                Err(_) => xop_element(xv(*self), ctxt.vars(), index, now, le) is None,
            },
        decreases self, 3int,
    {
        match self {
            XOpData::ByteEle(_, _) => Err(String::from_str("XOpData:GetArrayEle:Not allowed on a ByteEle")),
            _ => {
                let v = self.get_value(ctxt, now, le)?;
                v.get_arrayelement_at(index, now, le)
            },
        }
    }
}

/// The text that names an operation in messages.
pub open spec fn xop_ident(x: XView, now: u128) -> Seq<char>
    decreases x,
{
    match x {
        XView::Str(d) => "!Str("@ + dm_ident(*d, now) + ")"@,
        XView::StrTrim(d) => "!StrTrim("@ + dm_ident(*d, now) + ")"@,
        XView::StrHex(d) => "!StrHex("@ + dm_ident(*d, now) + ")"@,
        XView::ByteEle(d, i) => "!ByteEle("@ + dm_ident(*d, now) + ", "@ + dm_ident(*i, now) + ")"@,
        XView::ArrayEle(d, i) => "!ArrayEle("@ + dm_ident(*d, now) + ", "@ + dm_ident(*i, now) + ")"@,
    }
}

/// `!strtrim(d)` is `!str(d)` with the white space at both ends removed:
/// a contiguous part of it, everything around which is white space, that
/// neither starts nor ends with white space.
pub proof fn law_strtrim(d: Box<DMView>, c: VarsView, now: u128, le: bool)
    ensures
        xop_string(XView::StrTrim(d), c, now, le) is Some <==> xop_string(XView::Str(d), c, now, le) is Some,
        xop_string(XView::Str(d), c, now, le) matches Some(s) ==> exists|lo: int, hi: int|
            0 <= lo <= hi <= s.len() && xop_string(XView::StrTrim(d), c, now, le) == Some(#[trigger] s.subrange(lo, hi))
            && (forall|k: int| 0 <= k < lo ==> is_ws(#[trigger] s[k]))
            && (forall|k: int| hi <= k < s.len() ==> is_ws(#[trigger] s[k]))
            && (lo < hi ==> !is_ws(s[lo]) && !is_ws(s[hi - 1])),
{
    if let Some(s) = xop_string(XView::Str(d), c, now, le) {
        law_trim(s);
    }
}

} // verus!
