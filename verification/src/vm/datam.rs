//! The data operands of the virtual machine's instructions: literal values,
//! variables, and operations on other operands.

use vstd::prelude::*;
use crate::vm::{VarsView, Context, var_assign, vals_view};
use crate::vm::datas::now_millis;
use crate::vm::var_lookup;
use crate::vm::datas::{Variant, VVal, VDataType, vval, val_type, val_isize, val_string, val_bytes, val_element, isize_width,
    bytes_uint, bytes_to_uint};
use crate::vm::xopdata::{spec_utf8_lossy, utf8_lossy};
use crate::vm::xopdata::{XOpData, XView, xv, xop_val, xop_isize, xop_string, xop_bytes, xop_element, xop_type, xop_ident};
use crate::text::{trim_seq, lemma_trim_len, trim_chars, seq_starts_with, chars_start_with, seq_find, lemma_seq_find,
    chars_find, chars_range, chars_from, chars_eq, chars_are, str_chars, string_chars, string_from_chars, char_is_numeric,
    char_is_alphabetic, spec_is_numeric, spec_is_alphabetic};
use crate::datautils::{intvalue_spec, intvalue_chars, quote_close, find_quote_close, hex_decode, hex_decode_chars, dec_digits,
    fmt_u128, usize_from_radix, usize_from_str_radix};
use crate::cfgfiles::{deescape, str_deescape_chars};

verus! {

/// Whether a variable name is a function argument or a plain variable.
#[derive(Debug, Clone, Copy, PartialEq, Eq, Structural)]
pub enum DataKind {
    Variable,
    FuncArg,
}

/// An operand: a literal value, a variable (which stands for a function
/// argument, a local or a global), an operation on other operands, or that
/// many random bytes (drawn afresh for each instruction that reads them).
#[derive(Debug)]
pub enum DataM {
    Value(Variant),
    Variable(DataKind, String),
    XOp(XOpData),
    Random(usize),
}

/// The abstract view of an operand.
pub enum DMView {
    Value(VVal),
    Variable(DataKind, Seq<char>),
    XOp(XView),
    Random(usize),
}

/// The `n` random bytes that an instruction reads, from the random bytes
/// drawn for it (zero where fewer were drawn).
pub open spec fn rand_bytes(rnd: Seq<u8>, n: usize) -> Seq<u8> {
    Seq::new(n as nat, |i: int| if i < rnd.len() { rnd[i] } else { 0u8 })
}

/// The number of random bytes that an integer takes from `n` random bytes:
/// at most the width of an `isize`.
pub open spec fn rand_int_len(n: usize) -> usize {
    if n < isize_width() { n } else { isize_width() as usize }
}

/// The abstract view of an operand.
pub open spec fn dmv(d: DataM) -> DMView
    decreases d,
{
    match d {
        DataM::Value(v) => DMView::Value(vval(v)),
        DataM::Variable(k, n) => DMView::Variable(k, n@),
        DataM::XOp(x) => DMView::XOp(xv(x)),
        DataM::Random(n) => DMView::Random(n),
    }
}

/// What `get_type_value` gives for an operand: its value.
pub open spec fn dm_val(d: DMView, c: VarsView, now: u128, le: bool) -> Option<VVal>
    decreases d, 3int,
{
    match d {
        DMView::Value(v) => Some(v),
        DMView::Variable(k, n) => var_lookup(c, k, n),
        DMView::XOp(x) => xop_val(x, c, now, le),
        DMView::Random(n) => Some(VVal::Buf(rand_bytes(c.rnd, n))),
    }
}

/// What `get_isize` gives for an operand (for random bytes, the integer that
/// the first of them, up to the width of an `isize`, hold in the machine's
/// byte order).
pub open spec fn dm_isize(d: DMView, c: VarsView, now: u128, le: bool) -> Option<isize>
    decreases d, 4int,
{
    match d {
        DMView::XOp(x) => xop_isize(x, c, now, le),
        DMView::Random(n) => Some(bytes_uint(rand_bytes(c.rnd, rand_int_len(n)), le) as isize),
        _ => match dm_val(d, c, now, le) {
            Some(v) => val_isize(v, now, le),
            None => None,
        },
    }
}

/// What `get_usize` gives for an operand: its integer, when not negative.
pub open spec fn dm_usize(d: DMView, c: VarsView, now: u128, le: bool) -> Option<usize>
    decreases d, 5int,
{
    match dm_isize(d, c, now, le) {
        Some(i) => if i >= 0 { Some(i as usize) } else { None },
        None => None,
    }
}

/// What `get_string` gives for an operand (for random bytes, their text read
/// as UTF-8 with invalid sequences replaced).
pub open spec fn dm_string(d: DMView, c: VarsView, now: u128, le: bool) -> Option<Seq<char>>
    decreases d, 4int,
{
    match d {
        DMView::XOp(x) => xop_string(x, c, now, le),
        DMView::Random(n) => Some(spec_utf8_lossy(rand_bytes(c.rnd, n))),
        _ => match dm_val(d, c, now, le) {
            Some(v) => Some(val_string(v, now)),
            None => None,
        },
    }
}

/// What `get_bufvu8` gives for an operand.
pub open spec fn dm_bytes(d: DMView, c: VarsView, now: u128, le: bool) -> Option<Seq<u8>>
    decreases d, 4int,
{
    match d {
        DMView::XOp(x) => xop_bytes(x, c, now, le),
        _ => match dm_val(d, c, now, le) {
            Some(v) => Some(val_bytes(v, now, le)),
            None => None,
        },
    }
}

/// What `get_byteelement` gives for an operand: a byte of its bytes.
pub open spec fn dm_byteele(d: DMView, c: VarsView, index: usize, now: u128, le: bool) -> Option<u8>
    decreases d, 5int,
{
    match dm_bytes(d, c, now, le) {
        Some(b) => if index < b.len() { Some(b[index as int]) } else { None },
        None => None,
    }
}

/// What `get_arrayelement` gives for an operand.
pub open spec fn dm_element(d: DMView, c: VarsView, index: usize, now: u128, le: bool) -> Option<VVal>
    decreases d, 4int,
{
    match d {
        DMView::XOp(x) => xop_element(x, c, index, now, le),
        _ => match dm_val(d, c, now, le) {
            Some(v) => val_element(v, index, now, le),
            None => None,
        },
    }
}

/// What `get_type` gives for an operand (`Unknown` for an unknown variable).
pub open spec fn dm_type(d: DMView, c: VarsView) -> VDataType
    decreases d, 1int,
{
    match d {
        DMView::Value(v) => val_type(v),
        DMView::Variable(k, n) => match var_lookup(c, k, n) {
            Some(v) => val_type(v),
            None => VDataType::Unknown,
        },
        DMView::XOp(x) => xop_type(x, c),
        DMView::Random(_) => VDataType::Special,
    }
}

/// The text that names an operand in messages: `Val:` and the value's
/// string, `Var:` and the name, or the operation's text.
pub open spec fn dm_ident(d: DMView, now: u128) -> Seq<char>
    decreases d,
{
    match d {
        DMView::Value(v) => "Val:"@ + val_string(v, now),
        DMView::Variable(_, n) => "Var:"@ + n,
        DMView::XOp(x) => xop_ident(x, now),
        DMView::Random(n) => "Val:__RANDOM__BYTES__"@ + dec_digits(n as nat),
    }
}

/// The `n` random bytes that an instruction reads (see `rand_bytes`).
fn rand_bytes_exec(ctxt: &Context, n: usize) -> (r: Vec<u8>)
    ensures
        r@ == rand_bytes(ctxt.vars().rnd, n),
{
    let mut out: Vec<u8> = Vec::new();
    let mut i: usize = 0;
    while i < n
        invariant
            i <= n,
            ctxt.vars().rnd == ctxt.rndpool@,
            out@ == rand_bytes(ctxt.vars().rnd, n).subrange(0, i as int),
        decreases n - i,
    {
        let b = if i < ctxt.rndpool.len() { ctxt.rndpool[i] } else { 0u8 };
        out.push(b);
        assert(out@ =~= rand_bytes(ctxt.vars().rnd, n).subrange(0, i + 1));
        i = i + 1;
    }
    assert(rand_bytes(ctxt.vars().rnd, n).subrange(0, n as int) =~= rand_bytes(ctxt.vars().rnd, n));
    out
}

impl DataM {
    /// Whether the operand is a literal value.
    pub fn is_value(&self) -> (b: bool)
        ensures
            b == (*self is Value),
    {
        match self {
            DataM::Value(_) => true,
            _ => false,
        }
    }

    /// Whether the operand is a variable.
    pub fn is_variable(&self) -> (b: bool)
        ensures
            b == (*self is Variable),
    {
        match self {
            DataM::Variable(_, _) => true,
            _ => false,
        }
    }

    /// The text that names the operand in messages, at time stamp `now` (see `dm_ident`).
    pub fn identify_at(&self, now: u128) -> (s: String)
        ensures
            s@ == dm_ident(dmv(*self), now),
        decreases self,
    {
        match self {
            DataM::Value(v) => {
                let vs = v.get_string_at(now);
                String::from_str("Val:").concat(vs.as_str())
            },
            DataM::Variable(_, n) => String::from_str("Var:").concat(n.as_str()),
            DataM::XOp(x) => x.identify_at(now),
            DataM::Random(n) => {
                let d = fmt_u128(*n as u128);
                String::from_str("Val:__RANDOM__BYTES__").concat(string_from_chars(d.as_slice()).as_str())
            },
        }
    }

    /// The text that names the operand in messages (see `dm_ident`), at the current time.
    pub fn identify(&self) -> (s: String)
        ensures
            exists|now: u128| s@ == dm_ident(dmv(*self), now),
    {
        self.identify_at(now_millis())
    }

    /// The kind of data of the operand; `Unknown` for an unknown variable.
    pub fn get_type(&self, ctxt: &Context) -> (t: VDataType)
        ensures
            t == dm_type(dmv(*self), ctxt.vars()),
        decreases self, 1int,
    {
        match self {
            DataM::Value(v) => v.get_type(),
            DataM::Variable(k, n) => if !ctxt.var_known(*k, n) {
                VDataType::Unknown
            } else {
                match ctxt.var_get(*k, n) {
                    Some(v) => v.get_type(),
                    None => VDataType::Unknown,
                }
            },
            DataM::Random(_) => VDataType::Special,
            DataM::XOp(x) => x.get_type(ctxt),
        }
    }

    /// The letter for the operand's kind of data: `?`, `i`, `s` or `b` (a
    /// special value counts as a buffer).
    pub fn get_type_char(&self, ctxt: &Context) -> (c: char)
        ensures
            c == type_char(dm_type(dmv(*self), ctxt.vars())),
    {
        let t = self.get_type(ctxt);
        match t {
            VDataType::Unknown => '?',
            VDataType::Integer => 'i',
            VDataType::String => 's',
            VDataType::Buffer => 'b',
            VDataType::Special => 'b',
        }
    }

    /// The operand's value (see `dm_val`).
    pub fn get_value(&self, ctxt: &Context, now: u128, le: bool) -> (r: Result<Variant, String>)
        ensures
            match r {
                Ok(v) => dm_val(dmv(*self), ctxt.vars(), now, le) == Some(vval(v)),
                Err(_) => dm_val(dmv(*self), ctxt.vars(), now, le) is None,
            },
        decreases self, 3int,
    {
        match self {
            DataM::Value(v) => Ok(v.duplicate()),
            DataM::Variable(k, n) => if !ctxt.var_known(*k, n) {
                Err(String::from_str("DataM:GetVal:FuncArg:Not mapped"))
            } else {
                match ctxt.var_get(*k, n) {
                    Some(v) => Ok(v.duplicate()),
                    None => Err(String::from_str("DataM:GetVal:Var:Unknown")),
                }
            },
            DataM::XOp(x) => x.get_value(ctxt, now, le),
            DataM::Random(n) => Ok(Variant::BufValue(rand_bytes_exec(ctxt, *n))),
        }
    }

    /// The operand's kind of data and value.
    pub fn get_type_value(&self, ctxt: &Context, now: u128, le: bool) -> (r: Result<(VDataType, Variant), String>)
        ensures
            match r {
                Ok((t, v)) => dm_val(dmv(*self), ctxt.vars(), now, le) == Some(vval(v)) && t == val_type(vval(v)),
                Err(_) => dm_val(dmv(*self), ctxt.vars(), now, le) is None,
            },
        decreases self, 4int,
    {
        let v = self.get_value(ctxt, now, le)?;
        Ok((v.get_type(), v))
    }

    /// The operand as an integer (see `dm_isize`).
    pub fn get_isize(&self, ctxt: &Context, now: u128, le: bool) -> (r: Result<isize, String>)
        ensures
            match r {
                Ok(i) => dm_isize(dmv(*self), ctxt.vars(), now, le) == Some(i),
                Err(_) => dm_isize(dmv(*self), ctxt.vars(), now, le) is None,
            },
        decreases self, 4int,
    {
        match self {
            DataM::XOp(x) => x.get_isize(ctxt, now, le),
            DataM::Random(n) => {
                let w = (usize::BITS / 8) as usize;
                let k = if *n < w { *n } else { w };
                let b = rand_bytes_exec(ctxt, k);
                Ok(bytes_to_uint(b.as_slice(), le) as isize)
            },
            _ => {
                let v = self.get_value(ctxt, now, le)?;
                v.get_isize_at(now, le)
            },
        }
    }

    /// The operand as a non negative integer (see `dm_usize`); a negative
    /// integer is not allowed.
    pub fn get_usize(&self, ctxt: &Context, now: u128, le: bool) -> (r: Result<usize, String>)
        requires
            dm_isize(dmv(*self), ctxt.vars(), now, le) matches Some(i) ==> i >= 0,
        ensures
            match r {
                Ok(u) => dm_usize(dmv(*self), ctxt.vars(), now, le) == Some(u),
                Err(_) => dm_isize(dmv(*self), ctxt.vars(), now, le) is None,
            },
    {
        let i = self.get_isize(ctxt, now, le)?;
        Ok(i as usize)
    }

    /// The operand as a non negative integer (see `dm_usize`), checked:
    /// fails where it has no integer, or a negative one.
    pub fn get_usize_checked(&self, ctxt: &Context, now: u128, le: bool) -> (r: Result<usize, String>)
        ensures
            match r {
                Ok(u) => dm_usize(dmv(*self), ctxt.vars(), now, le) == Some(u),
                Err(_) => dm_usize(dmv(*self), ctxt.vars(), now, le) is None,
            },
        decreases self, 5int,
    {
        let i = self.get_isize(ctxt, now, le)?;
        if i < 0 {
            return Err(String::from_str("DataM:GetUSize: Negative int value not supported here"));
        }
        Ok(i as usize)
    }

    /// The operand as a string (see `dm_string`).
    pub fn get_string(&self, ctxt: &Context, now: u128, le: bool) -> (r: Result<String, String>)
        ensures
            match r {
                Ok(s) => dm_string(dmv(*self), ctxt.vars(), now, le) == Some(s@),
                Err(_) => dm_string(dmv(*self), ctxt.vars(), now, le) is None,
            },
        decreases self, 4int,
    {
        match self {
            DataM::XOp(x) => x.get_string(ctxt, now, le),
            DataM::Random(n) => {
                let b = rand_bytes_exec(ctxt, *n);
                Ok(utf8_lossy(b.as_slice()))
            },
            _ => {
                let v = self.get_value(ctxt, now, le)?;
                Ok(v.get_string_at(now))
            },
        }
    }

    /// The operand's bytes (see `dm_bytes`).
    pub fn get_bufvu8(&self, ctxt: &Context, now: u128, le: bool) -> (r: Result<Vec<u8>, String>)
        ensures
            match r {
                Ok(b) => dm_bytes(dmv(*self), ctxt.vars(), now, le) == Some(b@),
                Err(_) => dm_bytes(dmv(*self), ctxt.vars(), now, le) is None,
            },
        decreases self, 4int,
    {
        match self {
            DataM::XOp(x) => x.get_bufvu8(ctxt, now, le),
            _ => {
                let v = self.get_value(ctxt, now, le)?;
                Ok(v.get_bufvu8_at(now, le))
            },
        }
    }

    /// The buffer of the global variable that the operand names, to change
    /// in place; fails for a value or an operation, a function argument, a
    /// local variable, an unknown variable, and a variable that holds no
    /// buffer.
    pub fn get_bufvu8_mut<'a>(&self, ctxt: &'a mut Context) -> (r: Result<&'a mut Vec<u8>, String>)
        ensures
            match r {
                Ok(b) => dmv(*self) matches DMView::Variable(k, n) && k == DataKind::Variable
                    && !(old(ctxt).vars().locals.len() > 0 && old(ctxt).vars().locals.last().dom().contains(n))
                    && old(ctxt).vars().globals.dom().contains(n)
                    && old(ctxt).vars().globals[n] == VVal::Buf(b@)
                    && final(ctxt).vars() == VarsView {
                        globals: old(ctxt).vars().globals.insert(n, VVal::Buf(final(b)@)),
                        ..old(ctxt).vars()
                    }
                    && final(ctxt).view() == old(ctxt).view().with_vars(final(ctxt).vars()),
                Err(_) => !(dmv(*self) matches DMView::Variable(k, n) && k == DataKind::Variable
                    && !(old(ctxt).vars().locals.len() > 0 && old(ctxt).vars().locals.last().dom().contains(n))
                    && old(ctxt).vars().globals.dom().contains(n)
                    && old(ctxt).vars().globals[n] is Buf)
                    && final(ctxt).view() == old(ctxt).view(),
            },
    {
        match self {
            DataM::Variable(k, n) => {
                if *k == DataKind::FuncArg {
                    return Err(String::from_str("DataM:GetBufVu8Mut:FuncArg cant be used mutably"));
                }
                if ctxt.var_islocal(n) {
                    return Err(String::from_str("DataM:GetBufVu8Mut:Localvar cant be used mutably"));
                }
                let ghost old_vars = ctxt.vars();
                let ghost old_view = ctxt.view();
                let ghost gm = ctxt.globals.view();
                match ctxt.globals.get_mut(n) {
                    Some(v) => {
                        match v.get_bufvu8_mut() {
                            Some(b) => {
                                proof {
                                    assert(vals_view(gm.insert(n@, Variant::BufValue(*final(b))))
                                        =~= old_vars.globals.insert(n@, VVal::Buf(final(b)@)));
                                }
                                Ok(b)
                            },
                            None => {
                                proof {
                                    assert(gm.insert(n@, gm[n@]) =~= gm);
                                }
                                Err(String::from_str("DataM:GetBufVu8Mut:Variable holds no buffer"))
                            },
                        }
                    },
                    None => Err(String::from_str("DataM:GetBufVu8Mut:Unknown variable")),
                }
            },
            _ => Err(String::from_str("DataM:GetBufVu8Mut:Cant return mutable ref to values")),
        }
    }

    /// The byte at an index of the operand's bytes (see `dm_byteele`); fails past the end.
    pub fn get_byteelement(&self, ctxt: &Context, index: usize, now: u128, le: bool) -> (r: Result<u8, String>)
        ensures
            match r {
                Ok(b) => dm_byteele(dmv(*self), ctxt.vars(), index, now, le) == Some(b),
                Err(_) => dm_byteele(dmv(*self), ctxt.vars(), index, now, le) is None,
            },
        decreases self, 5int,
    {
        let b = self.get_bufvu8(ctxt, now, le)?;
        if index >= b.len() {
            return Err(String::from_str("DataM:GetByteEle:index beyond the data"));
        }
        Ok(b[index])
    }

    /// The element at an index of the operand (see `dm_element`).
    pub fn get_arrayelement(&self, ctxt: &Context, index: usize, now: u128, le: bool) -> (r: Result<Variant, String>)
        ensures
            match r {
                Ok(v) => dm_element(dmv(*self), ctxt.vars(), index, now, le) == Some(vval(v)),
                Err(_) => dm_element(dmv(*self), ctxt.vars(), index, now, le) is None,
            },
        decreases self, 4int,
    {
        match self {
            DataM::XOp(x) => x.get_arrayelement(ctxt, index, now, le),
            _ => {
                let v = self.get_value(ctxt, now, le)?;
                v.get_arrayelement_at(index, now, le)
            },
        }
    }

    /// Sets the variable that the operand names (see `var_assign`); a value
    /// or an operation can not be set.
    pub fn set_value(&self, ctxt: &mut Context, vvalue: Variant, bforcelocal: bool) -> (r: Result<(), String>)
        ensures
            match r {
                Ok(()) => assign(old(ctxt).vars(), dmv(*self), vval(vvalue), bforcelocal) == Some(final(ctxt).vars()),
                Err(_) => assign(old(ctxt).vars(), dmv(*self), vval(vvalue), bforcelocal) is None,
            },
            r is Err ==> final(ctxt).vars() == old(ctxt).vars(),
            final(ctxt).view() == old(ctxt).view().with_vars(final(ctxt).vars()),
    {
        match self {
            DataM::Value(_) => Err(String::from_str("DataM:SetValue:Val:Cant set a value! to a value")),
            DataM::Variable(k, n) => {
                if *k == DataKind::FuncArg {
                    return Err(String::from_str("DataM:SetValue:Cant set a funcarg, they are readonly"));
                }
                if bforcelocal && ctxt.localsstack.len() == 0 {
                    return Err(String::from_str("DataM:SetValue:Cant set a local variable, outside a function"));
                }
                ctxt.var_set(*k, n, vvalue, bforcelocal);
                Ok(())
            },
            DataM::XOp(_) => Err(String::from_str("DataM:SetValue:XCast:Not supported")),
            DataM::Random(_) => Err(String::from_str("DataM:SetValue:Random bytes can not be set")),
        }
    }

    /// Sets the variable that the operand names to an integer.
    pub fn set_isize(&self, ctxt: &mut Context, vvalue: isize) -> (r: Result<(), String>)
        ensures
            match r {
                Ok(()) => assign(old(ctxt).vars(), dmv(*self), VVal::Int(vvalue), false) == Some(final(ctxt).vars()),
                Err(_) => assign(old(ctxt).vars(), dmv(*self), VVal::Int(vvalue), false) is None,
            },
            r is Err ==> final(ctxt).vars() == old(ctxt).vars(),
            final(ctxt).view() == old(ctxt).view().with_vars(final(ctxt).vars()),
    {
        self.set_value(ctxt, Variant::IntValue(vvalue), false)
    }

    /// Sets the variable that the operand names to a string.
    pub fn set_string(&self, ctxt: &mut Context, vvalue: String) -> (r: Result<(), String>)
        ensures
            match r {
                Ok(()) => assign(old(ctxt).vars(), dmv(*self), VVal::Str(vvalue@), false) == Some(final(ctxt).vars()),
                Err(_) => assign(old(ctxt).vars(), dmv(*self), VVal::Str(vvalue@), false) is None,
            },
            r is Err ==> final(ctxt).vars() == old(ctxt).vars(),
            final(ctxt).view() == old(ctxt).view().with_vars(final(ctxt).vars()),
    {
        self.set_value(ctxt, Variant::StrValue(vvalue), false)
    }

    /// Sets the variable that the operand names to a buffer.
    pub fn set_bufvu8(&self, ctxt: &mut Context, vvalue: Vec<u8>) -> (r: Result<(), String>)
        ensures
            match r {
                Ok(()) => assign(old(ctxt).vars(), dmv(*self), VVal::Buf(vvalue@), false) == Some(final(ctxt).vars()),
                Err(_) => assign(old(ctxt).vars(), dmv(*self), VVal::Buf(vvalue@), false) is None,
            },
            r is Err ==> final(ctxt).vars() == old(ctxt).vars(),
            final(ctxt).view() == old(ctxt).view().with_vars(final(ctxt).vars()),
    {
        self.set_value(ctxt, Variant::BufValue(vvalue), false)
    }
}

/// The variables after setting the one that an operand names (see
/// `var_assign`); `None` for an operand that is no variable.
pub open spec fn assign(c: VarsView, d: DMView, v: VVal, force_local: bool) -> Option<VarsView> {
    match d {
        DMView::Variable(k, n) => var_assign(c, k, n, v, force_local),
        _ => None,
    }
}

/// The letter for a kind of data: `?`, `i`, `s` or `b` (a special value
/// counts as a buffer).
pub open spec fn type_char(t: VDataType) -> char {
    match t {
        VDataType::Unknown => '?',
        VDataType::Integer => 'i',
        VDataType::String => 's',
        VDataType::Buffer => 'b',
        VDataType::Special => 'b',
    }
}


/// The names in a list of strings.
pub open spec fn names_view(v: Seq<String>) -> Seq<Seq<char>> {
    v.map_values(|s: String| s@)
}

/// The argument names of a function, if any.
pub open spec fn fargs_names(fa: Option<&Vec<String>>) -> Option<Seq<Seq<char>>> {
    match fa {
        Some(v) => Some(names_view(v@)),
        None => None,
    }
}

/// The kind of a variable name: an argument of the function being compiled
/// (whose argument names `fa` holds), or a plain variable.
pub open spec fn name_kind(fa: Option<Seq<Seq<char>>>, n: Seq<char>) -> DataKind {
    match fa {
        Some(a) => if a.contains(n) { DataKind::FuncArg } else { DataKind::Variable },
        None => DataKind::Variable,
    }
}

/// Whether an operation name takes one operand.
pub open spec fn xop_unary(x: Seq<char>) -> bool {
    x == "!str"@ || x == "!strhex"@ || x == "!strtrim"@
}

/// Whether an operation name takes an operand and an index.
pub open spec fn xop_indexed(x: Seq<char>) -> bool {
    x == "!byteele"@ || x == "!be"@ || x == "!arrayele"@ || x == "!ae"@
}

/// The operand that a token of a script denotes (`None` where it is
/// invalid), once trimmed:
/// * starting with a numeric char, `+` or `-`: an integer literal;
/// * starting or ending with `"`: a string literal, quoted at both ends
///   with nothing after the closing quote, whose escapes are replaced;
/// * `$0x` and hex digits: a buffer literal;
/// * `__TIME__STAMP__`: the time stamp; `__RANDOM__BYTES__N`: `N` random
///   bytes (no other `__` tag is known);
/// * `!op(..)`: an operation on operands, `!str`, `!strhex`, `!strtrim`
///   on one, `!byteele`/`!be`, `!arrayele`/`!ae` on an operand and an
///   index separated by the first `,`;
/// * else a variable name, which must start with an alphabetic char,
///   maybe followed by `[index]` (a byte of its bytes); a name is a function
///   argument where it is one of `fa`.
pub open spec fn dm_compile(fa: Option<Seq<Seq<char>>>, s0: Seq<char>) -> Option<DMView>
    decreases s0.len(), 1int,
{
    proof {
        lemma_trim_len(s0);
    }
    let s = trim_seq(s0);
    let n = s.len() as int;
    if n == 0 {
        None
    } else if spec_is_numeric(s[0]) || s[0] == '+' || s[0] == '-' {
        match intvalue_spec(s) {
            Some(i) => Some(DMView::Value(VVal::Int(i))),
            None => None,
        }
    } else if n >= 2 && (s[0] == '"' || s[n - 1] == '"') {
        if s[0] != s[n - 1] || quote_close(s, 1) != Some(n - 1) {
            None
        } else {
            match deescape(s.subrange(1, n - 1)) {
                Some(t) => Some(DMView::Value(VVal::Str(t))),
                None => None,
            }
        }
    } else if n > 2 && seq_starts_with(s, "$0x"@) {
        match hex_decode(s.subrange(3, n)) {
            Some(b) => Some(DMView::Value(VVal::Buf(b))),
            None => None,
        }
    } else if n > 2 && seq_starts_with(s, "__"@) {
        if s == "__TIME__STAMP__"@ {
            Some(DMView::Value(VVal::Time))
        } else if seq_starts_with(s, "__RANDOM__BYTES__"@) {
            match usize_from_radix(s.subrange(17, n), 10) {
                Some(k) => Some(DMView::Random(k)),
                None => None,
            }
        } else {
            None
        }
    } else if n > 2 && s[0] == '!' && s[n - 1] == ')' {
        dm_compile_xop(fa, s)
    } else if !spec_is_alphabetic(s[0]) {
        None
    } else if s[n - 1] == ']' {
        dm_compile_indexed(fa, s)
    } else {
        Some(DMView::Variable(name_kind(fa, s), s))
    }
}

/// An operation on operands, `!op(..)` (see `dm_compile`): the operation's
/// name is what comes before the first `(`, its operands what comes after
/// it up to the closing `)`.
pub open spec fn dm_compile_xop(fa: Option<Seq<Seq<char>>>, s: Seq<char>) -> Option<DMView>
    decreases s.len(), 0int,
{
    let n = s.len() as int;
    match seq_find(s, '(') {
        None => None,
        Some(p) => if !(0 <= p < n - 1) {
            None
        } else {
            let x = trim_seq(s.subrange(0, p));
            let inner = s.subrange(p + 1, n - 1);
            if xop_unary(x) {
                match dm_compile(fa, inner) {
                    None => None,
                    Some(a) => Some(DMView::XOp(
                        if x == "!str"@ {
                            XView::Str(Box::new(a))
                        } else if x == "!strhex"@ {
                            XView::StrHex(Box::new(a))
                        } else {
                            XView::StrTrim(Box::new(a))
                        },
                    )),
                }
            } else if xop_indexed(x) {
                match seq_find(inner, ',') {
                    None => None,
                    Some(q) => if !(0 <= q < inner.len()) {
                        None
                    } else {
                        match (dm_compile(fa, inner.subrange(0, q)),
                            dm_compile(fa, inner.subrange(q + 1, inner.len() as int))) {
                            (Some(a), Some(b)) => Some(DMView::XOp(
                                if x == "!byteele"@ || x == "!be"@ {
                                    XView::ByteEle(Box::new(a), Box::new(b))
                                } else {
                                    XView::ArrayEle(Box::new(a), Box::new(b))
                                },
                            )),
                            _ => None,
                        }
                    },
                }
            } else {
                None
            }
        },
    }
}

/// A variable with an index, `name[index]` (see `dm_compile`): the byte at
/// that index of the variable's bytes.
pub open spec fn dm_compile_indexed(fa: Option<Seq<Seq<char>>>, s: Seq<char>) -> Option<DMView>
    decreases s.len(), 0int,
{
    let n = s.len() as int;
    match seq_find(s, '[') {
        None => None,
        Some(p) => if !(0 <= p < n - 1) {
            None
        } else {
            let v = trim_seq(s.subrange(0, p));
            match dm_compile(fa, s.subrange(p + 1, n - 1)) {
                Some(i) => Some(DMView::XOp(XView::ByteEle(
                    Box::new(DMView::Variable(name_kind(fa, v), v)),
                    Box::new(i),
                ))),
                None => None,
            }
        },
    }
}

/// Whether one of the names is `n`.
fn names_contain(a: &Vec<String>, n: &[char]) -> (b: bool)
    ensures
        b == names_view(a@).contains(n@),
{
    let mut i: usize = 0;
    while i < a.len()
        invariant
            i <= a@.len(),
            forall|k: int| 0 <= k < i ==> a@[k]@ != n@,
        decreases a.len() - i,
    {
        let c = string_chars(&a[i]);
        if chars_eq(c.as_slice(), n) {
            assert(names_view(a@)[i as int] == n@);
            return true;
        }
        i = i + 1;
    }
    proof {
        if names_view(a@).contains(n@) {
            let k = choose|k: int| 0 <= k < names_view(a@).len() && names_view(a@)[k] == n@;
            assert(a@[k]@ == n@);
        }
    }
    false
}

pub(crate) fn name_kind_exec(fa: Option<&Vec<String>>, n: &[char]) -> (k: DataKind)
    ensures
        k == name_kind(fargs_names(fa), n@),
{
    match fa {
        Some(a) => if names_contain(a, n) { DataKind::FuncArg } else { DataKind::Variable },
        None => DataKind::Variable,
    }
}

impl DataM {
    /// The operand that a token of a script denotes (see `dm_compile`),
    /// where `fa` holds the argument names of the function being compiled.
    pub fn compile_chars(fa: Option<&Vec<String>>, s0: &[char]) -> (r: Result<DataM, String>)
        ensures
            match r {
                Ok(d) => dm_compile(fargs_names(fa), s0@) == Some(dmv(d)),
                Err(_) => dm_compile(fargs_names(fa), s0@) is None,
            },
        decreases s0@.len(), 1int,
    {
        proof {
            lemma_trim_len(s0@);
        }
        let t = trim_chars(s0);
        let n = t.len();
        if n == 0 {
            return Err(String::from_str("DataM:Compile:Data token empty"));
        }
        let c0 = t[0];
        let ce = t[n - 1];
        if char_is_numeric(c0) || c0 == '+' || c0 == '-' {
            return match intvalue_chars(t.as_slice()) {
                Some(i) => Ok(DataM::Value(Variant::IntValue(i))),
                None => Err(String::from_str("DataM:Compile:IntLiteral:Conversion")),
            };
        }
        if n >= 2 && (c0 == '"' || ce == '"') {
            if c0 != ce {
                return Err(String::from_str("DataM:Compile:StringLiteral:Missing double quote at one of the ends"));
            }
            match find_quote_close(t.as_slice(), 1) {
                Some(q) => {
                    if q != n - 1 {
                        return Err(String::from_str("DataM:Compile:StringLiteral:Extra data beyond end of the string"));
                    }
                },
                None => {
                    return Err(String::from_str("DataM:Compile:StringLiteral:Missing closing double quote"));
                },
            }
            let body = chars_range(t.as_slice(), 1, n - 1);
            return match str_deescape_chars(body.as_slice()) {
                Some(o) => Ok(DataM::Value(Variant::StrValue(string_from_chars(o.as_slice())))),
                None => Err(String::from_str("DataM:Compile:StringLiteral:Unsupported escape")),
            };
        }
        if n > 2 {
            let phex = str_chars("$0x");
            if chars_start_with(t.as_slice(), phex.as_slice()) {
                let h = chars_from(t.as_slice(), 3);
                return match hex_decode_chars(h.as_slice()) {
                    Some(b) => Ok(DataM::Value(Variant::BufValue(b))),
                    None => Err(String::from_str("DataM:Compile:BufHexString:Conversion")),
                };
            }
            let pspecial = str_chars("__");
            if chars_start_with(t.as_slice(), pspecial.as_slice()) {
                if chars_are(t.as_slice(), "__TIME__STAMP__") {
                    return Ok(DataM::Value(Variant::XTimeStamp));
                }
                let prand = str_chars("__RANDOM__BYTES__");
                if chars_start_with(t.as_slice(), prand.as_slice()) {
                    proof {
                        reveal_strlit("__RANDOM__BYTES__");
                    }
                    let k = chars_from(t.as_slice(), 17);
                    return match usize_from_str_radix(k.as_slice(), 10) {
                        Some(v) => Ok(DataM::Random(v)),
                        None => Err(String::from_str("DataM:Compile:RandomBytes:Count")),
                    };
                }
                return Err(String::from_str("DataM:Compile:Unknown Special Tag"));
            }
            if c0 == '!' && ce == ')' {
                return DataM::compile_xop_chars(fa, t.as_slice());
            }
        }
        if !char_is_alphabetic(c0) {
            return Err(String::from_str("DataM:Compile:Variable name should start with a alphabetic char"));
        }
        if ce == ']' {
            return DataM::compile_indexed_chars(fa, t.as_slice());
        }
        let k = name_kind_exec(fa, t.as_slice());
        Ok(DataM::Variable(k, string_from_chars(t.as_slice())))
    }

    /// An operation on operands (see `dm_compile_xop`).
    fn compile_xop_chars(fa: Option<&Vec<String>>, t: &[char]) -> (r: Result<DataM, String>)
        requires
            t@.len() > 2,
        ensures
            match r {
                Ok(d) => dm_compile_xop(fargs_names(fa), t@) == Some(dmv(d)),
                Err(_) => dm_compile_xop(fargs_names(fa), t@) is None,
            },
        decreases t@.len(), 0int,
    {
        let n = t.len();
        proof {
            lemma_seq_find(t@, '(');
        }
        let p = match chars_find(t, '(') {
            Some(p) => p,
            None => {
                return Err(String::from_str("DataM:Compile:XCast:Missing ("));
            },
        };
        if p >= n - 1 {
            return Err(String::from_str("DataM:Compile:XCast:Missing arguments"));
        }
        let xr = chars_range(t, 0, p);
        let x = trim_chars(xr.as_slice());
        let inner = chars_range(t, p + 1, n - 1);
        let is_str = chars_are(x.as_slice(), "!str");
        let is_strhex = chars_are(x.as_slice(), "!strhex");
        let is_strtrim = chars_are(x.as_slice(), "!strtrim");
        let is_be = chars_are(x.as_slice(), "!byteele") || chars_are(x.as_slice(), "!be");
        let is_ae = chars_are(x.as_slice(), "!arrayele") || chars_are(x.as_slice(), "!ae");
        if is_str || is_strhex || is_strtrim {
            let a = DataM::compile_chars(fa, inner.as_slice())?;
            let ba = Box::new(a);
            let xop = if is_str {
                XOpData::Str(ba)
            } else if is_strhex {
                XOpData::StrHex(ba)
            } else {
                XOpData::StrTrim(ba)
            };
            Ok(DataM::XOp(xop))
        } else if is_be || is_ae {
            proof {
                lemma_seq_find(inner@, ',');
            }
            let q = match chars_find(inner.as_slice(), ',') {
                Some(q) => q,
                None => {
                    return Err(String::from_str("DataM:Compile:XCast:Extracting args"));
                },
            };
            let sa = chars_range(inner.as_slice(), 0, q);
            let sb = chars_range(inner.as_slice(), q + 1, inner.len());
            let a = DataM::compile_chars(fa, sa.as_slice())?;
            let b = DataM::compile_chars(fa, sb.as_slice())?;
            let xop = if is_be {
                XOpData::ByteEle(Box::new(a), Box::new(b))
            } else {
                XOpData::ArrayEle(Box::new(a), Box::new(b))
            };
            Ok(DataM::XOp(xop))
        } else {
            Err(String::from_str("DataM:Compile:Unknown XCast type"))
        }
    }

    /// A variable with an index (see `dm_compile_indexed`).
    fn compile_indexed_chars(fa: Option<&Vec<String>>, t: &[char]) -> (r: Result<DataM, String>)
        requires
            t@.len() > 0,
        ensures
            match r {
                Ok(d) => dm_compile_indexed(fargs_names(fa), t@) == Some(dmv(d)),
                Err(_) => dm_compile_indexed(fargs_names(fa), t@) is None,
            },
        decreases t@.len(), 0int,
    {
        let n = t.len();
        proof {
            lemma_seq_find(t@, '[');
        }
        let p = match chars_find(t, '[') {
            Some(p) => p,
            None => {
                return Err(String::from_str("DataM:Compile:Invalid array indexing"));
            },
        };
        if p >= n - 1 {
            return Err(String::from_str("DataM:Compile:Invalid array indexing"));
        }
        let vr = chars_range(t, 0, p);
        let v = trim_chars(vr.as_slice());
        let sidx = chars_range(t, p + 1, n - 1);
        let idm = DataM::compile_chars(fa, sidx.as_slice())?;
        let k = name_kind_exec(fa, v.as_slice());
        let vdm = DataM::Variable(k, string_from_chars(v.as_slice()));
        assert(dmv(vdm) == DMView::Variable(name_kind(fargs_names(fa), v@), v@));
        let r = DataM::XOp(XOpData::ByteEle(Box::new(vdm), Box::new(idm)));
        assert(dmv(r) == DMView::XOp(XView::ByteEle(Box::new(dmv(vdm)), Box::new(dmv(idm)))));
        Ok(r)
    }

    /// The operand that a token of a script denotes (see `dm_compile`), with
    /// the argument names of the function that the context is compiling.
    pub fn compile(ctxt: &Context, sdata: &str, stype: &str, smsg: &str) -> (r: Result<DataM, String>)
        ensures
            match r {
                Ok(d) => dm_compile(ctxt.compiling_args(), sdata@) == Some(dmv(d)),
                Err(_) => dm_compile(ctxt.compiling_args(), sdata@) is None,
            },
    {
        let s = str_chars(sdata);
        let fa: Option<&Vec<String>> = if ctxt.bcompilingfunc {
            match ctxt.funcs.get(&ctxt.compilingfunc) {
                Some(fi) => Some(&fi.args),
                None => None,
            }
        } else {
            None
        };
        match DataM::compile_chars(fa, s.as_slice()) {
            Ok(d) => Ok(d),
            Err(e) => Err(String::from_str(smsg).concat(":").concat(stype).concat(":").concat(e.as_str())),
        }
    }
}

} // verus!
