//! What each instruction of the virtual machine does when it runs.

use vstd::prelude::*;
use vstd::utf8::encode_utf8;
use crate::strmap::StrMap;
use crate::vm::{VarsView, CtxView, Context};
use crate::rng::random_usize;
use crate::text::{string_utf8, string_chars, chars_are, chars_eq};
use crate::datautils::dec_text;
use crate::vm::datas::{Variant, vval};
use crate::vm::datam::{DataM, DataKind, dmv};
use crate::vm::ops::{dms_view, Op, opv};
use crate::vm::datas::VVal;
use crate::vm::datam::{DMView, dm_isize, dm_usize, dm_string, dm_bytes, dm_type, type_char, assign};
use crate::vm::ops::{CondOp, ALUOP, LOGICOP, OpView, strmap_view};

verus! {

/// What the machine asks of its caller after an instruction.
#[derive(Debug)]
pub enum VmAction {
    /// Nothing: go on with the next instruction.
    Continue,
    /// The program has ended.
    Halt,
    /// Open an io bridge (closing the one of that id, if any): its id, its
    /// address and its arguments.
    IobNew(String, String, StrMap<String>),
    /// Write bytes to an io bridge.
    IobWrite(String, Vec<u8>),
    /// Flush an io bridge.
    IobFlush(String),
    /// Read up to that many bytes from an io bridge, and hand them back
    /// with `VM::read_done`.
    IobRead(String, usize),
    /// Close an io bridge.
    IobClose(String),
    /// Sleep that many milliseconds.
    Sleep(usize),
}

/// The abstract view of an action.
pub enum ActView {
    Continue,
    Halt,
    IobNew(Seq<char>, Seq<char>, Map<Seq<char>, Seq<char>>),
    IobWrite(Seq<char>, Seq<u8>),
    IobFlush(Seq<char>),
    IobRead(Seq<char>, usize),
    IobClose(Seq<char>),
    Sleep(usize),
}

/// The abstract view of an action.
pub open spec fn actv(a: VmAction) -> ActView {
    match a {
        VmAction::Continue => ActView::Continue,
        VmAction::Halt => ActView::Halt,
        VmAction::IobNew(i, a, m) => ActView::IobNew(i@, a@, strmap_view(m.view())),
        VmAction::IobWrite(i, b) => ActView::IobWrite(i@, b@),
        VmAction::IobFlush(i) => ActView::IobFlush(i@),
        VmAction::IobRead(i, n) => ActView::IobRead(i@, n),
        VmAction::IobClose(i) => ActView::IobClose(i@),
        VmAction::Sleep(ms) => ActView::Sleep(ms),
    }
}

/// Whether a condition holds between two operands (`None` where an operand
/// has no value of the kind compared): `<`, `>`, `<=`, `>=`, `==` and `!=`
/// of their integers, `==` and `!=` of their bytes, `==` and `!=` of their
/// strings.
pub open spec fn cond_check(cop: CondOp, c: VarsView, a: DMView, b: DMView, now: u128, le: bool) -> Option<bool> {
    match cop {
        CondOp::IfEqBuf => match (dm_bytes(a, c, now, le), dm_bytes(b, c, now, le)) {
            (Some(x), Some(y)) => Some(x == y),
            _ => None,
        },
        CondOp::IfNeBuf => match (dm_bytes(a, c, now, le), dm_bytes(b, c, now, le)) {
            (Some(x), Some(y)) => Some(x != y),
            _ => None,
        },
        CondOp::IfEqStr => match (dm_string(a, c, now, le), dm_string(b, c, now, le)) {
            (Some(x), Some(y)) => Some(x == y),
            _ => None,
        },
        CondOp::IfNeStr => match (dm_string(a, c, now, le), dm_string(b, c, now, le)) {
            (Some(x), Some(y)) => Some(x != y),
            _ => None,
        },
        _ => match (dm_isize(a, c, now, le), dm_isize(b, c, now, le)) {
            (Some(x), Some(y)) => match cop {
                CondOp::IfLtInt => Some(x < y),
                CondOp::IfGtInt => Some(x > y),
                CondOp::IfLeInt => Some(x <= y),
                CondOp::IfGeInt => Some(x >= y),
                CondOp::IfEqInt => Some(x == y),
                _ => Some(x != y),
            },
            _ => None,
        },
    }
}

/// The result of an arithmetic operation, as Rust's checked operations give
/// it (`None` on overflow, and for a division or remainder by zero).
pub open spec fn alu_result(o: ALUOP, a: isize, b: isize) -> Option<isize> {
    match o {
        ALUOP::Add => a.checked_add(b),
        ALUOP::Sub => a.checked_sub(b),
        ALUOP::Mult => a.checked_mul(b),
        ALUOP::Div => a.checked_div(b),
        ALUOP::Mod => a.checked_rem(b),
    }
}

/// The bytes of a bitwise operation on two buffers of the same length.
pub open spec fn bytes_logic(o: LOGICOP, a: Seq<u8>, b: Seq<u8>) -> Seq<u8> {
    Seq::new(a.len(), |k: int| match o {
        LOGICOP::And => a[k] & b[k],
        LOGICOP::Or => a[k] | b[k],
        LOGICOP::Xor => a[k] ^ b[k],
    })
}

/// The bytes of a buffer with each bit negated.
pub open spec fn bytes_not(a: Seq<u8>) -> Seq<u8> {
    Seq::new(a.len(), |k: int| !a[k])
}

/// The state after a jump to a label: `__NEXT__` leaves it as it is (the
/// next instruction follows); an unknown label is `None`.
pub open spec fn jump_target(c: CtxView, label: Seq<char>) -> Option<CtxView> {
    if label == "__NEXT__"@ {
        Some(c)
    } else if c.lbls.dom().contains(label) {
        Some(CtxView { iptr: c.lbls[label], jumped: true, ..c })
    } else {
        None
    }
}

/// What a variable passed to a function stands for: through an argument of
/// the current function to what that stands for, else a local of the
/// current function (at its depth of the call stack), else a global
/// (location -1).
pub open spec fn farg_base(v: VarsView, passed: Seq<char>) -> (isize, Seq<char>) {
    if v.fargs.len() > 0 && v.fargs.last().dom().contains(passed) {
        v.fargs.last()[passed]
    } else if v.locals.len() > 0 && v.locals.last().dom().contains(passed) {
        ((v.locals.len() - 1) as isize, passed)
    } else {
        (-1isize, passed)
    }
}

/// The argument map of a call: each argument name to what the variable
/// passed for it stands for (a later name wins over an equal earlier one).
pub open spec fn fargs_map(v: VarsView, names: Seq<Seq<char>>, passed: Seq<Seq<char>>) -> Map<Seq<char>, (isize, Seq<char>)>
    decreases names.len(),
{
    if names.len() == 0 || passed.len() == 0 {
        Map::empty()
    } else {
        fargs_map(v, names.drop_last(), passed.drop_last()).insert(names.last(), farg_base(v, passed.last()))
    }
}

/// The state after calling a function: the return address is pushed, a new
/// argument map and an empty set of locals are pushed, and the function's
/// first instruction is next; `None` for an unknown function or a wrong
/// number of arguments.
pub open spec fn call_target(c: CtxView, fname: Seq<char>, passed: Seq<Seq<char>>) -> Option<CtxView> {
    if !c.funcs.dom().contains(fname) || c.funcs[fname].1.len() != passed.len() {
        None
    } else {
        Some(CtxView {
            vars: VarsView {
                locals: c.vars.locals.push(Map::empty()),
                fargs: c.vars.fargs.push(fargs_map(c.vars, c.funcs[fname].1, passed)),
                ..c.vars
            },
            callret: c.callret.push(c.iptr),
            iptr: c.funcs[fname].0,
            jumped: true,
            ..c
        })
    }
}

/// The state after returning from a function: the return address is popped
/// (and the instruction after the call is next), as are the argument map and
/// the locals; `None` outside a call.
pub open spec fn ret_target(c: CtxView) -> Option<CtxView> {
    if c.callret.len() == 0 || c.vars.fargs.len() == 0 {
        None
    } else {
        Some(CtxView {
            vars: VarsView {
                fargs: c.vars.fargs.drop_last(),
                locals: if c.vars.locals.len() > 0 { c.vars.locals.drop_last() } else { c.vars.locals },
                ..c.vars
            },
            callret: c.callret.drop_last(),
            iptr: c.callret.last(),
            ..c
        })
    }
}

/// The value that a `let` stores: of the kind it names, or where that is
/// `?`, of the kind of the source's current value.
pub open spec fn let_value(t: char, d: DMView, v: VarsView, now: u128, le: bool) -> Option<VVal> {
    let dt = if t == '?' { type_char(dm_type(d, v)) } else { t };
    if dt == 'b' {
        match dm_bytes(d, v, now, le) {
            Some(b) => Some(VVal::Buf(b)),
            None => None,
        }
    } else if dt == 's' {
        match dm_string(d, v, now, le) {
            Some(s) => Some(VVal::Str(s)),
            None => None,
        }
    } else if dt == 'i' {
        match dm_isize(d, v, now, le) {
            Some(i) => Some(VVal::Int(i)),
            None => None,
        }
    } else {
        None
    }
}

/// The bytes that an operand adds to a merged buffer: its bytes, or for a
/// merge of strings, the UTF-8 encoding of its string.
pub open spec fn merge_part(t: char, d: DMView, v: VarsView, now: u128, le: bool) -> Option<Seq<u8>> {
    if t == 'b' {
        dm_bytes(d, v, now, le)
    } else {
        match dm_string(d, v, now, le) {
            Some(s) => Some(encode_utf8(s)),
            None => None,
        }
    }
}

/// The bytes of a merged buffer: the parts of the operands, in order.
pub open spec fn merged(t: char, srcs: Seq<DMView>, v: VarsView, now: u128, le: bool) -> Option<Seq<u8>>
    decreases srcs.len(),
{
    if srcs.len() == 0 {
        Some(Seq::empty())
    } else {
        match (merged(t, srcs.drop_last(), v, now, le), merge_part(t, srcs.last(), v, now, le)) {
            (Some(a), Some(b)) => Some(a + b),
            _ => None,
        }
    }
}

/// The state after setting a variable (the next instruction follows).
pub open spec fn set_to(c: CtxView, d: DMView, v: VVal) -> Option<(CtxView, ActView)> {
    match assign(c.vars, d, v, false) {
        Some(nv) => Some((c.with_vars(nv), ActView::Continue)),
        None => None,
    }
}

/// A state with the action of going on.
pub open spec fn cont(r: Option<CtxView>) -> Option<(CtxView, ActView)> {
    match r {
        Some(d) => Some((d, ActView::Continue)),
        None => None,
    }
}

/// A buffer with some bytes replaced: each pick, in order, puts its byte at
/// its index.
pub open spec fn apply_picks(b: Seq<u8>, picks: Seq<(int, u8)>) -> Seq<u8>
    decreases picks.len(),
{
    if picks.len() == 0 {
        b
    } else {
        apply_picks(b, picks.drop_last()).update(picks.last().0, picks.last().1)
    }
}

/// The first index that a buffer randomization may change.
pub open spec fn b8r_first(so: isize) -> int {
    if so < 0 { 0 } else { so as int }
}

/// The last index that a buffer randomization may change.
pub open spec fn b8r_last(len: nat, eo: isize) -> int {
    if eo < 0 { len - 1 } else { eo as int }
}

/// Whether a buffer randomization fails: a random count or a default end
/// for an empty buffer, an end before the start (or a range as wide as
/// all of `usize`), a last value below the first (each taken as a `u8`), or
/// an end past the buffer when anything is to be changed.
pub open spec fn b8r_fails(b: Seq<u8>, rc: isize, so: isize, eo: isize, sv: isize, ev: isize) -> bool {
    let first = b8r_first(so);
    let last = b8r_last(b.len(), eo);
    ||| (rc < 0 || eo < 0) && b.len() == 0
    ||| last < first
    ||| last - first + 1 > usize::MAX
    ||| (ev as u8) < (sv as u8)
    ||| rc != 0 && last >= b.len()
}

/// Whether `out` is what a buffer randomization may make of `b`: the count
/// of picks is `rc` (a random count below the length when `rc` is
/// negative), each pick puts a byte from `sv` to `ev` (taken as `u8`) at an
/// index in the range, one after another.
pub open spec fn b8r_result(b: Seq<u8>, rc: isize, so: isize, eo: isize, sv: isize, ev: isize, out: Seq<u8>) -> bool {
    exists|picks: Seq<(int, u8)>|
        #[trigger] apply_picks(b, picks) == out
        && (if rc < 0 { picks.len() < b.len() } else { picks.len() == rc })
        && forall|k: int| 0 <= k < picks.len() ==>
            b8r_first(so) <= (#[trigger] picks[k]).0 <= b8r_last(b.len(), eo)
            && (sv as u8) <= picks[k].1 <= (ev as u8)
}

/// The state and the action after an instruction that decides everything
/// it does (all but `FcGet` and `Buf8Randomize`); `None` where it fails.
#[verifier::opaque]
pub open spec fn op_next(op: OpView, c: CtxView, now: u128, le: bool) -> Option<(CtxView, ActView)> {
    match op {
        OpView::Nop => Some((c, ActView::Continue)),
        OpView::LetGlobal(t, x, d) => match let_value(t, d, c.vars, now, le) {
            Some(v) => set_to(c, x, v),
            None => None,
        },
        OpView::LetLocal(t, x, d) => match let_value(t, d, c.vars, now, le) {
            Some(v) => match assign(c.vars, x, v, true) {
                Some(nv) => Some((c.with_vars(nv), ActView::Continue)),
                None => None,
            },
            None => None,
        },
        OpView::Inc(x) => match dm_isize(x, c.vars, now, le) {
            Some(i) => if i == isize::MAX { None } else { set_to(c, x, VVal::Int((i + 1) as isize)) },
            None => None,
        },
        OpView::Dec(x) => match dm_isize(x, c.vars, now, le) {
            Some(i) => if i == isize::MIN { None } else { set_to(c, x, VVal::Int((i - 1) as isize)) },
            None => None,
        },
        OpView::Alu(o, x, s1, s2) => match (dm_isize(s1, c.vars, now, le), dm_isize(s2, c.vars, now, le)) {
            (Some(a), Some(b)) => match alu_result(o, a, b) {
                Some(r) => set_to(c, x, VVal::Int(r)),
                None => None,
            },
            _ => None,
        },
        OpView::Logic(o, x, s1, s2) => match (dm_bytes(s1, c.vars, now, le), dm_bytes(s2, c.vars, now, le)) {
            (Some(a), Some(b)) => if a.len() != b.len() { None } else { set_to(c, x, VVal::Buf(bytes_logic(o, a, b))) },
            _ => None,
        },
        OpView::Not(x, s1) => match dm_bytes(s1, c.vars, now, le) {
            Some(a) => set_to(c, x, VVal::Buf(bytes_not(a))),
            None => None,
        },
        OpView::GetSize(s1, x) => match dm_bytes(s1, c.vars, now, le) {
            Some(a) => if a.len() > isize::MAX { None } else { set_to(c, x, VVal::Int(a.len() as isize)) },
            None => None,
        },
        OpView::IobNew(i, a, m) => Some((c, ActView::IobNew(i, a, m))),
        OpView::IobWrite(i, x) => match dm_bytes(x, c.vars, now, le) {
            Some(b) => Some((c, ActView::IobWrite(i, b))),
            None => None,
        },
        OpView::IobFlush(i) => Some((c, ActView::IobFlush(i))),
        OpView::IobRead(i, x) => match dm_bytes(x, c.vars, now, le) {
            Some(b) => Some((c, ActView::IobRead(i, b.len() as usize))),
            None => None,
        },
        OpView::IobClose(i) => Some((c, ActView::IobClose(i))),
        OpView::If(cop, a, b, dt, dn, args) => match cond_check(cop, c.vars, a, b, now, le) {
            None => None,
            Some(false) => Some((c, ActView::Continue)),
            Some(true) => if dt == "goto"@ || dt == "jump"@ {
                cont(jump_target(c, dn))
            } else if dt == "call"@ {
                cont(call_target(c, dn, args))
            } else {
                None
            },
        },
        OpView::CheckJump(a, b, l1, l2, l3) => match (dm_isize(a, c.vars, now, le), dm_isize(b, c.vars, now, le)) {
            (Some(x), Some(y)) => cont(jump_target(c, if x < y { l1 } else if x == y { l2 } else { l3 })),
            _ => None,
        },
        OpView::Jump(l) => cont(jump_target(c, l)),
        OpView::Call(f, args) => cont(call_target(c, f, args)),
        OpView::Ret => cont(ret_target(c)),
        OpView::SleepMSec(x) => match dm_usize(x, c.vars, now, le) {
            Some(ms) => Some((c, ActView::Sleep(ms))),
            None => None,
        },
        OpView::BufNew(x, n) => match dm_usize(n, c.vars, now, le) {
            Some(k) => set_to(c, x, VVal::Buf(Seq::new(k as nat, |i: int| 0u8))),
            None => None,
        },
        OpView::BufMerged(t, x, srcs) => match merged(t, srcs, c.vars, now, le) {
            Some(b) => set_to(c, x, VVal::Buf(b)),
            None => None,
        },
        OpView::FcGet(_, _) => None,
        OpView::Buf8Randomize(_, _, _, _, _, _) => None,
    }
}

/// Whether an operand names a variable that can be set (no function
/// argument, and no local outside a call).
pub open spec fn assignable(v: VarsView, d: DMView, force_local: bool) -> bool {
    d matches DMView::Variable(k, n) && k != crate::vm::datam::DataKind::FuncArg && !(force_local && v.locals.len() == 0)
}

/// Whether an instruction fails when it runs.
pub open spec fn op_fails(op: OpView, c: CtxView, now: u128, le: bool) -> bool {
    match op {
        OpView::FcGet(f, x) => !c.chains.dom().contains(f) || !c.chains[f].ready() || !assignable(c.vars, x, false)
            || c.stepu == usize::MAX,
        OpView::Buf8Randomize(x, rc, so, eo, sv, ev) => match (dm_bytes(x, c.vars, now, le), dm_isize(rc, c.vars, now, le),
            dm_isize(so, c.vars, now, le), dm_isize(eo, c.vars, now, le), dm_isize(sv, c.vars, now, le),
            dm_isize(ev, c.vars, now, le)) {
            (Some(b), Some(r), Some(s), Some(e), Some(a), Some(z)) => b8r_fails(b, r, s, e, a, z) || !assignable(c.vars, x, false),
            _ => true,
        },
        _ => op_next(op, c, now, le) is None,
    }
}

/// Whether `d` and `a` are a state and an action that an instruction may
/// leave and ask for, when it does not fail: `FcGet` sets its variable to
/// what the chain generates at the fuzz step, and steps on; `Buf8Randomize`
/// sets its buffer to a randomization of it; the others are `op_next`.
pub open spec fn op_run(op: OpView, c: CtxView, d: CtxView, a: ActView, now: u128, le: bool) -> bool {
    match op {
        OpView::FcGet(f, x) => a == ActView::Continue && exists|b: Seq<u8>|
            #[trigger] crate::chain_emits(c.chains[f].fuzzers(), c.stepu, b)
            && assign(c.vars, x, VVal::Buf(b), false) == Some(d.vars)
            && d == CtxView {
                vars: d.vars,
                stepu: (c.stepu + 1) as usize,
                chains: c.chains.insert(f, d.chains[f]),
                ..c
            }
            && d.chains[f].fuzzers() == c.chains[f].fuzzers()
            && d.chains[f].cur_step() == c.stepu,
        OpView::Buf8Randomize(x, rc, so, eo, sv, ev) => a == ActView::Continue && exists|out: Seq<u8>|
            #[trigger] assign(c.vars, x, VVal::Buf(out), false) == Some(d.vars)
            && d == c.with_vars(d.vars)
            && b8r_result(dm_bytes(x, c.vars, now, le).unwrap(), dm_isize(rc, c.vars, now, le).unwrap(),
                dm_isize(so, c.vars, now, le).unwrap(), dm_isize(eo, c.vars, now, le).unwrap(),
                dm_isize(sv, c.vars, now, le).unwrap(), dm_isize(ev, c.vars, now, le).unwrap(), out),
        _ => op_next(op, c, now, le) == Some((d, a)),
    }
}


/// A return after a call comes back to the state before the call: the
/// same variables, return addresses and instruction pointer (the one of the
/// call, so that the instruction after it runs next).
pub proof fn law_call_ret(c: CtxView, fname: Seq<char>, passed: Seq<Seq<char>>)
    requires
        call_target(c, fname, passed) is Some,
    ensures
        ret_target(call_target(c, fname, passed).unwrap()) == Some(CtxView { jumped: true, ..c }),
{
    let d = call_target(c, fname, passed).unwrap();
    assert(d.vars.locals.drop_last() =~= c.vars.locals);
    assert(d.vars.fargs.drop_last() =~= c.vars.fargs);
    assert(d.callret.drop_last() =~= c.callret);
}

/// `a > b` is `b < a`, `a >= b` is `b <= a`, and each `!=` is the
/// negation of the matching `==`.
pub proof fn law_cond_derived(c: VarsView, a: DMView, b: DMView, now: u128, le: bool)
    ensures
        cond_check(CondOp::IfGtInt, c, a, b, now, le) == cond_check(CondOp::IfLtInt, c, b, a, now, le),
        cond_check(CondOp::IfGeInt, c, a, b, now, le) == cond_check(CondOp::IfLeInt, c, b, a, now, le),
        cond_check(CondOp::IfEqBuf, c, a, b, now, le) matches Some(e)
            ==> cond_check(CondOp::IfNeBuf, c, a, b, now, le) == Some(!e),
        cond_check(CondOp::IfEqBuf, c, a, b, now, le) is None ==> cond_check(CondOp::IfNeBuf, c, a, b, now, le) is None,
        cond_check(CondOp::IfEqStr, c, a, b, now, le) matches Some(e)
            ==> cond_check(CondOp::IfNeStr, c, a, b, now, le) == Some(!e),
        cond_check(CondOp::IfEqStr, c, a, b, now, le) is None ==> cond_check(CondOp::IfNeStr, c, a, b, now, le) is None,
        cond_check(CondOp::IfEqInt, c, a, b, now, le) matches Some(e)
            ==> cond_check(CondOp::IfNeInt, c, a, b, now, le) == Some(!e),
        cond_check(CondOp::IfEqInt, c, a, b, now, le) is None ==> cond_check(CondOp::IfNeInt, c, a, b, now, le) is None,
{
}

/// On integers `x` and `y`, the integer checks compare as their names say.
pub proof fn law_cond_ints(c: VarsView, a: DMView, b: DMView, x: isize, y: isize, now: u128, le: bool)
    requires
        dm_isize(a, c, now, le) == Some(x),
        dm_isize(b, c, now, le) == Some(y),
    ensures
        cond_check(CondOp::IfLtInt, c, a, b, now, le) == Some(x < y),
        cond_check(CondOp::IfGtInt, c, a, b, now, le) == Some(x > y),
        cond_check(CondOp::IfLeInt, c, a, b, now, le) == Some(x <= y),
        cond_check(CondOp::IfGeInt, c, a, b, now, le) == Some(x >= y),
        cond_check(CondOp::IfEqInt, c, a, b, now, le) == Some(x == y),
        cond_check(CondOp::IfNeInt, c, a, b, now, le) == Some(x != y),
{
}

/// An integer and the same integer written as a string are equal as strings
/// (`ifeq.s`), though their bytes differ.
pub proof fn law_cond_int_as_string(c: VarsView, i: isize, now: u128, le: bool)
    ensures
        cond_check(CondOp::IfEqStr, c, DMView::Value(VVal::Int(i)), DMView::Value(VVal::Str(dec_text(i as int))), now, le)
            == Some(true),
{
}

// ---------------------------------------------------------------------------
// Running, executable
// ---------------------------------------------------------------------------

impl CondOp {
    /// Checks the condition between two operands (see `cond_check`).
    pub fn check(&self, ctxt: &Context, val1: &DataM, val2: &DataM, now: u128, le: bool) -> (r: Result<bool, String>)
        ensures
            match r {
                Ok(b) => cond_check(*self, ctxt.vars(), dmv(*val1), dmv(*val2), now, le) == Some(b),
                Err(_) => cond_check(*self, ctxt.vars(), dmv(*val1), dmv(*val2), now, le) is None,
            },
    {
        match self {
            CondOp::IfEqBuf => {
                let a = val1.get_bufvu8(ctxt, now, le)?;
                let b = val2.get_bufvu8(ctxt, now, le)?;
                Ok(bytes_eq(&a, &b))
            },
            CondOp::IfNeBuf => {
                let a = val1.get_bufvu8(ctxt, now, le)?;
                let b = val2.get_bufvu8(ctxt, now, le)?;
                Ok(!bytes_eq(&a, &b))
            },
            CondOp::IfEqStr => {
                let a = string_chars(&val1.get_string(ctxt, now, le)?);
                let b = string_chars(&val2.get_string(ctxt, now, le)?);
                Ok(chars_eq(a.as_slice(), b.as_slice()))
            },
            CondOp::IfNeStr => {
                let a = string_chars(&val1.get_string(ctxt, now, le)?);
                let b = string_chars(&val2.get_string(ctxt, now, le)?);
                Ok(!chars_eq(a.as_slice(), b.as_slice()))
            },
            _ => {
                let x = val1.get_isize(ctxt, now, le)?;
                let y = val2.get_isize(ctxt, now, le)?;
                match self {
                    CondOp::IfLtInt => Ok(x < y),
                    CondOp::IfGtInt => Ok(x > y),
                    CondOp::IfLeInt => Ok(x <= y),
                    CondOp::IfGeInt => Ok(x >= y),
                    CondOp::IfEqInt => Ok(x == y),
                    _ => Ok(x != y),
                }
            },
        }
    }
}

/// Whether two byte buffers are equal.
fn bytes_eq(a: &Vec<u8>, b: &Vec<u8>) -> (r: bool)
    ensures
        r == (a@ == b@),
{
    if a.len() != b.len() {
        return false;
    }
    let mut i: usize = 0;
    while i < a.len()
        invariant
            a@.len() == b@.len(),
            i <= a@.len(),
            forall|k: int| 0 <= k < i ==> a@[k] == b@[k],
        decreases a.len() - i,
    {
        if a[i] != b[i] {
            return false;
        }
        i = i + 1;
    }
    assert(a@ =~= b@);
    true
}

/// The bytes of a bitwise operation on two buffers of the same length (see `bytes_logic`).
fn bytes_logic_exec(o: LOGICOP, a: &Vec<u8>, b: &Vec<u8>) -> (r: Vec<u8>)
    requires
        a@.len() == b@.len(),
    ensures
        r@ == bytes_logic(o, a@, b@),
{
    let mut out: Vec<u8> = Vec::new();
    let mut k: usize = 0;
    while k < a.len()
        invariant
            a@.len() == b@.len(),
            k <= a@.len(),
            out@ == bytes_logic(o, a@, b@).subrange(0, k as int),
        decreases a.len() - k,
    {
        let v = match o {
            LOGICOP::And => a[k] & b[k],
            LOGICOP::Or => a[k] | b[k],
            LOGICOP::Xor => a[k] ^ b[k],
        };
        out.push(v);
        assert(out@ =~= bytes_logic(o, a@, b@).subrange(0, k + 1));
        k = k + 1;
    }
    assert(bytes_logic(o, a@, b@).subrange(0, a@.len() as int) =~= bytes_logic(o, a@, b@));
    out
}

/// The bytes of a buffer with each bit negated (see `bytes_not`).
fn bytes_not_exec(a: &Vec<u8>) -> (r: Vec<u8>)
    ensures
        r@ == bytes_not(a@),
{
    let mut out: Vec<u8> = Vec::new();
    let mut k: usize = 0;
    while k < a.len()
        invariant
            k <= a@.len(),
            out@ == bytes_not(a@).subrange(0, k as int),
        decreases a.len() - k,
    {
        out.push(!a[k]);
        assert(out@ =~= bytes_not(a@).subrange(0, k + 1));
        k = k + 1;
    }
    assert(bytes_not(a@).subrange(0, a@.len() as int) =~= bytes_not(a@));
    out
}

/// The result of an arithmetic operation (see `alu_result`).
fn alu_exec(o: ALUOP, a: isize, b: isize) -> (r: Option<isize>)
    ensures
        r == alu_result(o, a, b),
{
    match o {
        ALUOP::Add => a.checked_add(b),
        ALUOP::Sub => a.checked_sub(b),
        ALUOP::Mult => a.checked_mul(b),
        ALUOP::Div => a.checked_div(b),
        ALUOP::Mod => a.checked_rem(b),
    }
}

impl Op {
    /// The kind of data that a `let` stores: the one it names, or where that
    /// is `?`, that of the source's current value (see `let_value`).
    fn oprun_opdatatype_infer(curtypeinfo: char, ctxt: &Context, srcdm: &DataM) -> (t: char)
        ensures
            t == (if curtypeinfo == '?' { type_char(dm_type(dmv(*srcdm), ctxt.vars())) } else { curtypeinfo }),
    {
        if curtypeinfo == '?' {
            srcdm.get_type_char(ctxt)
        } else {
            curtypeinfo
        }
    }
}

/// The value that a `let` stores (see `let_value`).
fn let_value_exec(t: char, d: &DataM, ctxt: &Context, now: u128, le: bool) -> (r: Result<Variant, String>)
    ensures
        match r {
            Ok(v) => let_value(t, dmv(*d), ctxt.vars(), now, le) == Some(vval(v)),
            Err(_) => let_value(t, dmv(*d), ctxt.vars(), now, le) is None,
        },
{
    let dt = Op::oprun_opdatatype_infer(t, ctxt, d);
    if dt == 'b' {
        let b = d.get_bufvu8(ctxt, now, le)?;
        Ok(Variant::BufValue(b))
    } else if dt == 's' {
        let s = d.get_string(ctxt, now, le)?;
        Ok(Variant::StrValue(s))
    } else if dt == 'i' {
        let i = d.get_isize(ctxt, now, le)?;
        Ok(Variant::IntValue(i))
    } else {
        Err(String::from_str("Op:Let:Unknown type of the source data"))
    }
}

/// Sets the variable that an operand names and goes on (see `set_to`).
fn set_and_go(ctxt: &mut Context, x: &DataM, v: Variant) -> (r: Result<VmAction, String>)
    ensures
        match r {
            Ok(a) => set_to(old(ctxt).view(), dmv(*x), vval(v)) == Some((final(ctxt).view(), actv(a))),
            Err(_) => set_to(old(ctxt).view(), dmv(*x), vval(v)) is None,
        },
{
    x.set_value(ctxt, v, false)?;
    Ok(VmAction::Continue)
}

/// The bytes that an operand adds to a merged buffer (see `merge_part`).
fn merge_part_exec(t: char, d: &DataM, ctxt: &Context, now: u128, le: bool) -> (r: Result<Vec<u8>, String>)
    ensures
        match r {
            Ok(b) => merge_part(t, dmv(*d), ctxt.vars(), now, le) == Some(b@),
            Err(_) => merge_part(t, dmv(*d), ctxt.vars(), now, le) is None,
        },
{
    if t == 'b' {
        d.get_bufvu8(ctxt, now, le)
    } else {
        let s = d.get_string(ctxt, now, le)?;
        Ok(string_utf8(&s))
    }
}

proof fn lemma_merged_none(t: char, srcs: Seq<DMView>, v: VarsView, now: u128, le: bool, k: int)
    requires
        0 <= k <= srcs.len(),
        merged(t, srcs.subrange(0, k), v, now, le) is None,
    ensures
        merged(t, srcs, v, now, le) is None,
    decreases srcs.len() - k,
{
    if k < srcs.len() {
        assert(srcs.subrange(0, k + 1).drop_last() =~= srcs.subrange(0, k));
        lemma_merged_none(t, srcs, v, now, le, k + 1);
    } else {
        assert(srcs.subrange(0, k) =~= srcs);
    }
}

/// The bytes of a merged buffer (see `merged`).
fn merged_exec(t: char, srcs: &Vec<DataM>, ctxt: &Context, now: u128, le: bool) -> (r: Result<Vec<u8>, String>)
    ensures
        match r {
            Ok(b) => merged(t, dms_view(srcs@), ctxt.vars(), now, le) == Some(b@),
            Err(_) => merged(t, dms_view(srcs@), ctxt.vars(), now, le) is None,
        },
{
    let ghost ds = dms_view(srcs@);
    let mut out: Vec<u8> = Vec::new();
    let mut i: usize = 0;
    assert(ds.subrange(0, 0) =~= Seq::<DMView>::empty());
    while i < srcs.len()
        invariant
            ds == dms_view(srcs@),
            i <= srcs@.len(),
            merged(t, ds.subrange(0, i as int), ctxt.vars(), now, le) == Some(out@),
        decreases srcs.len() - i,
    {
        assert(ds.subrange(0, i + 1).drop_last() =~= ds.subrange(0, i as int));
        assert(ds.subrange(0, i + 1).last() == dmv(srcs@[i as int]));
        match merge_part_exec(t, &srcs[i], ctxt, now, le) {
            Ok(b) => {
                let mut k: usize = 0;
                let ghost o0 = out@;
                while k < b.len()
                    invariant
                        k <= b@.len(),
                        out@ == o0 + b@.subrange(0, k as int),
                    decreases b.len() - k,
                {
                    out.push(b[k]);
                    assert(out@ =~= o0 + b@.subrange(0, k + 1));
                    k = k + 1;
                }
                assert(b@.subrange(0, b@.len() as int) =~= b@);
            },
            Err(e) => {
                proof {
                    lemma_merged_none(t, ds, ctxt.vars(), now, le, i + 1);
                }
                return Err(e);
            },
        }
        i = i + 1;
    }
    assert(ds.subrange(0, srcs@.len() as int) =~= ds);
    Ok(out)
}

/// A buffer of `n` zero bytes.
fn zeros(n: usize) -> (r: Vec<u8>)
    ensures
        r@ == Seq::new(n as nat, |i: int| 0u8),
{
    let mut v: Vec<u8> = Vec::new();
    let mut i: usize = 0;
    while i < n
        invariant
            i <= n,
            v@ == Seq::new(i as nat, |k: int| 0u8),
        decreases n - i,
    {
        v.push(0u8);
        assert(v@ =~= Seq::new((i + 1) as nat, |k: int| 0u8));
        i = i + 1;
    }
    v
}

/// Randomizes some bytes of a buffer (see `b8r_fails` and `b8r_result`):
/// a count of times (random below the length when `rc` is negative), a
/// random index from the start to the end offset gets a random value from
/// the start to the end value.
pub fn buf8_randomize(b: Vec<u8>, rc: isize, so: isize, eo: isize, sv: isize, ev: isize) -> (r: Result<Vec<u8>, String>)
    ensures
        match r {
            Ok(o) => !b8r_fails(b@, rc, so, eo, sv, ev) && b8r_result(b@, rc, so, eo, sv, ev, o@),
            Err(_) => b8r_fails(b@, rc, so, eo, sv, ev),
        },
{
    let n = b.len();
    if (rc < 0 || eo < 0) && n == 0 {
        return Err(String::from_str("Buf8Randomize:Empty buffer"));
    }
    let first: usize = if so < 0 { 0 } else { so as usize };
    let last: usize = if eo < 0 { n - 1 } else { eo as usize };
    if last < first {
        return Err(String::from_str("Buf8Randomize:End offset before start offset"));
    }
    if last - first == usize::MAX {
        return Err(String::from_str("Buf8Randomize:Offset range too wide"));
    }
    let svu = sv as u8;
    let evu = ev as u8;
    if evu < svu {
        return Err(String::from_str("Buf8Randomize:End value below start value"));
    }
    if rc != 0 && last >= n {
        return Err(String::from_str("Buf8Randomize:End offset beyond the buffer"));
    }
    let count: usize = if rc < 0 { random_usize() % n } else { rc as usize };
    let width: usize = last - first + 1;
    let vwidth: usize = (evu - svu) as usize + 1;
    let mut out = b;
    let ghost b0 = out@;
    let ghost mut picks: Seq<(int, u8)> = Seq::empty();
    let mut k: usize = 0;
    while k < count
        invariant
            n == b0.len(),
            out@.len() == n,
            k <= count,
            picks.len() == k,
            out@ == apply_picks(b0, picks),
            first <= last,
            width == last - first + 1,
            vwidth == evu - svu + 1,
            svu <= evu,
            count > 0 ==> last < n,
            forall|j: int| 0 <= j < picks.len() ==>
                first <= (#[trigger] picks[j]).0 <= last && svu <= picks[j].1 <= evu,
        decreases count - k,
    {
        let idx = first + random_usize() % width;
        let val = svu + (random_usize() % vwidth) as u8;
        out.set(idx, val);
        proof {
            let np = picks.push((idx as int, val));
            assert(np.drop_last() =~= picks);
            picks = np;
        }
        k = k + 1;
    }
    proof {
        assert(b8r_first(so) == first as int);
        assert(b8r_last(b0.len(), eo) == last as int);
        assert(picks.len() == count);
        if rc < 0 {
            assert(picks.len() < b0.len());
        }
        assert(apply_picks(b0, picks) == out@);
    }
    Ok(out)
}

/// Whether an operand names a variable that can be set (see `assignable`).
fn assignable_exec(ctxt: &Context, d: &DataM, force_local: bool) -> (b: bool)
    ensures
        b == assignable(ctxt.vars(), dmv(*d), force_local),
{
    match d {
        DataM::Variable(k, _) => *k != DataKind::FuncArg && !(force_local && ctxt.localsstack.len() == 0),
        _ => false,
    }
}

proof fn lemma_assignable(v: VarsView, d: DMView, val: VVal, force_local: bool)
    ensures
        assign(v, d, val, force_local) is Some <==> assignable(v, d, force_local),
{
}


/// Sets a variable to what a fuzz chain generates at the fuzz step, and
/// steps on (the `FcGet` instruction).
fn run_fcget(ctxt: &mut Context, f: &String, x: &DataM, now: u128, le: bool) -> (r: Result<VmAction, String>)
    ensures
        match r {
            Ok(a) => !op_fails(OpView::FcGet(f@, dmv(*x)), old(ctxt).view(), now, le)
                && op_run(OpView::FcGet(f@, dmv(*x)), old(ctxt).view(), final(ctxt).view(), actv(a), now, le),
            Err(_) => op_fails(OpView::FcGet(f@, dmv(*x)), old(ctxt).view(), now, le),
        },
{
    if ctxt.stepu == usize::MAX {
        return Err(String::from_str("Op:FcGet:Fuzz step overflows"));
    }
    if !assignable_exec(ctxt, x, false) {
        return Err(String::from_str("Op:FcGet:Destination can not be set"));
    }
    let ghost c0 = ctxt.view();
    let b = match ctxt.fcrtm.fchain_get(f, Some(ctxt.stepu)) {
        Some(b) => b,
        None => {
            return Err(String::from_str("Op:FcGet:Unknown fuzz chain"));
        },
    };
    let ghost bv = b@;
    let ghost c1 = ctxt.view();
    proof {
        lemma_assignable(c1.vars, dmv(*x), VVal::Buf(bv), false);
    }
    let r = x.set_bufvu8(ctxt, b);
    assert(r is Ok);
    ctxt.stepu = ctxt.stepu + 1;
    proof {
        let d = ctxt.view();
        assert(crate::chain_emits(c0.chains[f@].fuzzers(), c0.stepu, bv));
        assert(d == CtxView {
            vars: d.vars,
            stepu: (c0.stepu + 1) as usize,
            chains: c0.chains.insert(f@, d.chains[f@]),
            ..c0
        });
    }
    Ok(VmAction::Continue)
}

/// Randomizes some bytes of a buffer variable (the `Buf8Randomize` instruction).
fn run_b8r(ctxt: &mut Context, x: &DataM, drc: &DataM, dso: &DataM, deo: &DataM, dsv: &DataM, dev: &DataM,
    now: u128, le: bool) -> (r: Result<VmAction, String>)
    ensures
        match r {
            Ok(a) => !op_fails(OpView::Buf8Randomize(dmv(*x), dmv(*drc), dmv(*dso), dmv(*deo), dmv(*dsv), dmv(*dev)),
                    old(ctxt).view(), now, le)
                && op_run(OpView::Buf8Randomize(dmv(*x), dmv(*drc), dmv(*dso), dmv(*deo), dmv(*dsv), dmv(*dev)),
                    old(ctxt).view(), final(ctxt).view(), actv(a), now, le),
            Err(_) => op_fails(OpView::Buf8Randomize(dmv(*x), dmv(*drc), dmv(*dso), dmv(*deo), dmv(*dsv), dmv(*dev)),
                old(ctxt).view(), now, le),
        },
{
    let b = x.get_bufvu8(ctxt, now, le)?;
    let rc = drc.get_isize(ctxt, now, le)?;
    let so = dso.get_isize(ctxt, now, le)?;
    let eo = deo.get_isize(ctxt, now, le)?;
    let sv = dsv.get_isize(ctxt, now, le)?;
    let ev = dev.get_isize(ctxt, now, le)?;
    if !assignable_exec(ctxt, x, false) {
        return Err(String::from_str("Op:Buf8Randomize:Destination can not be set"));
    }
    let ghost b0 = b@;
    let out = buf8_randomize(b, rc, so, eo, sv, ev)?;
    let ghost ov = out@;
    proof {
        lemma_assignable(ctxt.vars(), dmv(*x), VVal::Buf(ov), false);
    }
    let r = x.set_bufvu8(ctxt, out);
    assert(r is Ok);
    assert(b8r_result(b0, rc, so, eo, sv, ev, ov));
    Ok(VmAction::Continue)
}

impl Op {
    /// Runs the instruction on the machine's state, at time stamp `now` and
    /// in the given byte order (see `op_run` and `op_fails`), and says what
    /// the caller is to do.
    pub fn run(&self, ctxt: &mut Context, now: u128, le: bool) -> (r: Result<VmAction, String>)
        ensures
            match r {
                Ok(a) => !op_fails(opv(*self), old(ctxt).view(), now, le)
                    && op_run(opv(*self), old(ctxt).view(), final(ctxt).view(), actv(a), now, le),
                Err(_) => op_fails(opv(*self), old(ctxt).view(), now, le),
            },
    {
        match self {
            Op::FcGet(f, x) => run_fcget(ctxt, f, x, now, le),
            Op::Buf8Randomize(x, a, b, c, d, e) => run_b8r(ctxt, x, a, b, c, d, e, now, le),
            _ => self.run_decided(ctxt, now, le),
        }
    }

    /// Runs an instruction that decides everything it does (see `op_next`).
    fn run_decided(&self, ctxt: &mut Context, now: u128, le: bool) -> (r: Result<VmAction, String>)
        requires
            !(*self is FcGet) && !(*self is Buf8Randomize),
        ensures
            match r {
                Ok(a) => op_next(opv(*self), old(ctxt).view(), now, le) == Some((final(ctxt).view(), actv(a))),
                Err(_) => op_next(opv(*self), old(ctxt).view(), now, le) is None,
            },
    {
        reveal(op_next);
        match self {
            Op::Nop => Ok(VmAction::Continue),
            Op::LetGlobal(t, x, d) => {
                let v = let_value_exec(*t, d, ctxt, now, le)?;
                set_and_go(ctxt, x, v)
            },
            Op::LetLocal(t, x, d) => {
                let v = let_value_exec(*t, d, ctxt, now, le)?;
                x.set_value(ctxt, v, true)?;
                Ok(VmAction::Continue)
            },
            Op::Inc(x) => {
                let i = x.get_isize(ctxt, now, le)?;
                if i == isize::MAX {
                    return Err(String::from_str("Op:Inc:Overflow"));
                }
                set_and_go(ctxt, x, Variant::IntValue(i + 1))
            },
            Op::Dec(x) => {
                let i = x.get_isize(ctxt, now, le)?;
                if i == isize::MIN {
                    return Err(String::from_str("Op:Dec:Overflow"));
                }
                set_and_go(ctxt, x, Variant::IntValue(i - 1))
            },
            Op::Alu(o, x, s1, s2) => {
                let a = s1.get_isize(ctxt, now, le)?;
                let b = s2.get_isize(ctxt, now, le)?;
                match alu_exec(*o, a, b) {
                    Some(v) => set_and_go(ctxt, x, Variant::IntValue(v)),
                    None => Err(String::from_str("Op:Alu:Overflow or division by zero")),
                }
            },
            Op::Logic(o, x, s1, s2) => {
                let a = s1.get_bufvu8(ctxt, now, le)?;
                let b = s2.get_bufvu8(ctxt, now, le)?;
                if a.len() != b.len() {
                    return Err(String::from_str("Op:Logic:Buffers differ in length"));
                }
                let r = bytes_logic_exec(*o, &a, &b);
                set_and_go(ctxt, x, Variant::BufValue(r))
            },
            Op::Not(x, s1) => {
                let a = s1.get_bufvu8(ctxt, now, le)?;
                let r = bytes_not_exec(&a);
                set_and_go(ctxt, x, Variant::BufValue(r))
            },
            Op::GetSize(s1, x) => {
                let a = s1.get_bufvu8(ctxt, now, le)?;
                if a.len() > isize::MAX as usize {
                    return Err(String::from_str("Op:GetSize:Size too large"));
                }
                set_and_go(ctxt, x, Variant::IntValue(a.len() as isize))
            },
            Op::IobNew(i, a, m) => Ok(VmAction::IobNew(i.clone(), a.clone(), m.clone_strings())),
            Op::IobWrite(i, x) => {
                let b = x.get_bufvu8(ctxt, now, le)?;
                Ok(VmAction::IobWrite(i.clone(), b))
            },
            Op::IobFlush(i) => Ok(VmAction::IobFlush(i.clone())),
            Op::IobRead(i, x) => {
                let b = x.get_bufvu8(ctxt, now, le)?;
                Ok(VmAction::IobRead(i.clone(), b.len()))
            },
            Op::IobClose(i) => Ok(VmAction::IobClose(i.clone())),
            Op::If(cop, a, b, dt, dn, args) => {
                let yes = cop.check(ctxt, a, b, now, le)?;
                if !yes {
                    return Ok(VmAction::Continue);
                }
                let t = string_chars(dt);
                if chars_are(t.as_slice(), "goto") || chars_are(t.as_slice(), "jump") {
                    ctxt.jump_to(dn)?;
                    Ok(VmAction::Continue)
                } else if chars_are(t.as_slice(), "call") {
                    ctxt.call(dn, args)?;
                    Ok(VmAction::Continue)
                } else {
                    Err(String::from_str("Op:If:Unknown destination type"))
                }
            },
            Op::CheckJump(a, b, l1, l2, l3) => {
                let x = a.get_isize(ctxt, now, le)?;
                let y = b.get_isize(ctxt, now, le)?;
                let l = if x < y { l1 } else if x == y { l2 } else { l3 };
                ctxt.jump_to(l)?;
                Ok(VmAction::Continue)
            },
            Op::Jump(l) => {
                ctxt.jump_to(l)?;
                Ok(VmAction::Continue)
            },
            Op::Call(f, args) => {
                ctxt.call(f, args)?;
                Ok(VmAction::Continue)
            },
            Op::Ret => {
                ctxt.ret()?;
                Ok(VmAction::Continue)
            },
            Op::SleepMSec(x) => {
                let ms = x.get_usize_checked(ctxt, now, le)?;
                Ok(VmAction::Sleep(ms))
            },
            Op::BufNew(x, n) => {
                let k = n.get_usize_checked(ctxt, now, le)?;
                let z = zeros(k);
                set_and_go(ctxt, x, Variant::BufValue(z))
            },
            Op::BufMerged(t, x, srcs) => {
                let b = merged_exec(*t, srcs, ctxt, now, le)?;
                set_and_go(ctxt, x, Variant::BufValue(b))
            },
            Op::FcGet(_, _) => Err(String::from_str("Op:FcGet:Not decided here")),
            Op::Buf8Randomize(_, _, _, _, _, _) => Err(String::from_str("Op:Buf8Randomize:Not decided here")),
        }
    }
}

} // verus!
