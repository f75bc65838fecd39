//! How a script compiles, line by line, into the instructions, labels and
//! functions of the virtual machine, and how the machine steps through them.

use vstd::prelude::*;
use crate::text::trim_seq;
use crate::datautils::ws_words;
use crate::text::seq_split_once;
use crate::vm::{CtxView, VarsView};
use crate::vm::xopdata::{XOpData, XView};
use crate::vm::ops::{Op, OpView, opv, op_compile, op_split, strs_view, dms_view};
use crate::vm::datam::{DataM, dmv, fargs_names, name_kind_exec};
use crate::vm::datas::{VDataType, vval};
use crate::text::{str_chars, string_chars, string_from_chars, push_chars};
use crate::datautils::fmt_u128;
use crate::vm::datam::{DMView, DataKind, dm_compile, name_kind, type_char};
use crate::vm::datas::{VVal, val_type};
use crate::datautils::dec_digits;
use crate::vm::run::{ActView, op_run, op_fails, op_next};

verus! {

/// What compiling has built so far: the instructions with their line
/// numbers, the labels and functions (where each starts, and its argument
/// names), and the function being compiled, if any.
pub struct CompView {
    pub ops: Seq<OpView>,
    pub lines: Seq<u32>,
    pub lbls: Map<Seq<char>, usize>,
    pub funcs: Map<Seq<char>, (usize, Seq<Seq<char>>)>,
    pub infunc: bool,
    pub curfunc: Seq<char>,
}

/// The argument names of the function being compiled, if any.
pub open spec fn comp_args(cv: CompView) -> Option<Seq<Seq<char>>> {
    if cv.infunc && cv.funcs.dom().contains(cv.curfunc) {
        Some(cv.funcs[cv.curfunc].1)
    } else {
        None
    }
}

/// A directive line (trimmed, starting with `!`): `!label name` marks the
/// next instruction with a label; `!func name args..` starts a function
/// there, with those argument names (which may not be while another
/// function lacks its `ret`); anything else is invalid.
pub open spec fn dir_compile(cv: CompView, line: Seq<char>) -> Option<CompView> {
    match seq_split_once(line, ' ') {
        None => None,
        Some((d, a)) => if d == "!label"@ {
            Some(CompView { lbls: cv.lbls.insert(a, cv.ops.len() as usize), ..cv })
        } else if d == "!func"@ {
            let w = ws_words(a);
            if w.len() == 0 || cv.infunc {
                None
            } else {
                Some(CompView {
                    funcs: cv.funcs.insert(w[0], (cv.ops.len() as usize, w.drop_first())),
                    infunc: true,
                    curfunc: w[0],
                    ..cv
                })
            }
        } else {
            None
        },
    }
}

/// The name of the temporary variable that holds the literal passed as the
/// `k`th argument of a call on line `lineno`.
pub open spec fn tmp_name(lineno: u32, k: nat) -> Seq<char> {
    "__farg_"@ + dec_digits(lineno as nat) + "_"@ + dec_digits(k)
}

/// The instruction that puts a literal into a temporary variable: a local
/// one inside a function, a global one outside.
pub open spec fn tmp_let(fa: Option<Seq<Seq<char>>>, local: bool, t: Seq<char>, v: VVal) -> OpView {
    let x = DMView::Variable(name_kind(fa, t), t);
    if local {
        OpView::LetLocal(type_char(val_type(v)), x, DMView::Value(v))
    } else {
        OpView::LetGlobal(type_char(val_type(v)), x, DMView::Value(v))
    }
}

/// The arguments passed to a call on line `lineno`, with each literal (an
/// argument that denotes a value) put into a temporary variable first: the
/// instructions that do so, and the names passed in place of the arguments.
pub open spec fn lift_args(fa: Option<Seq<Seq<char>>>, args: Seq<Seq<char>>, lineno: u32, local: bool)
    -> (Seq<OpView>, Seq<Seq<char>>)
    decreases args.len(),
{
    if args.len() == 0 {
        (Seq::empty(), Seq::empty())
    } else {
        let (pre, names) = lift_args(fa, args.drop_last(), lineno, local);
        let k = (args.len() - 1) as nat;
        match dm_compile(fa, args.last()) {
            Some(DMView::Value(v)) => (pre.push(tmp_let(fa, local, tmp_name(lineno, k), v)), names.push(tmp_name(lineno, k))),
            _ => (pre, names.push(args.last())),
        }
    }
}

/// An instruction, with the literals that it passes to a function put into
/// temporary variables by instructions that run before it.
pub open spec fn lift_op(fa: Option<Seq<Seq<char>>>, op: OpView, lineno: u32, local: bool) -> (Seq<OpView>, OpView) {
    match op {
        OpView::Call(f, args) => {
            let (pre, n) = lift_args(fa, args, lineno, local);
            (pre, OpView::Call(f, n))
        },
        OpView::If(c, a, b, dt, dn, args) => {
            let (pre, n) = lift_args(fa, args, lineno, local);
            (pre, OpView::If(c, a, b, dt, dn, n))
        },
        _ => (Seq::empty(), op),
    }
}

/// One line of a script, with its line number: blank lines and lines
/// starting with `#` are skipped; a line starting with `!` is a directive;
/// any other line is an instruction (a `ret` ends the function being
/// compiled), after the instructions that put the literals it passes to a
/// function into temporary variables.
#[verifier::opaque]
pub open spec fn line_compile(cv: CompView, line: Seq<char>, lineno: u32) -> Option<CompView> {
    let t = trim_seq(line);
    if t.len() == 0 || t[0] == '#' {
        Some(cv)
    } else if t[0] == '!' {
        dir_compile(cv, t)
    } else {
        match op_compile(comp_args(cv), t) {
            Some(op) => {
                let isret = op_split(t).0 == "ret"@;
                let cv2 = CompView {
                    infunc: if isret { false } else { cv.infunc },
                    curfunc: if isret { Seq::empty() } else { cv.curfunc },
                    ..cv
                };
                let (pre, op2) = lift_op(comp_args(cv2), op, lineno, cv2.infunc);
                Some(CompView {
                    ops: cv.ops + pre.push(op2),
                    lines: cv.lines + Seq::new(pre.len() + 1, |i: int| lineno),
                    ..cv2
                })
            },
            None => None,
        }
    }
}

/// The lines of a script compiled one after another, numbered from 1.
pub open spec fn prg_compile(cv: CompView, lines: Seq<Seq<char>>) -> Option<CompView>
    decreases lines.len(),
{
    if lines.len() == 0 {
        Some(cv)
    } else {
        match prg_compile(cv, lines.drop_last()) {
            Some(c2) => if lines.len() > u32::MAX {
                None
            } else {
                line_compile(c2, lines.last(), lines.len() as u32)
            },
            None => None,
        }
    }
}

/// The state after an instruction that did not jump: the next instruction
/// follows.
pub open spec fn advance(d: CtxView) -> CtxView {
    if d.jumped { d } else { CtxView { iptr: (d.iptr + 1) as usize, ..d } }
}

/// The state in which an instruction starts: it has not jumped yet.
pub open spec fn fresh(c: CtxView) -> CtxView {
    CtxView { jumped: false, ..c }
}

/// Whether a step of the machine over the instructions `ops`, from `c`, may
/// give the state `d` and the action `a` (the program ends once the
/// instruction pointer is past the last instruction).
pub open spec fn step_ok(ops: Seq<OpView>, c: CtxView, d: CtxView, a: ActView, now: u128, le: bool) -> bool {
    if c.iptr >= ops.len() {
        d == c && a == ActView::Halt
    } else {
        !op_fails(ops[c.iptr as int], fresh(c), now, le)
            && exists|m: CtxView| #[trigger] op_run(ops[c.iptr as int], fresh(c), m, a, now, le) && d == advance(m)
    }
}

/// Whether a step of the machine over the instructions `ops`, from `c`, fails.
pub open spec fn step_fails(ops: Seq<OpView>, c: CtxView, now: u128, le: bool) -> bool {
    c.iptr < ops.len() && op_fails(ops[c.iptr as int], fresh(c), now, le)
}

/// What an instruction may do to the instruction pointer and the return
/// addresses: unless it jumped, the pointer stays or returns to the last
/// return address; the return addresses stay, get the pointer pushed, or
/// lose the last one.
/// What an instruction may do to the instruction pointer and the return
/// addresses: unless it jumped, the pointer stays or returns to the last
/// return address; the return addresses stay, get the pointer pushed, or
/// lose the last one. Only `IobRead` asks for a read.
pub proof fn lemma_op_run_frame(op: OpView, c: CtxView, m: CtxView, a: ActView, now: u128, le: bool)
    requires
        !c.jumped,
        !op_fails(op, c, now, le),
        op_run(op, c, m, a, now, le),
    ensures
        m.jumped || m.iptr == c.iptr || (c.callret.len() > 0 && m.iptr == c.callret.last()),
        m.callret == c.callret || m.callret == c.callret.push(c.iptr)
            || (c.callret.len() > 0 && m.callret == c.callret.drop_last()),
        a is IobRead ==> op is IobRead,
        !(a is Halt),
        m.lbls == c.lbls && m.funcs == c.funcs && m.infunc == c.infunc && m.curfunc == c.curfunc,
{
    match op {
        OpView::FcGet(_, _) => {},
        OpView::Buf8Randomize(_, _, _, _, _, _) => {},
        OpView::If(cop, x, y, dt, dn, args) => {
            reveal(op_next);
        },
        OpView::CheckJump(x, y, l1, l2, l3) => {
            reveal(op_next);
        },
        OpView::Jump(l) => {
            reveal(op_next);
        },
        OpView::Call(f, args) => {
            reveal(op_next);
        },
        OpView::Ret => {
            reveal(op_next);
        },
        _ => {
            lemma_op_next_plain(op, c, m, a, now, le);
        },
    }
}

/// An instruction that does not jump leaves the instruction pointer and
/// the return addresses alone.
proof fn lemma_op_next_plain(op: OpView, c: CtxView, m: CtxView, a: ActView, now: u128, le: bool)
    requires
        op_next(op, c, now, le) == Some((m, a)),
        !(op is If || op is CheckJump || op is Jump || op is Call || op is Ret),
    ensures
        m.iptr == c.iptr,
        m.jumped == c.jumped,
        m.callret == c.callret,
        a is IobRead ==> op is IobRead,
        !(a is Halt),
        m.lbls == c.lbls && m.funcs == c.funcs && m.infunc == c.infunc && m.curfunc == c.curfunc,
{
    reveal(op_next);
}

/// Whether a step of the machine over the instructions `ops`, from `c`, may
/// give the state `d` and the result `r` (see `step_ok` and `step_fails`).
pub open spec fn step_result(ops: Seq<OpView>, c: CtxView, d: CtxView, r: Result<crate::vm::run::VmAction, String>, now: u128,
    le: bool) -> bool {
    match r {
        Ok(a) => step_ok(ops, c, d, crate::vm::run::actv(a), now, le),
        Err(_) => step_fails(ops, c, now, le),
    }
}

/// The name of a temporary variable (see `tmp_name`).
fn tmp_name_exec(lineno: u32, k: usize) -> (r: String)
    ensures
        r@ == tmp_name(lineno, k as nat),
{
    let mut v: Vec<char> = str_chars("__farg_");
    let l = fmt_u128(lineno as u128);
    push_chars(&mut v, l.as_slice());
    push_chars(&mut v, ['_'].as_slice());
    let kc = fmt_u128(k as u128);
    push_chars(&mut v, kc.as_slice());
    proof {
        assert(['_']@ =~= "_"@) by {
            reveal_strlit("_");
        }
        assert(v@ =~= tmp_name(lineno, k as nat));
    }
    string_from_chars(v.as_slice())
}

/// The instructions of a list of instructions with line numbers.
pub open spec fn pairs_ops(v: Seq<(Op, u32)>) -> Seq<OpView> {
    v.map_values(|p: (Op, u32)| opv(p.0))
}

/// The line numbers of a list of instructions with line numbers.
pub open spec fn pairs_lines(v: Seq<(Op, u32)>) -> Seq<u32> {
    v.map_values(|p: (Op, u32)| p.1)
}

/// The arguments passed to a call, with the literals put into temporary
/// variables (see `lift_args`): the instructions that do so are added to
/// `out`, and the names to pass are returned.
fn lift_args_exec(fa: Option<&Vec<String>>, args: &Vec<String>, lineno: u32, local: bool, out: &mut Vec<(Op, u32)>)
    -> (names: Vec<String>)
    ensures
        pairs_ops(final(out)@) == pairs_ops(old(out)@) + lift_args(fargs_names(fa), strs_view(args@), lineno, local).0,
        pairs_lines(final(out)@) == pairs_lines(old(out)@)
            + Seq::new(lift_args(fargs_names(fa), strs_view(args@), lineno, local).0.len(), |j: int| lineno),
        strs_view(names@) == lift_args(fargs_names(fa), strs_view(args@), lineno, local).1,
        final(out)@.len() >= old(out)@.len(),
        forall|k: int| 0 <= k < old(out)@.len() ==> final(out)@[k] == old(out)@[k],
{
    let ghost av = strs_view(args@);
    let ghost o0 = out@;
    let mut names: Vec<String> = Vec::new();
    let mut i: usize = 0;
    assert(av.subrange(0, 0) =~= Seq::<Seq<char>>::empty());
    assert(pairs_ops(out@) =~= pairs_ops(o0) + Seq::<OpView>::empty());
    assert(pairs_lines(out@) =~= pairs_lines(o0) + Seq::new(0, |j: int| lineno));
    assert(strs_view(names@) =~= Seq::<Seq<char>>::empty());
    while i < args.len()
        invariant
            av == strs_view(args@),
            i <= args@.len(),
            pairs_ops(out@) == pairs_ops(o0) + lift_args(fargs_names(fa), av.subrange(0, i as int), lineno, local).0,
            pairs_lines(out@) == pairs_lines(o0)
                + Seq::new(lift_args(fargs_names(fa), av.subrange(0, i as int), lineno, local).0.len(), |j: int| lineno),
            strs_view(names@) == lift_args(fargs_names(fa), av.subrange(0, i as int), lineno, local).1,
            out@.len() >= o0.len(),
            forall|k: int| 0 <= k < o0.len() ==> out@[k] == o0[k],
        decreases args.len() - i,
    {
        let ghost sub = av.subrange(0, i + 1);
        assert(sub.drop_last() =~= av.subrange(0, i as int));
        assert(sub.last() == args@[i as int]@);
        let ghost prev = lift_args(fargs_names(fa), av.subrange(0, i as int), lineno, local);
        let ghost old_out = out@;
        let ghost old_names = names@;
        let ac = string_chars(&args[i]);
        match DataM::compile_chars(fa, ac.as_slice()) {
            Ok(DataM::Value(v)) => {
                let t = tmp_name_exec(lineno, i);
                let k = name_kind_exec(fa, string_chars(&t).as_slice());
                let tc = match v.get_type() {
                    VDataType::Unknown => '?',
                    VDataType::Integer => 'i',
                    VDataType::String => 's',
                    VDataType::Buffer => 'b',
                    VDataType::Special => 'b',
                };
                let x = DataM::Variable(k, t.clone());
                let ghost vv = vval(v);
                let op = if local { Op::LetLocal(tc, x, DataM::Value(v)) } else { Op::LetGlobal(tc, x, DataM::Value(v)) };
                let ghost opview = opv(op);
                assert(opview == tmp_let(fargs_names(fa), local, tmp_name(lineno, i as nat), vv));
                out.push((op, lineno));
                names.push(t);
                assert(pairs_ops(out@) =~= pairs_ops(old_out).push(opview));
                assert(pairs_ops(o0) + prev.0.push(opview) =~= (pairs_ops(o0) + prev.0).push(opview));
                assert(pairs_lines(out@) =~= pairs_lines(old_out).push(lineno));
                assert(pairs_lines(o0) + Seq::new(prev.0.len() + 1, |j: int| lineno)
                    =~= (pairs_lines(o0) + Seq::new(prev.0.len(), |j: int| lineno)).push(lineno));
                assert(strs_view(names@) =~= strs_view(old_names).push(tmp_name(lineno, i as nat)));
            },
            _ => {
                names.push(args[i].clone());
                assert(strs_view(names@) =~= strs_view(old_names).push(args@[i as int]@));
            },
        }
        i = i + 1;
    }
    assert(av.subrange(0, args@.len() as int) =~= av);
    names
}

/// An instruction, with the literals that it passes to a function put into
/// temporary variables (see `lift_op`): the instructions that do so are
/// added to `out`, and the instruction to run after them is returned.
pub(crate) fn lift_op_exec(fa: Option<&Vec<String>>, op: Op, lineno: u32, local: bool, out: &mut Vec<(Op, u32)>) -> (r: Op)
    ensures
        pairs_ops(final(out)@) == pairs_ops(old(out)@) + lift_op(fargs_names(fa), opv(op), lineno, local).0,
        pairs_lines(final(out)@) == pairs_lines(old(out)@)
            + Seq::new(lift_op(fargs_names(fa), opv(op), lineno, local).0.len(), |j: int| lineno),
        opv(r) == lift_op(fargs_names(fa), opv(op), lineno, local).1,
        final(out)@.len() >= old(out)@.len(),
        forall|k: int| 0 <= k < old(out)@.len() ==> final(out)@[k] == old(out)@[k],
{
    match op {
        Op::Call(f, args) => {
            let n = lift_args_exec(fa, &args, lineno, local, out);
            Op::Call(f, n)
        },
        Op::If(c, a, b, dt, dn, args) => {
            let n = lift_args_exec(fa, &args, lineno, local, out);
            Op::If(c, a, b, dt, dn, n)
        },
        other => {
            assert(pairs_ops(out@) =~= pairs_ops(out@) + Seq::<OpView>::empty());
            assert(pairs_lines(out@) =~= pairs_lines(out@) + Seq::new(0, |j: int| lineno));
            other
        },
    }
}

/// The state with other random bytes drawn for the next instruction.
pub open spec fn with_rnd(c: CtxView, r: Seq<u8>) -> CtxView {
    CtxView { vars: VarsView { rnd: r, ..c.vars }, ..c }
}

/// The larger of two numbers.
pub open spec fn max_nat(a: nat, b: nat) -> nat {
    if a > b { a } else { b }
}

/// How many random bytes an operand reads (the most that one of its
/// `__RANDOM__BYTES__` parts asks for).
pub open spec fn dm_need(d: DMView) -> nat
    decreases d,
{
    match d {
        DMView::Random(n) => n as nat,
        DMView::XOp(x) => match x {
            XView::Str(a) => dm_need(*a),
            XView::StrHex(a) => dm_need(*a),
            XView::StrTrim(a) => dm_need(*a),
            XView::ByteEle(a, b) => max_nat(dm_need(*a), dm_need(*b)),
            XView::ArrayEle(a, b) => max_nat(dm_need(*a), dm_need(*b)),
        },
        _ => 0,
    }
}

/// How many random bytes a list of operands reads.
pub open spec fn dms_need(ds: Seq<DMView>) -> nat
    decreases ds.len(),
{
    if ds.len() == 0 { 0 } else { max_nat(dms_need(ds.drop_last()), dm_need(ds.last())) }
}

/// How many random bytes an instruction reads.
pub open spec fn op_need(op: OpView) -> nat {
    match op {
        OpView::LetGlobal(_, x, d) => dms_need(seq![x, d]),
        OpView::LetLocal(_, x, d) => dms_need(seq![x, d]),
        OpView::Inc(x) => dm_need(x),
        OpView::Dec(x) => dm_need(x),
        OpView::Alu(_, a, b, c) => dms_need(seq![a, b, c]),
        OpView::Logic(_, a, b, c) => dms_need(seq![a, b, c]),
        OpView::Not(a, b) => dms_need(seq![a, b]),
        OpView::GetSize(a, b) => dms_need(seq![a, b]),
        OpView::IobWrite(_, x) => dm_need(x),
        OpView::IobRead(_, x) => dm_need(x),
        OpView::If(_, a, b, _, _, _) => dms_need(seq![a, b]),
        OpView::CheckJump(a, b, _, _, _) => dms_need(seq![a, b]),
        OpView::SleepMSec(x) => dm_need(x),
        OpView::FcGet(_, x) => dm_need(x),
        OpView::BufNew(a, b) => dms_need(seq![a, b]),
        OpView::Buf8Randomize(a, b, c, d, e, f) => dms_need(seq![a, b, c, d, e, f]),
        OpView::BufMerged(_, x, srcs) => max_nat(dm_need(x), dms_need(srcs)),
        _ => 0,
    }
}

/// How many random bytes an operand reads (see `dm_need`).
pub fn dm_rand_need(d: &DataM) -> (r: usize)
    ensures
        r as nat == dm_need(dmv(*d)),
    decreases d,
{
    match d {
        DataM::Random(n) => *n,
        DataM::XOp(x) => match x {
            XOpData::Str(a) => dm_rand_need(a),
            XOpData::StrHex(a) => dm_rand_need(a),
            XOpData::StrTrim(a) => dm_rand_need(a),
            XOpData::ByteEle(a, b) => {
                let p = dm_rand_need(a);
                let q = dm_rand_need(b);
                if p > q { p } else { q }
            },
            XOpData::ArrayEle(a, b) => {
                let p = dm_rand_need(a);
                let q = dm_rand_need(b);
                if p > q { p } else { q }
            },
        },
        _ => 0,
    }
}

/// How many random bytes a list of operands reads, given as pairs.
fn need2(a: &DataM, b: &DataM) -> (r: usize)
    ensures
        r as nat == dms_need(seq![dmv(*a), dmv(*b)]),
{
    let p = dm_rand_need(a);
    let q = dm_rand_need(b);
    proof {
        reveal_with_fuel(dms_need, 3);
    }
    assert(seq![dmv(*a), dmv(*b)].drop_last() =~= seq![dmv(*a)]);
    assert(seq![dmv(*a)].drop_last() =~= Seq::<DMView>::empty());
    if p > q { p } else { q }
}

/// How many random bytes a list of operands reads (see `dms_need`).
fn dms_rand_need(ds: &Vec<DataM>) -> (r: usize)
    ensures
        r as nat == dms_need(dms_view(ds@)),
{
    let ghost v = dms_view(ds@);
    let mut m: usize = 0;
    let mut i: usize = 0;
    assert(v.subrange(0, 0) =~= Seq::<DMView>::empty());
    while i < ds.len()
        invariant
            v == dms_view(ds@),
            i <= ds@.len(),
            m as nat == dms_need(v.subrange(0, i as int)),
        decreases ds.len() - i,
    {
        assert(v.subrange(0, i + 1).drop_last() =~= v.subrange(0, i as int));
        let q = dm_rand_need(&ds[i]);
        if q > m {
            m = q;
        }
        i = i + 1;
    }
    assert(v.subrange(0, ds@.len() as int) =~= v);
    m
}

impl Op {
    /// How many random bytes the instruction reads (see `op_need`).
    pub fn rand_need(&self) -> (r: usize)
        ensures
            r as nat == op_need(opv(*self)),
    {
        proof {
            reveal_with_fuel(dms_need, 7);
        }
        match self {
            Op::LetGlobal(_, x, d) => need2(x, d),
            Op::LetLocal(_, x, d) => need2(x, d),
            Op::Inc(x) => dm_rand_need(x),
            Op::Dec(x) => dm_rand_need(x),
            Op::Alu(_, a, b, c) => {
                let p = need2(a, b);
                let q = dm_rand_need(c);
                assert(seq![dmv(*a), dmv(*b), dmv(*c)].drop_last() =~= seq![dmv(*a), dmv(*b)]);
                if p > q { p } else { q }
            },
            Op::Logic(_, a, b, c) => {
                let p = need2(a, b);
                let q = dm_rand_need(c);
                assert(seq![dmv(*a), dmv(*b), dmv(*c)].drop_last() =~= seq![dmv(*a), dmv(*b)]);
                if p > q { p } else { q }
            },
            Op::Not(a, b) => need2(a, b),
            Op::GetSize(a, b) => need2(a, b),
            Op::IobWrite(_, x) => dm_rand_need(x),
            Op::IobRead(_, x) => dm_rand_need(x),
            Op::If(_, a, b, _, _, _) => need2(a, b),
            Op::CheckJump(a, b, _, _, _) => need2(a, b),
            Op::SleepMSec(x) => dm_rand_need(x),
            Op::FcGet(_, x) => dm_rand_need(x),
            Op::BufNew(a, b) => need2(a, b),
            Op::Buf8Randomize(a, b, c, d, e, f) => {
                let ghost s6 = seq![dmv(*a), dmv(*b), dmv(*c), dmv(*d), dmv(*e), dmv(*f)];
                let p2 = need2(a, b);
                let q3 = dm_rand_need(c);
                let p3 = if p2 > q3 { p2 } else { q3 };
                let q4 = dm_rand_need(d);
                let p4 = if p3 > q4 { p3 } else { q4 };
                let q5 = dm_rand_need(e);
                let p5 = if p4 > q5 { p4 } else { q5 };
                let q6 = dm_rand_need(f);
                let p6 = if p5 > q6 { p5 } else { q6 };
                assert(s6.drop_last() =~= seq![dmv(*a), dmv(*b), dmv(*c), dmv(*d), dmv(*e)]);
                assert(s6.drop_last().drop_last() =~= seq![dmv(*a), dmv(*b), dmv(*c), dmv(*d)]);
                assert(s6.drop_last().drop_last().drop_last() =~= seq![dmv(*a), dmv(*b), dmv(*c)]);
                assert(s6.drop_last().drop_last().drop_last().drop_last() =~= seq![dmv(*a), dmv(*b)]);
                p6
            },
            Op::BufMerged(_, x, srcs) => {
                let p = dm_rand_need(x);
                let q = dms_rand_need(srcs);
                if p > q { p } else { q }
            },
            _ => 0,
        }
    }
}

} // verus!
