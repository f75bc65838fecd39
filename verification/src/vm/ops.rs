//! The instructions of the virtual machine, and how a line of a script
//! compiles to one.

use vstd::prelude::*;
use crate::strmap::StrMap;
use crate::text::{trim_seq, trim_chars, seq_split_once, chars_split_once, seq_split_all, chars_split_all,
    chars_are, chars_range, str_chars, string_from_chars};
use crate::datautils::{next_token, next_token_chars, ws_words, split_whitespace_chars, tokens_of,
    tokens_chars, seq_splitn, splitn_chars, char_seqs};
use crate::vm::Context;
use crate::vm::datas::val_type;
use crate::vm::datam::{DataM, DMView, dmv, dm_compile, fargs_names, type_char};

verus! {

/// The condition that a conditional instruction checks.
#[derive(Debug, Clone, Copy, PartialEq, Eq, Structural)]
pub enum CondOp {
    IfLtInt,
    IfGtInt,
    IfLeInt,
    IfGeInt,
    IfEqBuf,
    IfNeBuf,
    IfEqStr,
    IfNeStr,
    IfEqInt,
    IfNeInt,
}

/// The arithmetic operation of an `Alu` instruction.
#[derive(Debug, Clone, Copy, PartialEq, Eq, Structural)]
pub enum ALUOP {
    Add,
    Sub,
    Mult,
    Div,
    Mod,
}

/// The bitwise operation of a `Logic` instruction.
#[derive(Debug, Clone, Copy, PartialEq, Eq, Structural)]
pub enum LOGICOP {
    And,
    Or,
    Xor,
}

/// An instruction of the virtual machine.
#[derive(Debug)]
pub enum Op {
    Nop,
    LetGlobal(char, DataM, DataM),
    LetLocal(char, DataM, DataM),
    Inc(DataM),
    Dec(DataM),
    Alu(ALUOP, DataM, DataM, DataM),
    Logic(LOGICOP, DataM, DataM, DataM),
    Not(DataM, DataM),
    GetSize(DataM, DataM),
    IobNew(String, String, StrMap<String>),
    IobWrite(String, DataM),
    IobFlush(String),
    IobRead(String, DataM),
    IobClose(String),
    If(CondOp, DataM, DataM, String, String, Vec<String>),
    CheckJump(DataM, DataM, String, String, String),
    Jump(String),
    Call(String, Vec<String>),
    Ret,
    SleepMSec(DataM),
    FcGet(String, DataM),
    BufNew(DataM, DataM),
    Buf8Randomize(DataM, DataM, DataM, DataM, DataM, DataM),
    BufMerged(char, DataM, Vec<DataM>),
}

/// The abstract view of an instruction.
pub enum OpView {
    Nop,
    LetGlobal(char, DMView, DMView),
    LetLocal(char, DMView, DMView),
    Inc(DMView),
    Dec(DMView),
    Alu(ALUOP, DMView, DMView, DMView),
    Logic(LOGICOP, DMView, DMView, DMView),
    Not(DMView, DMView),
    GetSize(DMView, DMView),
    IobNew(Seq<char>, Seq<char>, Map<Seq<char>, Seq<char>>),
    IobWrite(Seq<char>, DMView),
    IobFlush(Seq<char>),
    IobRead(Seq<char>, DMView),
    IobClose(Seq<char>),
    If(CondOp, DMView, DMView, Seq<char>, Seq<char>, Seq<Seq<char>>),
    CheckJump(DMView, DMView, Seq<char>, Seq<char>, Seq<char>),
    Jump(Seq<char>),
    Call(Seq<char>, Seq<Seq<char>>),
    Ret,
    SleepMSec(DMView),
    FcGet(Seq<char>, DMView),
    BufNew(DMView, DMView),
    Buf8Randomize(DMView, DMView, DMView, DMView, DMView, DMView),
    BufMerged(char, DMView, Seq<DMView>),
}

/// The names of a list of strings.
pub open spec fn strs_view(v: Seq<String>) -> Seq<Seq<char>> {
    v.map_values(|s: String| s@)
}

/// The text values of a map of strings.
pub open spec fn strmap_view(m: Map<Seq<char>, String>) -> Map<Seq<char>, Seq<char>> {
    m.map_values(|s: String| s@)
}

/// The abstract views of a list of operands.
pub open spec fn dms_view(v: Seq<DataM>) -> Seq<DMView> {
    v.map_values(|d: DataM| dmv(d))
}

/// The abstract view of an instruction.
pub open spec fn opv(op: Op) -> OpView {
    match op {
        Op::Nop => OpView::Nop,
        Op::LetGlobal(t, a, b) => OpView::LetGlobal(t, dmv(a), dmv(b)),
        Op::LetLocal(t, a, b) => OpView::LetLocal(t, dmv(a), dmv(b)),
        Op::Inc(a) => OpView::Inc(dmv(a)),
        Op::Dec(a) => OpView::Dec(dmv(a)),
        Op::Alu(o, a, b, c) => OpView::Alu(o, dmv(a), dmv(b), dmv(c)),
        Op::Logic(o, a, b, c) => OpView::Logic(o, dmv(a), dmv(b), dmv(c)),
        Op::Not(a, b) => OpView::Not(dmv(a), dmv(b)),
        Op::GetSize(a, b) => OpView::GetSize(dmv(a), dmv(b)),
        Op::IobNew(i, a, m) => OpView::IobNew(i@, a@, strmap_view(m.view())),
        Op::IobWrite(i, a) => OpView::IobWrite(i@, dmv(a)),
        Op::IobFlush(i) => OpView::IobFlush(i@),
        Op::IobRead(i, a) => OpView::IobRead(i@, dmv(a)),
        Op::IobClose(i) => OpView::IobClose(i@),
        Op::If(c, a, b, t, n, args) => OpView::If(c, dmv(a), dmv(b), t@, n@, strs_view(args@)),
        Op::CheckJump(a, b, l1, l2, l3) => OpView::CheckJump(dmv(a), dmv(b), l1@, l2@, l3@),
        Op::Jump(l) => OpView::Jump(l@),
        Op::Call(f, args) => OpView::Call(f@, strs_view(args@)),
        Op::Ret => OpView::Ret,
        Op::SleepMSec(a) => OpView::SleepMSec(dmv(a)),
        Op::FcGet(f, a) => OpView::FcGet(f@, dmv(a)),
        Op::BufNew(a, b) => OpView::BufNew(dmv(a), dmv(b)),
        Op::Buf8Randomize(a, b, c, d, e, f) => OpView::Buf8Randomize(dmv(a), dmv(b), dmv(c), dmv(d), dmv(e), dmv(f)),
        Op::BufMerged(t, a, v) => OpView::BufMerged(t, dmv(a), dms_view(v@)),
    }
}

/// An instruction line split into its mnemonic (up to the first space) and
/// its trimmed arguments.
pub open spec fn op_split(line: Seq<char>) -> (Seq<char>, Seq<char>) {
    match seq_split_once(line, ' ') {
        Some((a, b)) => (a, trim_seq(b)),
        None => (line, Seq::empty()),
    }
}

/// The kind of data that a `let` instruction stores: the one its mnemonic
/// names after a `.` (`i`, `s` or `b`; `None` for another), or without one,
/// that of a literal source (`?` for any other source, which is decided
/// when it runs).
pub open spec fn op_dtype(sop: Seq<char>, src: DMView) -> Option<char> {
    let tm = match seq_split_once(sop, '.') {
        Some((_, t)) => t,
        None => "?"@,
    };
    if tm == "?"@ {
        Some(match src {
            DMView::Value(v) => type_char(val_type(v)),
            _ => '?',
        })
    } else if tm == "b"@ {
        Some('b')
    } else if tm == "s"@ {
        Some('s')
    } else if tm == "i"@ {
        Some('i')
    } else {
        None
    }
}

/// Two operands separated by the first space.
pub open spec fn compile_pair(fa: Option<Seq<Seq<char>>>, s: Seq<char>) -> Option<(DMView, DMView)> {
    match seq_split_once(s, ' ') {
        Some((a, b)) => match (dm_compile(fa, a), dm_compile(fa, b)) {
            (Some(x), Some(y)) => Some((x, y)),
            _ => None,
        },
        None => None,
    }
}

/// A name and an operand separated by the first space.
pub open spec fn compile_named(fa: Option<Seq<Seq<char>>>, s: Seq<char>) -> Option<(Seq<char>, DMView)> {
    match seq_split_once(s, ' ') {
        Some((a, b)) => match dm_compile(fa, b) {
            Some(y) => Some((a, y)),
            None => None,
        },
        None => None,
    }
}

/// The operands of a list of tokens, each compiled.
pub open spec fn compile_all(fa: Option<Seq<Seq<char>>>, ts: Seq<Seq<char>>) -> Option<Seq<DMView>>
    decreases ts.len(),
{
    if ts.len() == 0 {
        Some(Seq::empty())
    } else {
        match (compile_all(fa, ts.drop_last()), dm_compile(fa, ts.last())) {
            (Some(ds), Some(d)) => Some(ds.push(d)),
            _ => None,
        }
    }
}

/// The `key=value` arguments of a new io bridge, given as the parts between
/// spaces (empty parts are skipped, a later key wins); `None` where a part
/// has no `=`.
pub open spec fn ioargs_of(ps: Seq<Seq<char>>) -> Option<Map<Seq<char>, Seq<char>>>
    decreases ps.len(),
{
    if ps.len() == 0 {
        Some(Map::empty())
    } else {
        match ioargs_of(ps.drop_last()) {
            None => None,
            Some(m) => if ps.last().len() == 0 {
                Some(m)
            } else {
                match seq_split_once(ps.last(), '=') {
                    Some((k, v)) => Some(m.insert(k, v)),
                    None => None,
                }
            },
        }
    }
}

/// The condition that a conditional mnemonic checks, if it is one.
pub open spec fn cond_of(sop: Seq<char>) -> Option<CondOp> {
    if sop == "iflt"@ || sop == "iflt.i"@ {
        Some(CondOp::IfLtInt)
    } else if sop == "ifgt"@ || sop == "ifgt.i"@ {
        Some(CondOp::IfGtInt)
    } else if sop == "ifle"@ || sop == "ifle.i"@ {
        Some(CondOp::IfLeInt)
    } else if sop == "ifge"@ || sop == "ifge.i"@ {
        Some(CondOp::IfGeInt)
    } else if sop == "ifeq"@ || sop == "ifeq.b"@ {
        Some(CondOp::IfEqBuf)
    } else if sop == "ifne"@ || sop == "ifne.b"@ {
        Some(CondOp::IfNeBuf)
    } else if sop == "ifeq.s"@ {
        Some(CondOp::IfEqStr)
    } else if sop == "ifne.s"@ {
        Some(CondOp::IfNeStr)
    } else if sop == "ifeq.i"@ {
        Some(CondOp::IfEqInt)
    } else if sop == "ifne.i"@ {
        Some(CondOp::IfNeInt)
    } else {
        None
    }
}

/// The arithmetic operation of a mnemonic, if it is one.
pub open spec fn alu_of(sop: Seq<char>) -> Option<ALUOP> {
    if sop == "add"@ {
        Some(ALUOP::Add)
    } else if sop == "sub"@ {
        Some(ALUOP::Sub)
    } else if sop == "mult"@ {
        Some(ALUOP::Mult)
    } else if sop == "div"@ {
        Some(ALUOP::Div)
    } else if sop == "mod"@ {
        Some(ALUOP::Mod)
    } else {
        None
    }
}

/// The bitwise operation of a mnemonic, if it is one.
pub open spec fn logic_of(sop: Seq<char>) -> Option<LOGICOP> {
    if sop == "and"@ {
        Some(LOGICOP::And)
    } else if sop == "or"@ {
        Some(LOGICOP::Or)
    } else if sop == "xor"@ {
        Some(LOGICOP::Xor)
    } else {
        None
    }
}

/// Whether a mnemonic is one of the global `let` instructions.
pub open spec fn is_letglobal(sop: Seq<char>) -> bool {
    sop == "letint"@ || sop == "letstr"@ || sop == "letbuf"@ || sop == "letglobal.i"@
        || sop == "letglobal.s"@ || sop == "letglobal.b"@ || sop == "letglobal"@
}

/// Whether a mnemonic is one of the local `let` instructions.
pub open spec fn is_letlocal(sop: Seq<char>) -> bool {
    sop == "letlocal"@ || sop == "letlocal.b"@ || sop == "letlocal.s"@ || sop == "letlocal.i"@
}

/// A global `let`: the variable, the source, and the kind of data stored.
pub open spec fn op_letglobal(fa: Option<Seq<Seq<char>>>, sop: Seq<char>, sargs: Seq<char>) -> Option<OpView> {
    match compile_pair(fa, sargs) {
        Some((v, d)) => {
            if sop == "letint"@ || sop == "letglobal.i"@ {
                Some(OpView::LetGlobal('i', v, d))
            } else if sop == "letstr"@ || sop == "letglobal.s"@ {
                Some(OpView::LetGlobal('s', v, d))
            } else if sop == "letbuf"@ || sop == "letglobal.b"@ {
                Some(OpView::LetGlobal('b', v, d))
            } else {
                match op_dtype(sop, d) {
                    Some(t) => Some(OpView::LetGlobal(t, v, d)),
                    None => None,
                }
            }
        },
        None => None,
    }
}

/// A local `let`: the variable, the source, and the kind of data stored.
pub open spec fn op_letlocal(fa: Option<Seq<Seq<char>>>, sop: Seq<char>, sargs: Seq<char>) -> Option<OpView> {
    match compile_pair(fa, sargs) {
        Some((v, d)) => match op_dtype(sop, d) {
            Some(t) => Some(OpView::LetLocal(t, v, d)),
            None => None,
        },
        None => None,
    }
}

/// An arithmetic instruction: the destination and two sources, the first
/// three words of the arguments.
pub open spec fn op_alu(fa: Option<Seq<Seq<char>>>, o: ALUOP, sargs: Seq<char>) -> Option<OpView> {
    let w = ws_words(sargs);
    if w.len() < 3 {
        None
    } else {
        match (dm_compile(fa, w[0]), dm_compile(fa, w[1]), dm_compile(fa, w[2])) {
            (Some(a), Some(b), Some(c)) => Some(OpView::Alu(o, a, b, c)),
            _ => None,
        }
    }
}

/// A bitwise instruction: the destination and two sources, the first three
/// words of the arguments.
pub open spec fn op_logic(fa: Option<Seq<Seq<char>>>, o: LOGICOP, sargs: Seq<char>) -> Option<OpView> {
    let w = ws_words(sargs);
    if w.len() < 3 {
        None
    } else {
        match (dm_compile(fa, w[0]), dm_compile(fa, w[1]), dm_compile(fa, w[2])) {
            (Some(a), Some(b), Some(c)) => Some(OpView::Logic(o, a, b, c)),
            _ => None,
        }
    }
}

/// A bitwise negation: the destination and the source, the first two words
/// of the arguments.
pub open spec fn op_not(fa: Option<Seq<Seq<char>>>, sargs: Seq<char>) -> Option<OpView> {
    let w = ws_words(sargs);
    if w.len() < 2 {
        None
    } else {
        match (dm_compile(fa, w[0]), dm_compile(fa, w[1])) {
            (Some(a), Some(b)) => Some(OpView::Not(a, b)),
            _ => None,
        }
    }
}

/// A new io bridge: its id, its address, and its arguments.
pub open spec fn op_iobnew(sargs: Seq<char>) -> Option<OpView> {
    let a = seq_splitn(sargs, ' ', 3);
    if a.len() < 2 {
        None
    } else {
        let rest = if a.len() == 3 { a[2] } else { Seq::empty() };
        match ioargs_of(seq_split_all(rest, ' ')) {
            Some(m) => Some(OpView::IobNew(a[0], a[1], m)),
            None => None,
        }
    }
}

/// A name followed by arguments, split at white space (`None` without a name).
pub open spec fn name_args_of(s: Seq<char>) -> Option<(Seq<char>, Seq<Seq<char>>)> {
    let w = ws_words(s);
    if w.len() == 0 { None } else { Some((w[0], w.drop_first())) }
}

/// A conditional jump or call: two operands (tokens, so quoted strings may
/// hold spaces), then `goto label` or `call func args..`.
pub open spec fn op_if(fa: Option<Seq<Seq<char>>>, c: CondOp, sargs: Seq<char>) -> Option<OpView> {
    match next_token(sargs) {
        None => None,
        Some((a0, r0)) => match next_token(r0) {
            None => None,
            Some((a1, r1)) => {
                let p = seq_splitn(r1, ' ', 2);
                if p.len() != 2 {
                    None
                } else {
                    match (dm_compile(fa, a0), dm_compile(fa, a1)) {
                        (Some(x), Some(y)) => {
                            if p[0] == "goto"@ {
                                Some(OpView::If(c, x, y, p[0], p[1], Seq::empty()))
                            } else if p[0] == "call"@ {
                                match name_args_of(p[1]) {
                                    Some((f, args)) => Some(OpView::If(c, x, y, p[0], f, args)),
                                    None => None,
                                }
                            } else {
                                None
                            }
                        },
                        _ => None,
                    }
                }
            },
        },
    }
}

/// A three way jump: two operands and three labels.
pub open spec fn op_checkjump(fa: Option<Seq<Seq<char>>>, sargs: Seq<char>) -> Option<OpView> {
    let p = seq_splitn(sargs, ' ', 5);
    if p.len() != 5 {
        None
    } else {
        match (dm_compile(fa, p[0]), dm_compile(fa, p[1])) {
            (Some(x), Some(y)) => Some(OpView::CheckJump(x, y, p[2], p[3], p[4])),
            _ => None,
        }
    }
}

/// The `k`th part of a list, or a default where the list is shorter.
pub open spec fn part_or(p: Seq<Seq<char>>, k: int, dflt: Seq<char>) -> Seq<char> {
    if k < p.len() { p[k] } else { dflt }
}

/// A buffer randomization: the buffer and up to five integer operands
/// (count, start and end offset, start and end value), which default to
/// `-1`, `-1`, `-1`, `0` and `255`.
pub open spec fn op_b8r(fa: Option<Seq<Seq<char>>>, sargs: Seq<char>) -> Option<OpView> {
    let p = seq_split_all(sargs, ' ');
    if p.len() > 6 {
        None
    } else {
        match (dm_compile(fa, p[0]), dm_compile(fa, part_or(p, 1, "-1"@)), dm_compile(fa, part_or(p, 2, "-1"@)),
            dm_compile(fa, part_or(p, 3, "-1"@)), dm_compile(fa, part_or(p, 4, "0"@)), dm_compile(fa, part_or(p, 5, "255"@))) {
            (Some(a), Some(b), Some(c), Some(d), Some(e), Some(f)) => Some(OpView::Buf8Randomize(a, b, c, d, e, f)),
            _ => None,
        }
    }
}

/// A merged buffer: the destination and the operands (tokens) it is made of;
/// strings are merged for `bufmerged.s`, bytes otherwise.
pub open spec fn op_bufmerged(fa: Option<Seq<Seq<char>>>, sop: Seq<char>, sargs: Seq<char>) -> Option<OpView> {
    match seq_split_once(sargs, ' ') {
        None => None,
        Some((b, srcs)) => match (dm_compile(fa, b), tokens_of(srcs)) {
            (Some(d), Some(ts)) => match compile_all(fa, ts) {
                Some(ds) => {
                    let t = if seq_split_once(sop, '.') matches Some((_, x)) && x == "s"@ { 's' } else { 'b' };
                    Some(OpView::BufMerged(t, d, ds))
                },
                None => None,
            },
            _ => None,
        },
    }
}

/// The instructions on data that a mnemonic may name, compiled from their
/// arguments (`Some(None)` where the arguments are invalid); `None` where
/// the mnemonic is none of them.
pub open spec fn op_compile_data(fa: Option<Seq<Seq<char>>>, sop: Seq<char>, sargs: Seq<char>) -> Option<Option<OpView>> {
    if sop == "nop"@ {
        Some(Some(OpView::Nop))
    } else if is_letglobal(sop) {
        Some(op_letglobal(fa, sop, sargs))
    } else if is_letlocal(sop) {
        Some(op_letlocal(fa, sop, sargs))
    } else if sop == "inc"@ {
        Some(match dm_compile(fa, sargs) {
            Some(d) => Some(OpView::Inc(d)),
            None => None,
        })
    } else if sop == "dec"@ {
        Some(match dm_compile(fa, sargs) {
            Some(d) => Some(OpView::Dec(d)),
            None => None,
        })
    } else if alu_of(sop) is Some {
        Some(op_alu(fa, alu_of(sop).unwrap(), sargs))
    } else if logic_of(sop) is Some {
        Some(op_logic(fa, logic_of(sop).unwrap(), sargs))
    } else if sop == "not"@ {
        Some(op_not(fa, sargs))
    } else if sop == "getsize"@ {
        Some(match compile_pair(fa, sargs) {
            Some((a, b)) => Some(OpView::GetSize(a, b)),
            None => None,
        })
    } else if sop == "fcget"@ {
        Some(match compile_named(fa, sargs) {
            Some((i, d)) => Some(OpView::FcGet(i, d)),
            None => None,
        })
    } else if sop == "bufnew"@ {
        Some(match compile_pair(fa, sargs) {
            Some((a, b)) => Some(OpView::BufNew(a, b)),
            None => None,
        })
    } else if sop == "buf8randomize"@ {
        Some(op_b8r(fa, sargs))
    } else if sop == "bufmerged"@ || sop == "bufmerged.s"@ || sop == "bufmerged.b"@ {
        Some(op_bufmerged(fa, sop, sargs))
    } else {
        None
    }
}

/// The instructions on io bridges and on the flow of control that a
/// mnemonic may name, compiled from their arguments (`Some(None)` where the
/// arguments are invalid); `None` where the mnemonic is none of them.
pub open spec fn op_compile_ctrl(fa: Option<Seq<Seq<char>>>, sop: Seq<char>, sargs: Seq<char>) -> Option<Option<OpView>> {
    if sop == "iobnew"@ {
        Some(op_iobnew(sargs))
    } else if sop == "iobwrite"@ {
        Some(match compile_named(fa, sargs) {
            Some((i, d)) => Some(OpView::IobWrite(i, d)),
            None => None,
        })
    } else if sop == "iobflush"@ {
        Some(Some(OpView::IobFlush(sargs)))
    } else if sop == "iobread"@ {
        Some(match compile_named(fa, sargs) {
            Some((i, d)) => Some(OpView::IobRead(i, d)),
            None => None,
        })
    } else if sop == "iobclose"@ {
        Some(Some(OpView::IobClose(sargs)))
    } else if cond_of(sop) is Some {
        Some(op_if(fa, cond_of(sop).unwrap(), sargs))
    } else if sop == "checkjump"@ {
        Some(op_checkjump(fa, sargs))
    } else if sop == "jump"@ || sop == "goto"@ {
        Some(Some(OpView::Jump(sargs)))
    } else if sop == "call"@ {
        Some(match name_args_of(sargs) {
            Some((f, args)) => Some(OpView::Call(f, args)),
            None => None,
        })
    } else if sop == "ret"@ {
        Some(Some(OpView::Ret))
    } else if sop == "sleepmsec"@ {
        Some(match dm_compile(fa, sargs) {
            Some(d) => Some(OpView::SleepMSec(d)),
            None => None,
        })
    } else {
        None
    }
}

/// The instruction that a mnemonic and its arguments compile to; `None`
/// for an unknown mnemonic or invalid arguments.
pub open spec fn op_compile_parts(fa: Option<Seq<Seq<char>>>, sop: Seq<char>, sargs: Seq<char>) -> Option<OpView> {
    match op_compile_data(fa, sop, sargs) {
        Some(r) => r,
        None => match op_compile_ctrl(fa, sop, sargs) {
            Some(r) => r,
            None => None,
        },
    }
}

/// The instruction that a line of a script (no directive) compiles to,
/// where `fa` holds the argument names of the function being compiled;
/// `None` where the line is invalid.
#[verifier::opaque]
pub open spec fn op_compile(fa: Option<Seq<Seq<char>>>, line: Seq<char>) -> Option<OpView> {
    op_compile_parts(fa, op_split(line).0, op_split(line).1)
}


// ---------------------------------------------------------------------------
// Compiling, executable
// ---------------------------------------------------------------------------

/// Strings of the char vectors of a list, from index `from` on.
pub(crate) fn strings_from(v: &Vec<Vec<char>>, from: usize) -> (r: Vec<String>)
    requires
        from <= v@.len(),
    ensures
        strs_view(r@) == char_seqs(v@).subrange(from as int, v@.len() as int),
{
    let mut out: Vec<String> = Vec::new();
    let mut i = from;
    while i < v.len()
        invariant
            from <= i <= v@.len(),
            strs_view(out@) == char_seqs(v@).subrange(from as int, i as int),
        decreases v.len() - i,
    {
        let x = string_from_chars(v[i].as_slice());
        let ghost old_out = out@;
        out.push(x);
        proof {
            assert(strs_view(out@) =~= strs_view(old_out).push(x@));
            assert(char_seqs(v@).subrange(from as int, i + 1) =~= char_seqs(v@).subrange(from as int, i as int).push(v@[i as int]@));
        }
        i = i + 1;
    }
    out
}

/// Two operands separated by the first space (see `compile_pair`).
fn compile_pair_exec(fa: Option<&Vec<String>>, s: &[char]) -> (r: Result<(DataM, DataM), String>)
    ensures
        match r {
            Ok((x, y)) => compile_pair(fargs_names(fa), s@) == Some((dmv(x), dmv(y))),
            Err(_) => compile_pair(fargs_names(fa), s@) is None,
        },
{
    match chars_split_once(s, ' ') {
        Some((a, b)) => {
            let x = DataM::compile_chars(fa, a.as_slice())?;
            let y = DataM::compile_chars(fa, b.as_slice())?;
            Ok((x, y))
        },
        None => Err(String::from_str("Op:Compile:Missing the second argument")),
    }
}

/// A name and an operand separated by the first space (see `compile_named`).
fn compile_named_exec(fa: Option<&Vec<String>>, s: &[char]) -> (r: Result<(String, DataM), String>)
    ensures
        match r {
            Ok((x, y)) => compile_named(fargs_names(fa), s@) == Some((x@, dmv(y))),
            Err(_) => compile_named(fargs_names(fa), s@) is None,
        },
{
    match chars_split_once(s, ' ') {
        Some((a, b)) => {
            let y = DataM::compile_chars(fa, b.as_slice())?;
            Ok((string_from_chars(a.as_slice()), y))
        },
        None => Err(String::from_str("Op:Compile:Missing the second argument")),
    }
}

proof fn lemma_compile_all_none(fa: Option<Seq<Seq<char>>>, ts: Seq<Seq<char>>, k: int)
    requires
        0 <= k <= ts.len(),
        compile_all(fa, ts.subrange(0, k)) is None,
    ensures
        compile_all(fa, ts) is None,
    decreases ts.len() - k,
{
    if k < ts.len() {
        assert(ts.subrange(0, k + 1).drop_last() =~= ts.subrange(0, k));
        lemma_compile_all_none(fa, ts, k + 1);
    } else {
        assert(ts.subrange(0, k) =~= ts);
    }
}

/// The operands of a list of tokens (see `compile_all`).
fn compile_all_exec(fa: Option<&Vec<String>>, ts: &Vec<Vec<char>>) -> (r: Result<Vec<DataM>, String>)
    ensures
        match r {
            Ok(ds) => compile_all(fargs_names(fa), char_seqs(ts@)) == Some(dms_view(ds@)),
            Err(_) => compile_all(fargs_names(fa), char_seqs(ts@)) is None,
        },
{
    let ghost t = char_seqs(ts@);
    let mut out: Vec<DataM> = Vec::new();
    let mut i: usize = 0;
    assert(t.subrange(0, 0) =~= Seq::<Seq<char>>::empty());
    assert(dms_view(out@) =~= Seq::<DMView>::empty());
    while i < ts.len()
        invariant
            t == char_seqs(ts@),
            i <= ts@.len(),
            compile_all(fargs_names(fa), t.subrange(0, i as int)) == Some(dms_view(out@)),
        decreases ts.len() - i,
    {
        assert(t.subrange(0, i + 1).drop_last() =~= t.subrange(0, i as int));
        assert(t.subrange(0, i + 1).last() == ts@[i as int]@);
        match DataM::compile_chars(fa, ts[i].as_slice()) {
            Ok(d) => {
                let ghost old_out = out@;
                out.push(d);
                assert(dms_view(out@) =~= dms_view(old_out).push(dmv(d)));
            },
            Err(e) => {
                proof {
                    lemma_compile_all_none(fargs_names(fa), t, i + 1);
                }
                return Err(e);
            },
        }
        i = i + 1;
    }
    assert(t.subrange(0, ts@.len() as int) =~= t);
    Ok(out)
}

proof fn lemma_ioargs_none(ps: Seq<Seq<char>>, k: int)
    requires
        0 <= k <= ps.len(),
        ioargs_of(ps.subrange(0, k)) is None,
    ensures
        ioargs_of(ps) is None,
    decreases ps.len() - k,
{
    if k < ps.len() {
        assert(ps.subrange(0, k + 1).drop_last() =~= ps.subrange(0, k));
        lemma_ioargs_none(ps, k + 1);
    } else {
        assert(ps.subrange(0, k) =~= ps);
    }
}

/// The `key=value` arguments of a new io bridge (see `ioargs_of`), from the
/// text that holds them separated by spaces.
fn ioargs_exec(s: &[char]) -> (r: Result<StrMap<String>, String>)
    ensures
        match r {
            Ok(m) => ioargs_of(seq_split_all(s@, ' ')) == Some(strmap_view(m.view())),
            Err(_) => ioargs_of(seq_split_all(s@, ' ')) is None,
        },
{
    let parts = chars_split_all(s, ' ');
    let ghost ps = parts.deep_view();
    let mut m: StrMap<String> = StrMap::new();
    let mut i: usize = 0;
    assert(ps.subrange(0, 0) =~= Seq::<Seq<char>>::empty());
    assert(strmap_view(m.view()) =~= Map::<Seq<char>, Seq<char>>::empty());
    while i < parts.len()
        invariant
            ps == parts.deep_view(),
            ps == seq_split_all(s@, ' '),
            ps.len() == parts@.len(),
            i <= parts@.len(),
            ioargs_of(ps.subrange(0, i as int)) == Some(strmap_view(m.view())),
        decreases parts.len() - i,
    {
        let ghost sub = ps.subrange(0, i + 1);
        assert(sub.drop_last() =~= ps.subrange(0, i as int));
        assert(sub.last() =~= parts@[i as int]@);
        let p = &parts[i];
        if p.len() > 0 {
            match chars_split_once(p.as_slice(), '=') {
                Some((k, v)) => {
                    let ghost old_m = m.view();
                    m.insert(string_from_chars(k.as_slice()), string_from_chars(v.as_slice()));
                    assert(strmap_view(m.view()) =~= strmap_view(old_m).insert(k@, v@));
                },
                None => {
                    proof {
                        assert(sub.last().len() > 0);
                        assert(seq_split_once(sub.last(), '=') is None);
                        assert(ioargs_of(sub) is None);
                        lemma_ioargs_none(ps, i + 1);
                    }
                    return Err(String::from_str("Op:Compile:IobNew:IoArgs:key=value expected"));
                },
            }
        }
        i = i + 1;
    }
    assert(ps.subrange(0, parts@.len() as int) =~= ps);
    Ok(m)
}

impl Op {
    /// A name followed by arguments, split at white space (see `name_args_of`).
    pub fn name_args(ins: &[char]) -> (r: Result<(String, Vec<String>), String>)
        ensures
            match r {
                Ok((n, args)) => name_args_of(ins@) == Some((n@, strs_view(args@))),
                Err(_) => name_args_of(ins@) is None,
            },
    {
        let w = split_whitespace_chars(ins);
        if w.len() == 0 {
            return Err(String::from_str("Op:NameArgs:name missing"));
        }
        assert(char_seqs(w@)[0] == w@[0]@);
        let args = strings_from(&w, 1);
        assert(char_seqs(w@).subrange(1, w@.len() as int) =~= char_seqs(w@).drop_first());
        Ok((string_from_chars(w[0].as_slice()), args))
    }
}

impl Op {
    /// The kind of data that a `let` instruction stores (see `op_dtype`).
    fn opcompile_opdatatype_autoinfer_ifreqd(sop: &[char], src: &DataM) -> (r: Option<char>)
        ensures
            r == op_dtype(sop@, dmv(*src)),
    {
        let tm: Vec<char> = match chars_split_once(sop, '.') {
            Some((_, t)) => t,
            None => str_chars("?"),
        };
        if chars_are(tm.as_slice(), "?") {
            match src {
                DataM::Value(v) => {
                    let c = match v.get_type() {
                        crate::vm::datas::VDataType::Unknown => '?',
                        crate::vm::datas::VDataType::Integer => 'i',
                        crate::vm::datas::VDataType::String => 's',
                        crate::vm::datas::VDataType::Buffer => 'b',
                        crate::vm::datas::VDataType::Special => 'b',
                    };
                    Some(c)
                },
                _ => Some('?'),
            }
        } else if chars_are(tm.as_slice(), "b") {
            Some('b')
        } else if chars_are(tm.as_slice(), "s") {
            Some('s')
        } else if chars_are(tm.as_slice(), "i") {
            Some('i')
        } else {
            None
        }
    }
}

/// A global `let` (see `op_letglobal`).
fn op_letglobal_exec(fa: Option<&Vec<String>>, sop: &[char], sargs: &[char]) -> (r: Result<Op, String>)
    ensures
        match r {
            Ok(op) => op_letglobal(fargs_names(fa), sop@, sargs@) == Some(opv(op)),
            Err(_) => op_letglobal(fargs_names(fa), sop@, sargs@) is None,
        },
{
    let (v, d) = compile_pair_exec(fa, sargs)?;
    if chars_are(sop, "letint") || chars_are(sop, "letglobal.i") {
        Ok(Op::LetGlobal('i', v, d))
    } else if chars_are(sop, "letstr") || chars_are(sop, "letglobal.s") {
        Ok(Op::LetGlobal('s', v, d))
    } else if chars_are(sop, "letbuf") || chars_are(sop, "letglobal.b") {
        Ok(Op::LetGlobal('b', v, d))
    } else {
        match Op::opcompile_opdatatype_autoinfer_ifreqd(sop, &d) {
            Some(t) => Ok(Op::LetGlobal(t, v, d)),
            None => Err(String::from_str("Op:Compile:LetGlobal:Unknown data type")),
        }
    }
}

/// A local `let` (see `op_letlocal`).
fn op_letlocal_exec(fa: Option<&Vec<String>>, sop: &[char], sargs: &[char]) -> (r: Result<Op, String>)
    ensures
        match r {
            Ok(op) => op_letlocal(fargs_names(fa), sop@, sargs@) == Some(opv(op)),
            Err(_) => op_letlocal(fargs_names(fa), sop@, sargs@) is None,
        },
{
    let (v, d) = compile_pair_exec(fa, sargs)?;
    match Op::opcompile_opdatatype_autoinfer_ifreqd(sop, &d) {
        Some(t) => Ok(Op::LetLocal(t, v, d)),
        None => Err(String::from_str("Op:Compile:LetLocal:Unknown data type")),
    }
}

/// An arithmetic instruction (see `op_alu`).
fn op_alu_exec(fa: Option<&Vec<String>>, o: ALUOP, sargs: &[char]) -> (r: Result<Op, String>)
    ensures
        match r {
            Ok(op) => op_alu(fargs_names(fa), o, sargs@) == Some(opv(op)),
            Err(_) => op_alu(fargs_names(fa), o, sargs@) is None,
        },
{
    let w = split_whitespace_chars(sargs);
    if w.len() < 3 {
        return Err(String::from_str("Op:Compile:Alu:Insufficient args"));
    }
    assert(char_seqs(w@)[0] == w@[0]@ && char_seqs(w@)[1] == w@[1]@ && char_seqs(w@)[2] == w@[2]@);
    let a = DataM::compile_chars(fa, w[0].as_slice())?;
    let b = DataM::compile_chars(fa, w[1].as_slice())?;
    let c = DataM::compile_chars(fa, w[2].as_slice())?;
    Ok(Op::Alu(o, a, b, c))
}

/// A bitwise instruction (see `op_logic`).
fn op_logic_exec(fa: Option<&Vec<String>>, o: LOGICOP, sargs: &[char]) -> (r: Result<Op, String>)
    ensures
        match r {
            Ok(op) => op_logic(fargs_names(fa), o, sargs@) == Some(opv(op)),
            Err(_) => op_logic(fargs_names(fa), o, sargs@) is None,
        },
{
    let w = split_whitespace_chars(sargs);
    if w.len() < 3 {
        return Err(String::from_str("Op:Compile:Logic:Insufficient args"));
    }
    assert(char_seqs(w@)[0] == w@[0]@ && char_seqs(w@)[1] == w@[1]@ && char_seqs(w@)[2] == w@[2]@);
    let a = DataM::compile_chars(fa, w[0].as_slice())?;
    let b = DataM::compile_chars(fa, w[1].as_slice())?;
    let c = DataM::compile_chars(fa, w[2].as_slice())?;
    Ok(Op::Logic(o, a, b, c))
}

/// A bitwise negation (see `op_not`).
fn op_not_exec(fa: Option<&Vec<String>>, sargs: &[char]) -> (r: Result<Op, String>)
    ensures
        match r {
            Ok(op) => op_not(fargs_names(fa), sargs@) == Some(opv(op)),
            Err(_) => op_not(fargs_names(fa), sargs@) is None,
        },
{
    let w = split_whitespace_chars(sargs);
    if w.len() < 2 {
        return Err(String::from_str("Op:Compile:Not:Insufficient args"));
    }
    assert(char_seqs(w@)[0] == w@[0]@ && char_seqs(w@)[1] == w@[1]@);
    let a = DataM::compile_chars(fa, w[0].as_slice())?;
    let b = DataM::compile_chars(fa, w[1].as_slice())?;
    Ok(Op::Not(a, b))
}

/// A new io bridge (see `op_iobnew`).
fn op_iobnew_exec(sargs: &[char]) -> (r: Result<Op, String>)
    ensures
        match r {
            Ok(op) => op_iobnew(sargs@) == Some(opv(op)),
            Err(_) => op_iobnew(sargs@) is None,
        },
{
    let a = splitn_chars(sargs, ' ', 3);
    if a.len() < 2 {
        return Err(String::from_str("Op:Compile:IobNew:Insufficient args"));
    }
    assert(char_seqs(a@)[0] == a@[0]@ && char_seqs(a@)[1] == a@[1]@);
    let rest: Vec<char> = if a.len() == 3 {
        assert(char_seqs(a@)[2] == a@[2]@);
        chars_range(a[2].as_slice(), 0, a[2].len())
    } else {
        Vec::new()
    };
    proof {
        if a@.len() == 3 {
            assert(rest@ =~= a@[2]@);
        } else {
            assert(rest@ =~= Seq::<char>::empty());
        }
    }
    let m = ioargs_exec(rest.as_slice())?;
    Ok(Op::IobNew(string_from_chars(a[0].as_slice()), string_from_chars(a[1].as_slice()), m))
}

/// A conditional jump or call (see `op_if`).
fn op_if_exec(fa: Option<&Vec<String>>, c: CondOp, sargs: &[char]) -> (r: Result<Op, String>)
    ensures
        match r {
            Ok(op) => op_if(fargs_names(fa), c, sargs@) == Some(opv(op)),
            Err(_) => op_if(fargs_names(fa), c, sargs@) is None,
        },
{
    let (a0, r0) = match next_token_chars(sargs) {
        Some(p) => p,
        None => {
            return Err(String::from_str("Op:Compile:If:Value1"));
        },
    };
    let (a1, r1) = match next_token_chars(r0.as_slice()) {
        Some(p) => p,
        None => {
            return Err(String::from_str("Op:Compile:If:Value2"));
        },
    };
    let p = splitn_chars(r1.as_slice(), ' ', 2);
    if p.len() != 2 {
        return Err(String::from_str("Op:Compile:If:Insufficient args"));
    }
    assert(char_seqs(p@)[0] == p@[0]@ && char_seqs(p@)[1] == p@[1]@);
    let x = DataM::compile_chars(fa, a0.as_slice())?;
    let y = DataM::compile_chars(fa, a1.as_slice())?;
    if chars_are(p[0].as_slice(), "goto") {
        let dt = string_from_chars(p[0].as_slice());
        let dn = string_from_chars(p[1].as_slice());
        let args: Vec<String> = Vec::new();
        assert(strs_view(args@) =~= Seq::<Seq<char>>::empty());
        Ok(Op::If(c, x, y, dt, dn, args))
    } else if chars_are(p[0].as_slice(), "call") {
        let (dn, args) = Op::name_args(p[1].as_slice())?;
        let dt = string_from_chars(p[0].as_slice());
        Ok(Op::If(c, x, y, dt, dn, args))
    } else {
        Err(String::from_str("Op:Compile:If:Unknown destination type"))
    }
}

/// A three way jump (see `op_checkjump`).
fn op_checkjump_exec(fa: Option<&Vec<String>>, sargs: &[char]) -> (r: Result<Op, String>)
    ensures
        match r {
            Ok(op) => op_checkjump(fargs_names(fa), sargs@) == Some(opv(op)),
            Err(_) => op_checkjump(fargs_names(fa), sargs@) is None,
        },
{
    let p = splitn_chars(sargs, ' ', 5);
    if p.len() != 5 {
        return Err(String::from_str("Op:Compile:CheckJump:Insufficient args"));
    }
    assert(char_seqs(p@)[0] == p@[0]@ && char_seqs(p@)[1] == p@[1]@ && char_seqs(p@)[2] == p@[2]@);
    assert(char_seqs(p@)[3] == p@[3]@ && char_seqs(p@)[4] == p@[4]@);
    let x = DataM::compile_chars(fa, p[0].as_slice())?;
    let y = DataM::compile_chars(fa, p[1].as_slice())?;
    Ok(Op::CheckJump(x, y, string_from_chars(p[2].as_slice()), string_from_chars(p[3].as_slice()),
        string_from_chars(p[4].as_slice())))
}

/// The `k`th part of a list, or a default (see `part_or`).
fn part_or_exec(p: &Vec<Vec<char>>, k: usize, dflt: &str) -> (r: Vec<char>)
    ensures
        r@ == part_or(p.deep_view(), k as int, dflt@),
{
    if k < p.len() {
        assert(p.deep_view()[k as int] =~= p@[k as int]@);
        chars_range(p[k].as_slice(), 0, p[k].len())
    } else {
        str_chars(dflt)
    }
}

/// A buffer randomization (see `op_b8r`).
fn op_b8r_exec(fa: Option<&Vec<String>>, sargs: &[char]) -> (r: Result<Op, String>)
    ensures
        match r {
            Ok(op) => op_b8r(fargs_names(fa), sargs@) == Some(opv(op)),
            Err(_) => op_b8r(fargs_names(fa), sargs@) is None,
        },
{
    let p = chars_split_all(sargs, ' ');
    if p.len() > 6 {
        return Err(String::from_str("Op:Compile:Buf8Randomize:Too many args"));
    }
    let p0 = part_or_exec(&p, 0, "");
    assert(p.deep_view().len() >= 1);
    let p1 = part_or_exec(&p, 1, "-1");
    let p2 = part_or_exec(&p, 2, "-1");
    let p3 = part_or_exec(&p, 3, "-1");
    let p4 = part_or_exec(&p, 4, "0");
    let p5 = part_or_exec(&p, 5, "255");
    let a = DataM::compile_chars(fa, p0.as_slice())?;
    let b = DataM::compile_chars(fa, p1.as_slice())?;
    let c = DataM::compile_chars(fa, p2.as_slice())?;
    let d = DataM::compile_chars(fa, p3.as_slice())?;
    let e = DataM::compile_chars(fa, p4.as_slice())?;
    let f = DataM::compile_chars(fa, p5.as_slice())?;
    Ok(Op::Buf8Randomize(a, b, c, d, e, f))
}

/// A merged buffer (see `op_bufmerged`).
fn op_bufmerged_exec(fa: Option<&Vec<String>>, sop: &[char], sargs: &[char]) -> (r: Result<Op, String>)
    ensures
        match r {
            Ok(op) => op_bufmerged(fargs_names(fa), sop@, sargs@) == Some(opv(op)),
            Err(_) => op_bufmerged(fargs_names(fa), sop@, sargs@) is None,
        },
{
    let (b, srcs) = match chars_split_once(sargs, ' ') {
        Some(p) => p,
        None => {
            return Err(String::from_str("Op:Compile:BufMerged:Extracting dest"));
        },
    };
    let d = DataM::compile_chars(fa, b.as_slice())?;
    let ts = match tokens_chars(srcs.as_slice()) {
        Some(ts) => ts,
        None => {
            return Err(String::from_str("Op:Compile:BufMerged:Extracting data sources"));
        },
    };
    let ds = compile_all_exec(fa, &ts)?;
    let t = match chars_split_once(sop, '.') {
        Some((_, x)) => if chars_are(x.as_slice(), "s") { 's' } else { 'b' },
        None => 'b',
    };
    Ok(Op::BufMerged(t, d, ds))
}


/// The arithmetic operation of a mnemonic (see `alu_of`).
fn alu_of_exec(sop: &[char]) -> (r: Option<ALUOP>)
    ensures
        r == alu_of(sop@),
{
    if chars_are(sop, "add") {
        Some(ALUOP::Add)
    } else if chars_are(sop, "sub") {
        Some(ALUOP::Sub)
    } else if chars_are(sop, "mult") {
        Some(ALUOP::Mult)
    } else if chars_are(sop, "div") {
        Some(ALUOP::Div)
    } else if chars_are(sop, "mod") {
        Some(ALUOP::Mod)
    } else {
        None
    }
}

/// The bitwise operation of a mnemonic (see `logic_of`).
fn logic_of_exec(sop: &[char]) -> (r: Option<LOGICOP>)
    ensures
        r == logic_of(sop@),
{
    if chars_are(sop, "and") {
        Some(LOGICOP::And)
    } else if chars_are(sop, "or") {
        Some(LOGICOP::Or)
    } else if chars_are(sop, "xor") {
        Some(LOGICOP::Xor)
    } else {
        None
    }
}

/// The condition of a conditional mnemonic (see `cond_of`).
fn cond_of_exec(sop: &[char]) -> (r: Option<CondOp>)
    ensures
        r == cond_of(sop@),
{
    if chars_are(sop, "iflt") || chars_are(sop, "iflt.i") {
        Some(CondOp::IfLtInt)
    } else if chars_are(sop, "ifgt") || chars_are(sop, "ifgt.i") {
        Some(CondOp::IfGtInt)
    } else if chars_are(sop, "ifle") || chars_are(sop, "ifle.i") {
        Some(CondOp::IfLeInt)
    } else if chars_are(sop, "ifge") || chars_are(sop, "ifge.i") {
        Some(CondOp::IfGeInt)
    } else if chars_are(sop, "ifeq") || chars_are(sop, "ifeq.b") {
        Some(CondOp::IfEqBuf)
    } else if chars_are(sop, "ifne") || chars_are(sop, "ifne.b") {
        Some(CondOp::IfNeBuf)
    } else if chars_are(sop, "ifeq.s") {
        Some(CondOp::IfEqStr)
    } else if chars_are(sop, "ifne.s") {
        Some(CondOp::IfNeStr)
    } else if chars_are(sop, "ifeq.i") {
        Some(CondOp::IfEqInt)
    } else if chars_are(sop, "ifne.i") {
        Some(CondOp::IfNeInt)
    } else {
        None
    }
}

fn is_letglobal_exec(sop: &[char]) -> (b: bool)
    ensures
        b == is_letglobal(sop@),
{
    chars_are(sop, "letint") || chars_are(sop, "letstr") || chars_are(sop, "letbuf") || chars_are(sop, "letglobal.i")
        || chars_are(sop, "letglobal.s") || chars_are(sop, "letglobal.b") || chars_are(sop, "letglobal")
}

fn is_letlocal_exec(sop: &[char]) -> (b: bool)
    ensures
        b == is_letlocal(sop@),
{
    chars_are(sop, "letlocal") || chars_are(sop, "letlocal.b") || chars_are(sop, "letlocal.s") || chars_are(sop, "letlocal.i")
}

/// The instructions on data (see `op_compile_data`).
fn compile_data_exec(fa: Option<&Vec<String>>, sop: &[char], sargs: &[char]) -> (r: Option<Result<Op, String>>)
    ensures
        match r {
            None => op_compile_data(fargs_names(fa), sop@, sargs@) is None,
            Some(Ok(op)) => op_compile_data(fargs_names(fa), sop@, sargs@) == Some(Some(opv(op))),
            Some(Err(_)) => op_compile_data(fargs_names(fa), sop@, sargs@) == Some(None::<OpView>),
        },
{
    if chars_are(sop, "nop") {
        Some(Ok(Op::Nop))
    } else if is_letglobal_exec(sop) {
        Some(op_letglobal_exec(fa, sop, sargs))
    } else if is_letlocal_exec(sop) {
        Some(op_letlocal_exec(fa, sop, sargs))
    } else if chars_are(sop, "inc") {
        Some(match DataM::compile_chars(fa, sargs) {
            Ok(d) => Ok(Op::Inc(d)),
            Err(e) => Err(e),
        })
    } else if chars_are(sop, "dec") {
        Some(match DataM::compile_chars(fa, sargs) {
            Ok(d) => Ok(Op::Dec(d)),
            Err(e) => Err(e),
        })
    } else if let Some(o) = alu_of_exec(sop) {
        Some(op_alu_exec(fa, o, sargs))
    } else if let Some(o) = logic_of_exec(sop) {
        Some(op_logic_exec(fa, o, sargs))
    } else if chars_are(sop, "not") {
        Some(op_not_exec(fa, sargs))
    } else if chars_are(sop, "getsize") {
        Some(match compile_pair_exec(fa, sargs) {
            Ok((a, b)) => Ok(Op::GetSize(a, b)),
            Err(e) => Err(e),
        })
    } else if chars_are(sop, "fcget") {
        Some(match compile_named_exec(fa, sargs) {
            Ok((i, d)) => Ok(Op::FcGet(i, d)),
            Err(e) => Err(e),
        })
    } else if chars_are(sop, "bufnew") {
        Some(match compile_pair_exec(fa, sargs) {
            Ok((a, b)) => Ok(Op::BufNew(a, b)),
            Err(e) => Err(e),
        })
    } else if chars_are(sop, "buf8randomize") {
        Some(op_b8r_exec(fa, sargs))
    } else if chars_are(sop, "bufmerged") || chars_are(sop, "bufmerged.s") || chars_are(sop, "bufmerged.b") {
        Some(op_bufmerged_exec(fa, sop, sargs))
    } else {
        None
    }
}

/// The instructions on io bridges and on the flow of control (see `op_compile_ctrl`).
fn compile_ctrl_exec(fa: Option<&Vec<String>>, sop: &[char], sargs: &[char]) -> (r: Option<Result<Op, String>>)
    ensures
        match r {
            None => op_compile_ctrl(fargs_names(fa), sop@, sargs@) is None,
            Some(Ok(op)) => op_compile_ctrl(fargs_names(fa), sop@, sargs@) == Some(Some(opv(op))),
            Some(Err(_)) => op_compile_ctrl(fargs_names(fa), sop@, sargs@) == Some(None::<OpView>),
        },
{
    if chars_are(sop, "iobnew") {
        Some(op_iobnew_exec(sargs))
    } else if chars_are(sop, "iobwrite") {
        Some(match compile_named_exec(fa, sargs) {
            Ok((i, d)) => Ok(Op::IobWrite(i, d)),
            Err(e) => Err(e),
        })
    } else if chars_are(sop, "iobflush") {
        Some(Ok(Op::IobFlush(string_from_chars(sargs))))
    } else if chars_are(sop, "iobread") {
        Some(match compile_named_exec(fa, sargs) {
            Ok((i, d)) => Ok(Op::IobRead(i, d)),
            Err(e) => Err(e),
        })
    } else if chars_are(sop, "iobclose") {
        Some(Ok(Op::IobClose(string_from_chars(sargs))))
    } else if let Some(c) = cond_of_exec(sop) {
        Some(op_if_exec(fa, c, sargs))
    } else if chars_are(sop, "checkjump") {
        Some(op_checkjump_exec(fa, sargs))
    } else if chars_are(sop, "jump") || chars_are(sop, "goto") {
        Some(Ok(Op::Jump(string_from_chars(sargs))))
    } else if chars_are(sop, "call") {
        Some(match Op::name_args(sargs) {
            Ok((f, args)) => Ok(Op::Call(f, args)),
            Err(e) => Err(e),
        })
    } else if chars_are(sop, "ret") {
        Some(Ok(Op::Ret))
    } else if chars_are(sop, "sleepmsec") {
        Some(match DataM::compile_chars(fa, sargs) {
            Ok(d) => Ok(Op::SleepMSec(d)),
            Err(e) => Err(e),
        })
    } else {
        None
    }
}

impl Op {
    /// The instruction that a mnemonic and its arguments compile to (see
    /// `op_compile_parts`), where `fa` holds the argument names of the
    /// function being compiled.
    pub fn compile_parts(fa: Option<&Vec<String>>, sop: &[char], sargs: &[char]) -> (r: Result<Op, String>)
        ensures
            match r {
                Ok(op) => op_compile_parts(fargs_names(fa), sop@, sargs@) == Some(opv(op)),
                Err(_) => op_compile_parts(fargs_names(fa), sop@, sargs@) is None,
            },
    {
        match compile_data_exec(fa, sop, sargs) {
            Some(r) => r,
            None => match compile_ctrl_exec(fa, sop, sargs) {
                Some(r) => r,
                None => Err(String::from_str("Op:Compile:UnknownOp")),
            },
        }
    }

    /// Compiles a line of a script (no directive) to an instruction (see
    /// `op_compile`), with the argument names of the function that the
    /// context is compiling; `ret` also ends the compiling of that function.
    pub fn compile(opplus: &str, ctxt: &mut Context) -> (r: Result<Op, String>)
        ensures
            match r {
                Ok(op) => op_compile(old(ctxt).compiling_args(), opplus@) == Some(opv(op)),
                Err(_) => op_compile(old(ctxt).compiling_args(), opplus@) is None,
            },
            op_split(opplus@).0 == "ret"@ ==> !final(ctxt).bcompilingfunc && final(ctxt).compilingfunc@ == Seq::<char>::empty(),
            op_split(opplus@).0 != "ret"@ ==> final(ctxt).bcompilingfunc == old(ctxt).bcompilingfunc
                && final(ctxt).compilingfunc == old(ctxt).compilingfunc,
            final(ctxt).same_run_state(*old(ctxt)),
    {
        reveal(op_compile);
        let line = str_chars(opplus);
        let (sop, sargs) = match chars_split_once(line.as_slice(), ' ') {
            Some((a, b)) => (a, trim_chars(b.as_slice())),
            None => (chars_range(line.as_slice(), 0, line.len()), Vec::new()),
        };
        assert(line@.subrange(0, line@.len() as int) =~= line@);
        assert(op_split(opplus@) == (sop@, sargs@));
        let fa = ctxt.compiling_fargs();
        let r = Op::compile_parts(fa, sop.as_slice(), sargs.as_slice());
        if chars_are(sop.as_slice(), "ret") {
            ctxt.bcompilingfunc = false;
            ctxt.compilingfunc = String::new();
        }
        r
    }
}

} // verus!
