//! A virtual machine that runs small assembly like scripts, which drive the
//! fuzz chains and the io bridges.

use vstd::prelude::*;

pub mod datas;
pub mod datam;
pub mod xopdata;
pub mod ops;
pub mod run;
pub mod prg;

use crate::strmap::StrMap;
use crate::rtm::RunTimeManager;
use crate::rng::random_u8;
use crate::{FuzzChain};
use crate::fuzz::Fuzzer;
use crate::vm::datas::{Variant, VVal, vval};
use crate::vm::datam::{DataKind, names_view, fargs_names};
use crate::vm::run::{jump_target, farg_base, fargs_map, call_target, ret_target};
use crate::text::{chars_are, string_chars, seq_split_all, chars_split_all, chars_split_once, str_chars,
    string_from_chars, trim_chars, push_chars};
use crate::cfgfiles::lines_of;
use crate::rtm::{RtmView, cfg_loaded};
use crate::datautils::{split_whitespace_chars, char_seqs, remove_extra_whitespaces_chars, fmt_u128};
use crate::vm::ops::strings_from;
use crate::vm::prg::{with_rnd, op_need, lift_op, lift_op_exec, pairs_ops, pairs_lines, step_result, dir_compile, line_compile, prg_compile, comp_args, step_ok, step_fails, advance, fresh,
    lemma_op_run_frame};
use crate::vm::run::{VmAction, actv};
use crate::vm::datas::{now_millis, native_little_endian};
use crate::vm::datam::assign;
use crate::datautils::{ws_fold, dec_digits};
use crate::vm::ops::{Op, OpView, opv, op_split};
use crate::vm::prg::CompView;

verus! {

/// A function of the script: where its code starts and the names of its arguments.
pub struct FuncInfo {
    pub fptr: usize,
    pub args: Vec<String>,
}

/// What a function argument stands for: a global variable (location -1) or
/// a local variable of the function at that depth of the call stack, and
/// the variable's name.
pub struct FArg {
    pub loc: isize,
    pub name: String,
}

/// The variables that the script sees (and the random bytes drawn for the
/// instruction that runs): the globals, the locals of each
/// function call (innermost last), and the mapping of each call's function
/// arguments to the variables they stand for.
pub struct VarsView {
    pub globals: Map<Seq<char>, VVal>,
    pub locals: Seq<Map<Seq<char>, VVal>>,
    pub fargs: Seq<Map<Seq<char>, (isize, Seq<char>)>>,
    pub rnd: Seq<u8>,
}

/// The value of a key in a map, if any.
pub open spec fn map_get<K, V>(m: Map<K, V>, k: K) -> Option<V> {
    if m.dom().contains(k) { Some(m[k]) } else { None }
}

/// The abstract values of a map of variants.
pub open spec fn vals_view(m: Map<Seq<char>, Variant>) -> Map<Seq<char>, VVal> {
    m.map_values(|v: Variant| vval(v))
}

/// The abstract view of a function argument map.
pub open spec fn fargs_view(m: Map<Seq<char>, FArg>) -> Map<Seq<char>, (isize, Seq<char>)> {
    m.map_values(|a: FArg| (a.loc, a.name@))
}

/// Where a variable name leads (what `var_farg2real_ifreqd` gives): a
/// function argument to the location and name of the variable it stands for
/// (`None` outside a call or for an unknown argument); any other name to
/// location -2 (not an argument) and itself.
pub open spec fn farg2real(c: VarsView, kind: DataKind, name: Seq<char>) -> Option<(isize, Seq<char>)> {
    match kind {
        DataKind::FuncArg => if c.fargs.len() == 0 { None } else { map_get(c.fargs.last(), name) },
        DataKind::Variable => Some((-2isize, name)),
    }
}

/// The value of a variable (what `var_get` gives): through a function
/// argument to the variable it stands for; a plain name is looked up in the
/// innermost call's locals, then in the globals.
pub open spec fn var_lookup(c: VarsView, kind: DataKind, name: Seq<char>) -> Option<VVal> {
    match farg2real(c, kind, name) {
        None => None,
        Some((idx, rn)) => {
            let first = if idx == -2 {
                if c.locals.len() > 0 { map_get(c.locals.last(), rn) } else { None }
            } else if idx == -1 {
                map_get(c.globals, rn)
            } else if 0 <= idx < c.locals.len() {
                map_get(c.locals[idx as int], rn)
            } else {
                None
            };
            match first {
                Some(v) => Some(v),
                None => if idx == -2 { map_get(c.globals, rn) } else { None },
            }
        },
    }
}

/// The variables after setting one (what `var_set` does): a function
/// argument can not be set; a name that the innermost call has as a local,
/// or any name when `force_local`, is set there; else the global is set (a
/// local can not be forced outside a call).
pub open spec fn var_assign(c: VarsView, kind: DataKind, name: Seq<char>, v: VVal, force_local: bool) -> Option<VarsView> {
    if kind == DataKind::FuncArg {
        None
    } else if c.locals.len() > 0 && (c.locals.last().dom().contains(name) || force_local) {
        Some(VarsView { locals: c.locals.update(c.locals.len() - 1, c.locals.last().insert(name, v)), ..c })
    } else if force_local {
        None
    } else {
        Some(VarsView { globals: c.globals.insert(name, v), ..c })
    }
}

/// A variable that was set reads back the value it was set to, and
/// setting one variable leaves what every other name reads as it was.
pub proof fn law_var_set_get(c: VarsView, name: Seq<char>, v: VVal, force_local: bool, other: Seq<char>)
    requires
        var_assign(c, DataKind::Variable, name, v, force_local) is Some,
        other != name,
    ensures
        var_lookup(var_assign(c, DataKind::Variable, name, v, force_local).unwrap(), DataKind::Variable, name) == Some(v),
        var_lookup(var_assign(c, DataKind::Variable, name, v, force_local).unwrap(), DataKind::Variable, other)
            == var_lookup(c, DataKind::Variable, other),
{
}

/// The abstract state of the virtual machine while it runs: the variables,
/// the instruction pointer, whether the last instruction set it (so it is not
/// to be advanced), the return addresses of the calls, the labels, the
/// functions (where each starts and its argument names), the fuzz step,
/// the fuzz chains and fuzzers by name, and the function being compiled.
pub struct CtxView {
    pub vars: VarsView,
    pub iptr: usize,
    pub jumped: bool,
    pub callret: Seq<usize>,
    pub lbls: Map<Seq<char>, usize>,
    pub funcs: Map<Seq<char>, (usize, Seq<Seq<char>>)>,
    pub stepu: usize,
    pub chains: Map<Seq<char>, FuzzChain>,
    pub fuzzers: Map<Seq<char>, Fuzzer>,
    pub infunc: bool,
    pub curfunc: Seq<char>,
}

impl CtxView {
    /// The same state with other variables.
    pub open spec fn with_vars(self, v: VarsView) -> CtxView {
        CtxView { vars: v, ..self }
    }
}

/// The abstract view of the functions of a script.
pub open spec fn funcs_view(m: Map<Seq<char>, FuncInfo>) -> Map<Seq<char>, (usize, Seq<Seq<char>>)> {
    m.map_values(|f: FuncInfo| (f.fptr, names_view(f.args@)))
}

/// The state of the virtual machine: variables, labels, functions, the call
/// stack, the fuzz chains, and the state of compiling.
pub struct Context {
    pub globals: StrMap<Variant>,
    pub lbls: StrMap<usize>,
    pub stepu: usize,
    pub fcrtm: RunTimeManager,
    pub iptr: usize,
    pub iptr_commonupdate: bool,
    pub callretstack: Vec<usize>,
    pub funcs: StrMap<FuncInfo>,
    pub fargsmapstack: Vec<StrMap<FArg>>,
    pub localsstack: Vec<StrMap<Variant>>,
    pub bcompilingfunc: bool,
    pub compilingfunc: String,
    pub compilingline: u32,
    pub rndpool: Vec<u8>,
}

impl Context {
    /// The abstract state of the running machine.
    pub open spec fn view(&self) -> CtxView {
        CtxView {
            vars: self.vars(),
            iptr: self.iptr,
            jumped: !self.iptr_commonupdate,
            callret: self.callretstack@,
            lbls: self.lbls.view(),
            funcs: funcs_view(self.funcs.view()),
            stepu: self.stepu,
            chains: self.fcrtm.fchains_map(),
            fuzzers: self.fcrtm.fuzzers_map(),
            infunc: self.bcompilingfunc,
            curfunc: self.compilingfunc@,
        }
    }

    /// The variables that the script sees.
    pub open spec fn vars(&self) -> VarsView {
        VarsView {
            globals: vals_view(self.globals.view()),
            locals: self.localsstack@.map_values(|m: StrMap<Variant>| vals_view(m.view())),
            fargs: self.fargsmapstack@.map_values(|m: StrMap<FArg>| fargs_view(m.view())),
            rnd: self.rndpool@,
        }
    }

    /// The argument names of the function being compiled, if any.
    pub open spec fn compiling_args(&self) -> Option<Seq<Seq<char>>> {
        if self.bcompilingfunc && self.funcs.view().dom().contains(self.compilingfunc@) {
            Some(names_view(self.funcs.view()[self.compilingfunc@].args@))
        } else {
            None
        }
    }

    /// The argument names of the function being compiled, if any (see `compiling_args`).
    pub fn compiling_fargs(&self) -> (r: Option<&Vec<String>>)
        ensures
            fargs_names(r) == self.compiling_args(),
    {
        if self.bcompilingfunc {
            match self.funcs.get(&self.compilingfunc) {
                Some(fi) => Some(&fi.args),
                None => None,
            }
        } else {
            None
        }
    }

    /// Whether two contexts agree on all but the state of compiling.
    pub open spec fn same_run_state(&self, o: Context) -> bool {
        &&& self.globals == o.globals
        &&& self.lbls == o.lbls
        &&& self.stepu == o.stepu
        &&& self.fcrtm == o.fcrtm
        &&& self.iptr == o.iptr
        &&& self.iptr_commonupdate == o.iptr_commonupdate
        &&& self.callretstack == o.callretstack
        &&& self.funcs == o.funcs
        &&& self.fargsmapstack == o.fargsmapstack
        &&& self.localsstack == o.localsstack
        &&& self.compilingline == o.compilingline
        &&& self.rndpool == o.rndpool
    }

    /// A context with nothing defined, at the start of the program.
    pub fn new() -> (r: Context)
        ensures
            r.vars().globals == Map::<Seq<char>, VVal>::empty(),
            r.vars().locals.len() == 0,
            r.vars().fargs.len() == 0,
            r.iptr == 0,
            r.callretstack@.len() == 0,
            !r.bcompilingfunc,
            r.stepu == 0,
            r.lbls.view() == Map::<Seq<char>, usize>::empty(),
            r.funcs.view() == Map::<Seq<char>, FuncInfo>::empty(),
            r.compilingfunc@ == Seq::<char>::empty(),
            r.fcrtm.fchains_map() == Map::<Seq<char>, FuzzChain>::empty(),
            r.fcrtm.fuzzers_map() == Map::<Seq<char>, Fuzzer>::empty(),
    {
        let r = Context {
            globals: StrMap::new(),
            lbls: StrMap::new(),
            stepu: 0,
            fcrtm: RunTimeManager::new(),
            iptr: 0,
            iptr_commonupdate: true,
            callretstack: Vec::new(),
            funcs: StrMap::new(),
            fargsmapstack: Vec::new(),
            localsstack: Vec::new(),
            bcompilingfunc: false,
            compilingfunc: String::new(),
            compilingline: 0,
            rndpool: Vec::new(),
        };
        assert(r.vars().globals =~= Map::<Seq<char>, VVal>::empty());
        r
    }

    /// Whether the innermost call has a local variable of that name (false outside calls).
    pub fn var_islocal(&self, vname: &String) -> (b: bool)
        ensures
            b == (self.vars().locals.len() > 0 && self.vars().locals.last().dom().contains(vname@)),
    {
        let n = self.localsstack.len();
        if n == 0 {
            return false;
        }
        self.localsstack[n - 1].contains_key(vname)
    }

    /// Where a variable name leads (see `farg2real`); a function argument
    /// must be mapped by the innermost call.
    pub fn var_farg2real_ifreqd(&self, datakind: DataKind, vname: &String) -> (r: (isize, String))
        requires
            farg2real(self.vars(), datakind, vname@) is Some,
        ensures
            farg2real(self.vars(), datakind, vname@) == Some((r.0, r.1@)),
    {
        match datakind {
            DataKind::FuncArg => {
                let n = self.fargsmapstack.len();
                let fa = self.fargsmapstack[n - 1].get(vname).unwrap();
                (fa.loc, fa.name.clone())
            },
            DataKind::Variable => (-2, vname.clone()),
        }
    }

    /// Whether a variable name leads somewhere (see `farg2real`): a plain
    /// name always does, a function argument where the innermost call maps it.
    pub fn var_known(&self, datakind: DataKind, vname: &String) -> (b: bool)
        ensures
            b == (farg2real(self.vars(), datakind, vname@) is Some),
    {
        match datakind {
            DataKind::FuncArg => {
                let n = self.fargsmapstack.len();
                if n == 0 {
                    return false;
                }
                self.fargsmapstack[n - 1].contains_key(vname)
            },
            DataKind::Variable => true,
        }
    }

    /// The value of a variable (see `var_lookup`); a function argument must
    /// be mapped by the innermost call.
    pub fn var_get(&self, datakind: DataKind, vname: &String) -> (r: Option<&Variant>)
        requires
            farg2real(self.vars(), datakind, vname@) is Some,
        ensures
            match r {
                Some(v) => var_lookup(self.vars(), datakind, vname@) == Some(vval(*v)),
                None => var_lookup(self.vars(), datakind, vname@) is None,
            },
    {
        let (vnameindex, rname) = self.var_farg2real_ifreqd(datakind, vname);
        let nl = self.localsstack.len();
        let first: Option<&Variant> = if vnameindex == -2 {
            if nl > 0 { self.localsstack[nl - 1].get(&rname) } else { None }
        } else if vnameindex == -1 {
            self.globals.get(&rname)
        } else if 0 <= vnameindex && (vnameindex as usize) < nl {
            self.localsstack[vnameindex as usize].get(&rname)
        } else {
            None
        };
        match first {
            Some(v) => Some(v),
            None => {
                if vnameindex == -2 {
                    self.globals.get(&rname)
                } else {
                    None
                }
            },
        }
    }

    /// Sets a variable (see `var_assign`), which is no function argument; a
    /// forced local needs a function call to be in.
    pub fn var_set(&mut self, datakind: DataKind, vname: &String, vvalue: Variant, bforcelocal: bool)
        requires
            datakind != DataKind::FuncArg,
            bforcelocal ==> old(self).vars().locals.len() > 0,
        ensures
            var_assign(old(self).vars(), datakind, vname@, vval(vvalue), bforcelocal) == Some(final(self).vars()),
            final(self).view() == old(self).view().with_vars(final(self).vars()),
    {
        let n = self.localsstack.len();
        if n > 0 {
            let islocal = self.localsstack[n - 1].contains_key(vname);
            if islocal || bforcelocal {
                let ghost old_vars = self.vars();
                let ghost oldstack = self.localsstack@;
                let mut stack = Vec::new();
                std::mem::swap(&mut stack, &mut self.localsstack);
                let mut top = stack.pop().unwrap();
                assert(top == oldstack[n - 1]);
                top.insert(vname.clone(), vvalue);
                let ghost newtop = top;
                stack.push(top);
                assert(stack@ =~= oldstack.update(n - 1, newtop));
                self.localsstack = stack;
                proof {
                    let nv = self.vars();
                    assert(vals_view(newtop.view()) =~= old_vars.locals.last().insert(vname@, vval(vvalue)));
                    assert(nv.locals =~= old_vars.locals.update(old_vars.locals.len() - 1,
                        old_vars.locals.last().insert(vname@, vval(vvalue))));
                    assert(nv.globals == old_vars.globals);
                    assert(nv.fargs == old_vars.fargs);
                }
                return;
            }
        }
        let ghost old_vars = self.vars();
        self.globals.insert(vname.clone(), vvalue);
        proof {
            let nv = self.vars();
            assert(nv.globals =~= old_vars.globals.insert(vname@, vval(vvalue)));
        }
    }
}


impl Context {
    /// Jumps to a label (see `jump_target`).
    pub fn jump_to(&mut self, label: &String) -> (r: Result<(), String>)
        ensures
            match r {
                Ok(()) => jump_target(old(self).view(), label@) == Some(final(self).view()),
                Err(_) => jump_target(old(self).view(), label@) is None,
            },
    {
        let l = string_chars(label);
        if chars_are(l.as_slice(), "__NEXT__") {
            return Ok(());
        }
        match self.lbls.get(label) {
            Some(a) => {
                self.iptr = *a;
                self.iptr_commonupdate = false;
                Ok(())
            },
            None => Err(String::from_str("Ctxt:Jump:Unknown label")),
        }
    }

    /// What a variable passed to a function stands for (see `farg_base`).
    fn farg_base_exec(&self, passed: &String) -> (r: (isize, String))
        ensures
            (r.0, r.1@) == farg_base(self.vars(), passed@),
    {
        let nf = self.fargsmapstack.len();
        if nf > 0 {
            match self.fargsmapstack[nf - 1].get(passed) {
                Some(fa) => {
                    return (fa.loc, fa.name.clone());
                },
                None => {},
            }
        }
        let nl = self.localsstack.len();
        if nl > 0 && self.localsstack[nl - 1].contains_key(passed) {
            return ((nl - 1) as isize, passed.clone());
        }
        (-1, passed.clone())
    }

    /// Where a known function starts and the argument map of a call of it
    /// with the given variables, one for each of its arguments (see
    /// `call_target`).
    pub fn func_helper(&self, fname: &String, passedargs: &Vec<String>) -> (r: (usize, StrMap<FArg>))
        requires
            self.view().funcs.dom().contains(fname@),
            self.view().funcs[fname@].1.len() == passedargs@.len(),
        ensures
            r.0 == self.view().funcs[fname@].0,
            fargs_view(r.1.view()) == fargs_map(self.vars(), self.view().funcs[fname@].1, names_view(passedargs@)),
    {
        let fi = self.funcs.get(fname).unwrap();
        let ghost names = names_view(fi.args@);
        let ghost passed = names_view(passedargs@);
        assert(self.view().funcs[fname@] == (fi.fptr, names));
        let mut m: StrMap<FArg> = StrMap::new();
        let mut i: usize = 0;
        assert(names.subrange(0, 0) =~= Seq::<Seq<char>>::empty());
        assert(fargs_view(m.view()) =~= Map::<Seq<char>, (isize, Seq<char>)>::empty());
        while i < passedargs.len()
            invariant
                i <= passedargs@.len(),
                fi.args@.len() == passedargs@.len(),
                names == names_view(fi.args@),
                passed == names_view(passedargs@),
                fargs_view(m.view()) == fargs_map(self.vars(), names.subrange(0, i as int), passed.subrange(0, i as int)),
            decreases passedargs.len() - i,
        {
            let (loc, name) = self.farg_base_exec(&passedargs[i]);
            let ghost old_m = m.view();
            m.insert(fi.args[i].clone(), FArg { loc, name });
            proof {
                assert(names.subrange(0, i + 1).drop_last() =~= names.subrange(0, i as int));
                assert(passed.subrange(0, i + 1).drop_last() =~= passed.subrange(0, i as int));
                assert(names.subrange(0, i + 1).last() == fi.args@[i as int]@);
                assert(passed.subrange(0, i + 1).last() == passedargs@[i as int]@);
                assert(fargs_view(m.view()) =~= fargs_view(old_m).insert(fi.args@[i as int]@, (loc, name@)));
            }
            i = i + 1;
        }
        assert(names.subrange(0, i as int) =~= names);
        assert(passed.subrange(0, i as int) =~= passed);
        (fi.fptr, m)
    }

    /// Whether a function of that name is known and takes that many arguments.
    pub fn func_takes(&self, fname: &String, nargs: usize) -> (b: bool)
        ensures
            b == (self.view().funcs.dom().contains(fname@) && self.view().funcs[fname@].1.len() == nargs),
    {
        match self.funcs.get(fname) {
            Some(fi) => fi.args.len() == nargs,
            None => false,
        }
    }

    /// Calls a function (see `call_target`).
    pub fn call(&mut self, fname: &String, passedargs: &Vec<String>) -> (r: Result<(), String>)
        ensures
            match r {
                Ok(()) => call_target(old(self).view(), fname@, names_view(passedargs@)) == Some(final(self).view()),
                Err(_) => call_target(old(self).view(), fname@, names_view(passedargs@)) is None,
            },
    {
        if !self.func_takes(fname, passedargs.len()) {
            return Err(String::from_str("Ctxt:Call:Unknown function or wrong number of arguments"));
        }
        let (fptr, m) = self.func_helper(fname, passedargs);
        let ghost ov = self.view();
        let ghost mv = m.view();
        self.callretstack.push(self.iptr);
        self.iptr = fptr;
        self.fargsmapstack.push(m);
        let e: StrMap<Variant> = StrMap::new();
        assert(vals_view(e.view()) =~= Map::<Seq<char>, VVal>::empty());
        self.localsstack.push(e);
        self.iptr_commonupdate = false;
        proof {
            let nv = self.view();
            assert(nv.vars.fargs =~= ov.vars.fargs.push(fargs_view(mv)));
            assert(nv.vars.locals =~= ov.vars.locals.push(Map::empty()));
        }
        Ok(())
    }

    /// Returns from a function (see `ret_target`).
    pub fn ret(&mut self) -> (r: Result<(), String>)
        ensures
            match r {
                Ok(()) => ret_target(old(self).view()) == Some(final(self).view()),
                Err(_) => ret_target(old(self).view()) is None,
            },
    {
        let ghost ov = self.view();
        if self.callretstack.len() == 0 || self.fargsmapstack.len() == 0 {
            return Err(String::from_str("Ctxt:Ret:Not inside a call"));
        }
        let a = self.callretstack.pop().unwrap();
        self.iptr = a;
        let _ = self.fargsmapstack.pop();
        let _ = self.localsstack.pop();
        proof {
            let nv = self.view();
            assert(nv.vars.fargs =~= ov.vars.fargs.drop_last());
            if ov.vars.locals.len() > 0 {
                assert(nv.vars.locals =~= ov.vars.locals.drop_last());
            } else {
                assert(nv.vars.locals =~= ov.vars.locals);
            }
        }
        Ok(())
    }
}


/// The virtual machine: its state, its instructions (each with the number
/// of the script line it came from), and the instruction whose io bridge
/// read waits for its data, if any.
pub struct VM {
    ctxt: Context,
    ops: Vec<(Op, u32)>,
    pending: Option<usize>,
}

/// The lines of a text (split at `\n`), each with its runs of white space
/// outside quotes collapsed (see `ws_fold`).
pub open spec fn prg_lines(prgdata: Seq<char>) -> Seq<Seq<char>> {
    seq_split_all(prgdata, '\n').map_values(|l: Seq<char>| ws_fold(l).1)
}

/// The `key=value ` text of the io arguments, in the order of the keys.
pub open spec fn ioargs_text(keys: Seq<Seq<char>>, m: Map<Seq<char>, String>) -> Seq<char>
    decreases keys.len(),
{
    if keys.len() == 0 {
        Seq::empty()
    } else {
        ioargs_text(keys.drop_last(), m) + keys.last() + "="@ + m[keys.last()]@ + " "@
    }
}

/// The program that runs a fuzz chain `loopcnt` times, writing what it
/// generates to an io bridge opened afresh each time.
pub open spec fn predefined_lines(fc: Seq<char>, loopcnt: usize, ioaddr: Seq<char>, ioargs: Seq<char>) -> Seq<Seq<char>> {
    seq![
        "letint loopcnt 0"@,
        "!label freshstart"@,
        "iobnew srvX "@ + ioaddr + " "@ + ioargs,
        "fcget "@ + fc + " fuzzgot"@,
        "iobwrite srvX fuzzgot"@,
        "iobflush srvX"@,
        "inc loopcnt"@,
        "iflt.i loopcnt "@ + dec_digits(loopcnt as nat) + " goto freshstart"@
    ]
}

impl VM {
    /// The state of the running machine.
    pub closed spec fn ctx(&self) -> CtxView {
        self.ctxt.view()
    }

    /// The instructions.
    pub closed spec fn ops(&self) -> Seq<OpView> {
        self.ops@.map_values(|p: (Op, u32)| opv(p.0))
    }

    /// What compiling has built so far.
    pub closed spec fn comp(&self) -> CompView {
        CompView {
            ops: self.ops(),
            lines: self.ops@.map_values(|p: (Op, u32)| p.1),
            lbls: self.ctxt.lbls.view(),
            funcs: funcs_view(self.ctxt.funcs.view()),
            infunc: self.ctxt.bcompilingfunc,
            curfunc: self.ctxt.compilingfunc@,
        }
    }

    /// The instruction whose io bridge read waits for its data, if any.
    pub closed spec fn pending(&self) -> Option<usize> {
        self.pending
    }

    /// The machine is consistent: each return address is that of an
    /// instruction, and a waiting read is an `IobRead` instruction.
    pub closed spec fn wf(&self) -> bool {
        &&& forall|k: int| 0 <= k < self.ctxt.callretstack@.len() ==> #[trigger] self.ctxt.callretstack@[k] < self.ops@.len()
        &&& self.pending matches Some(i) ==> i < self.ops@.len() && self.ops@[i as int].0 is IobRead
    }

    /// A machine with no program, no variables and no fuzz chains.
    pub fn new() -> (r: VM)
        ensures
            r.wf(),
            r.comp() == (CompView {
                ops: Seq::empty(),
                lines: Seq::empty(),
                lbls: Map::empty(),
                funcs: Map::empty(),
                infunc: false,
                curfunc: Seq::empty(),
            }),
            r.ctx().vars.globals == Map::<Seq<char>, VVal>::empty(),
            r.ctx().vars.locals.len() == 0,
            r.ctx().vars.fargs.len() == 0,
            r.ctx().iptr == 0,
            r.ctx().callret.len() == 0,
            r.ctx().stepu == 0,
            r.ctx().chains == Map::<Seq<char>, FuzzChain>::empty(),
            r.ctx().fuzzers == Map::<Seq<char>, Fuzzer>::empty(),
            r.pending() is None,
    {
        let r = VM { ctxt: Context::new(), ops: Vec::new(), pending: None };
        assert(r.ops() =~= Seq::<OpView>::empty());
        assert(r.ops@.map_values(|p: (Op, u32)| p.1) =~= Seq::<u32>::empty());
        assert(funcs_view(r.ctxt.funcs.view()) =~= Map::<Seq<char>, (usize, Seq<Seq<char>>)>::empty());
        r
    }
}


proof fn lemma_prg_compile_step(cv: CompView, lines: Seq<Seq<char>>, i: int, before: CompView)
    requires
        0 <= i < lines.len(),
        i + 1 <= u32::MAX,
        prg_compile(cv, lines.subrange(0, i)) == Some(before),
    ensures
        prg_compile(cv, lines.subrange(0, i + 1)) == line_compile(before, lines[i], (i + 1) as u32),
{
    assert(lines.subrange(0, i + 1).drop_last() =~= lines.subrange(0, i));
}

proof fn lemma_prg_compile_none(cv: CompView, lines: Seq<Seq<char>>, k: int)
    requires
        0 <= k <= lines.len(),
        prg_compile(cv, lines.subrange(0, k)) is None,
    ensures
        prg_compile(cv, lines) is None,
    decreases lines.len() - k,
{
    if k < lines.len() {
        assert(lines.subrange(0, k + 1).drop_last() =~= lines.subrange(0, k));
        lemma_prg_compile_none(cv, lines, k + 1);
    } else {
        assert(lines.subrange(0, k) =~= lines);
    }
}

impl VM {
    /// Compiles a directive line (see `dir_compile`).
    pub fn compile_directive(&mut self, sdirplus: &str) -> (r: Result<(), String>)
        requires
            old(self).wf(),
        ensures
            final(self).wf(),
            match r {
                Ok(()) => dir_compile(old(self).comp(), sdirplus@) == Some(final(self).comp()),
                Err(_) => dir_compile(old(self).comp(), sdirplus@) is None,
            },
            final(self).ctx() == (CtxView { lbls: final(self).comp().lbls, funcs: final(self).comp().funcs,
                infunc: final(self).comp().infunc, curfunc: final(self).comp().curfunc, ..old(self).ctx() }),
            final(self).pending() == old(self).pending(),
    {
        let line = str_chars(sdirplus);
        self.compile_directive_chars(line.as_slice())
    }

    fn compile_directive_chars(&mut self, line: &[char]) -> (r: Result<(), String>)
        requires
            old(self).wf(),
        ensures
            final(self).wf(),
            match r {
                Ok(()) => dir_compile(old(self).comp(), line@) == Some(final(self).comp()),
                Err(_) => dir_compile(old(self).comp(), line@) is None,
            },
            final(self).ctx() == (CtxView { lbls: final(self).comp().lbls, funcs: final(self).comp().funcs,
                infunc: final(self).comp().infunc, curfunc: final(self).comp().curfunc, ..old(self).ctx() }),
            final(self).pending() == old(self).pending(),
            final(self).ops == old(self).ops,
    {
        let (d, a) = match chars_split_once(line, ' ') {
            Some(p) => p,
            None => {
                return Err(String::from_str("VM:CompileDirective:Missing argument"));
            },
        };
        if chars_are(d.as_slice(), "!label") {
            let n = self.ops.len();
            self.ctxt.lbls.insert(string_from_chars(a.as_slice()), n);
            Ok(())
        } else if chars_are(d.as_slice(), "!func") {
            let w = split_whitespace_chars(a.as_slice());
            if w.len() == 0 {
                return Err(String::from_str("VM:CompileDirective:!func:function name missing"));
            }
            if self.ctxt.bcompilingfunc {
                return Err(String::from_str("VM:CompileDirective:!func:prev func may be missing ret"));
            }
            assert(char_seqs(w@)[0] == w@[0]@);
            let args = strings_from(&w, 1);
            assert(char_seqs(w@).subrange(1, w@.len() as int) =~= char_seqs(w@).drop_first());
            let name = string_from_chars(w[0].as_slice());
            let n = self.ops.len();
            let ghost fv = funcs_view(self.ctxt.funcs.view());
            let fi = FuncInfo { fptr: n, args };
            self.ctxt.funcs.insert(name.clone(), fi);
            assert(funcs_view(self.ctxt.funcs.view()) =~= fv.insert(name@, (n, names_view(fi.args@))));
            self.ctxt.bcompilingfunc = true;
            self.ctxt.compilingfunc = name;
            Ok(())
        } else {
            Err(String::from_str("VM:CompileDirective:Unknown directive"))
        }
    }

    /// Compiles one line of a script, with its line number (see `line_compile`).
    fn compile_line(&mut self, sop: &String, lineno: u32) -> (r: Result<(), String>)
        requires
            old(self).wf(),
        ensures
            final(self).wf(),
            match r {
                Ok(()) => line_compile(old(self).comp(), sop@, lineno) == Some(final(self).comp()),
                Err(_) => line_compile(old(self).comp(), sop@, lineno) is None,
            },
            final(self).ctx() == (CtxView { lbls: final(self).comp().lbls, funcs: final(self).comp().funcs,
                infunc: final(self).comp().infunc, curfunc: final(self).comp().curfunc, ..old(self).ctx() }),
            final(self).pending() == old(self).pending(),
            final(self).ops@.len() >= old(self).ops@.len(),
            forall|k: int| 0 <= k < old(self).ops@.len() ==> final(self).ops@[k] == old(self).ops@[k],
    {
        reveal(line_compile);
        let lc = string_chars(sop);
        let t = trim_chars(lc.as_slice());
        if t.len() == 0 || t[0] == '#' {
            return Ok(());
        }
        if t[0] == '!' {
            return self.compile_directive_chars(t.as_slice());
        }
        let ts = string_from_chars(t.as_slice());
        self.ctxt.compilingline = lineno;
        let ghost cv = self.comp();
        assert(comp_args(cv) == self.ctxt.compiling_args());
        let op = Op::compile(ts.as_str(), &mut self.ctxt)?;
        let local = self.ctxt.bcompilingfunc;
        let fa = self.ctxt.compiling_fargs();
        let ghost ov = opv(op);
        let ghost cv2 = CompView { infunc: self.ctxt.bcompilingfunc, curfunc: self.ctxt.compilingfunc@, ..cv };
        assert(fargs_names(fa) == comp_args(cv2));
        let op2 = lift_op_exec(fa, op, lineno, local, &mut self.ops);
        let ghost mid = self.ops@;
        self.ops.push((op2, lineno));
        proof {
            let (pre, o2) = lift_op(comp_args(cv2), ov, lineno, cv2.infunc);
            assert(self.ops() =~= pairs_ops(mid).push(opv(op2)));
            assert(pairs_ops(mid) == cv.ops + pre);
            assert(self.ops() =~= cv.ops + pre.push(o2));
            assert(self.ops@.map_values(|p: (Op, u32)| p.1) =~= pairs_lines(mid).push(lineno));
            assert(self.ops@.map_values(|p: (Op, u32)| p.1) =~= cv.lines + Seq::new(pre.len() + 1, |i: int| lineno));
        }
        Ok(())
    }

    /// Compiles the lines of a script, numbered from 1 (see `prg_compile`).
    pub fn compile(&mut self, ops: Vec<String>) -> (r: Result<(), String>)
        requires
            old(self).wf(),
        ensures
            final(self).wf(),
            match r {
                Ok(()) => prg_compile(old(self).comp(), lines_of(ops@)) == Some(final(self).comp()),
                Err(_) => prg_compile(old(self).comp(), lines_of(ops@)) is None,
            },
            r is Ok ==> final(self).ctx() == (CtxView { lbls: final(self).comp().lbls, funcs: final(self).comp().funcs,
                infunc: final(self).comp().infunc, curfunc: final(self).comp().curfunc, ..old(self).ctx() }),
            r is Ok ==> final(self).pending() == old(self).pending(),
    {
        let ghost ls = lines_of(ops@);
        let ghost cv0 = self.comp();
        let ghost c0 = self.ctx();
        self.ctxt.compilingline = 0;
        assert(ls.subrange(0, 0) =~= Seq::<Seq<char>>::empty());
        let mut i: usize = 0;
        while i < ops.len()
            invariant
                self.wf(),
                ls == lines_of(ops@),
                cv0 == old(self).comp(),
                c0 == old(self).ctx(),
                i <= ops@.len(),
                prg_compile(cv0, ls.subrange(0, i as int)) == Some(self.comp()),
                self.ctx() == (CtxView { lbls: self.comp().lbls, funcs: self.comp().funcs,
                    infunc: self.comp().infunc, curfunc: self.comp().curfunc, ..c0 }),
                self.pending() == old(self).pending(),
            decreases ops.len() - i,
        {
            if i >= 4294967295usize {
                assert(ls.subrange(0, i + 1).len() > u32::MAX);
                proof {
                    lemma_prg_compile_none(cv0, ls, i + 1);
                }
                return Err(String::from_str("VM:Compile:Too many lines"));
            }
            let lineno = (i + 1) as u32;
            let ghost before = self.comp();
            proof {
                lemma_prg_compile_step(cv0, ls, i as int, before);
                assert(ls[i as int] == ops@[i as int]@);
            }
            match self.compile_line(&ops[i], lineno) {
                Ok(()) => {},
                Err(e) => {
                    proof {
                        assert(line_compile(before, ls[i as int], lineno) is None);
                        assert(prg_compile(cv0, ls.subrange(0, i + 1)) is None);
                        lemma_prg_compile_none(cv0, ls, i + 1);
                    }
                    return Err(e);
                },
            }
            i = i + 1;
        }
        assert(ls.subrange(0, ops@.len() as int) =~= ls);
        Ok(())
    }

    /// Loads a program from its text (see `prg_lines`): each line has its
    /// extra white space removed, then the lines are compiled.
    pub fn load_prg(&mut self, prgdata: &str) -> (r: Result<(), String>)
        requires
            old(self).wf(),
        ensures
            final(self).wf(),
            match r {
                Ok(()) => prg_compile(old(self).comp(), prg_lines(prgdata@)) == Some(final(self).comp()),
                Err(_) => prg_compile(old(self).comp(), prg_lines(prgdata@)) is None,
            },
            r is Ok ==> final(self).ctx() == (CtxView { lbls: final(self).comp().lbls, funcs: final(self).comp().funcs,
                infunc: final(self).comp().infunc, curfunc: final(self).comp().curfunc, ..old(self).ctx() }),
            r is Ok ==> final(self).pending() == old(self).pending(),
    {
        let pc = str_chars(prgdata);
        let parts = chars_split_all(pc.as_slice(), '\n');
        let ghost ps = parts.deep_view();
        let mut lines: Vec<String> = Vec::new();
        let mut i: usize = 0;
        while i < parts.len()
            invariant
                ps == parts.deep_view(),
                ps == seq_split_all(prgdata@, '\n'),
                i <= parts@.len(),
                lines_of(lines@) == ps.subrange(0, i as int).map_values(|l: Seq<char>| ws_fold(l).1),
            decreases parts.len() - i,
        {
            assert(ps[i as int] =~= parts@[i as int]@);
            let l = remove_extra_whitespaces_chars(parts[i].as_slice());
            let ghost old_lines = lines_of(lines@);
            lines.push(string_from_chars(l.as_slice()));
            assert(lines_of(lines@) =~= old_lines.push(l@));
            assert(ps.subrange(0, i + 1).map_values(|l: Seq<char>| ws_fold(l).1)
                =~= ps.subrange(0, i as int).map_values(|l: Seq<char>| ws_fold(l).1).push(ws_fold(ps[i as int]).1));
            i = i + 1;
        }
        assert(ps.subrange(0, parts@.len() as int) =~= ps);
        self.compile(lines)
    }

    /// Compiles the program that runs the fuzz chain `fc` `loopcnt` times,
    /// writing what it generates to an io bridge at `ioaddr` with the given
    /// arguments (see `predefined_lines`).
    pub fn predefined_prg(&mut self, fc: &str, loopcnt: usize, ioaddr: &str, ioargshm: &StrMap<String>) -> (r: Result<(), String>)
        requires
            old(self).wf(),
        ensures
            final(self).wf(),
            ({
                let ls = predefined_lines(fc@, loopcnt, ioaddr@, ioargs_text(ioargshm.key_seq(), ioargshm.view()));
                match r {
                    Ok(()) => prg_compile(old(self).comp(), ls) == Some(final(self).comp()),
                    Err(_) => prg_compile(old(self).comp(), ls) is None,
                }
            }),
            r is Ok ==> final(self).ctx() == (CtxView { lbls: final(self).comp().lbls, funcs: final(self).comp().funcs,
                infunc: final(self).comp().infunc, curfunc: final(self).comp().curfunc, ..old(self).ctx() }),
    {
        let mut ioargs: Vec<char> = Vec::new();
        let mut i: usize = 0;
        let n = ioargshm.len();
        assert(ioargshm.key_seq().subrange(0, 0) =~= Seq::<Seq<char>>::empty());
        while i < n
            invariant
                n == ioargshm.key_seq().len(),
                i <= n,
                ioargs@ == ioargs_text(ioargshm.key_seq().subrange(0, i as int), ioargshm.view()),
            decreases n - i,
        {
            let k = ioargshm.key_at(i);
            let v = ioargshm.get(k).unwrap();
            let kc = string_chars(k);
            let vc = string_chars(v);
            push_chars(&mut ioargs, kc.as_slice());
            push_chars(&mut ioargs, ['='].as_slice());
            push_chars(&mut ioargs, vc.as_slice());
            push_chars(&mut ioargs, [' '].as_slice());
            proof {
                let ks = ioargshm.key_seq().subrange(0, i + 1);
                assert(ks.drop_last() =~= ioargshm.key_seq().subrange(0, i as int));
                assert(['='].view() =~= "="@) by {
                    reveal_strlit("=");
                }
                assert([' '].view() =~= " "@) by {
                    reveal_strlit(" ");
                }
                assert(ioargs@ =~= ioargs_text(ks, ioargshm.view()));
            }
            i = i + 1;
        }
        assert(ioargshm.key_seq().subrange(0, n as int) =~= ioargshm.key_seq());
        let ia = string_from_chars(ioargs.as_slice());
        let cnt = fmt_u128(loopcnt as u128);
        let cnts = string_from_chars(cnt.as_slice());
        let mut runcmds: Vec<String> = Vec::new();
        runcmds.push(String::from_str("letint loopcnt 0"));
        runcmds.push(String::from_str("!label freshstart"));
        runcmds.push(String::from_str("iobnew srvX ").concat(ioaddr).concat(" ").concat(ia.as_str()));
        runcmds.push(String::from_str("fcget ").concat(fc).concat(" fuzzgot"));
        runcmds.push(String::from_str("iobwrite srvX fuzzgot"));
        runcmds.push(String::from_str("iobflush srvX"));
        runcmds.push(String::from_str("inc loopcnt"));
        runcmds.push(String::from_str("iflt.i loopcnt ").concat(cnts.as_str()).concat(" goto freshstart"));
        assert(lines_of(runcmds@) =~= predefined_lines(fc@, loopcnt, ioaddr@, ia@));
        self.compile(runcmds)
    }
}


impl VM {
    /// Sets up the fuzzers and fuzz chains from the lines of a config file
    /// (see `cfg_loaded`).
    pub fn load_fcrtm(&mut self, lines: &Vec<String>) -> (r: Result<(), String>)
        requires
            old(self).wf(),
        ensures
            final(self).wf(),
            r is Ok ==> cfg_loaded(lines_of(lines@), 0, RtmView { fuzzers: old(self).ctx().fuzzers, chains: old(self).ctx().chains },
                RtmView { fuzzers: final(self).ctx().fuzzers, chains: final(self).ctx().chains }),
            r is Err ==> forall|m1: RtmView| !cfg_loaded(lines_of(lines@), 0,
                RtmView { fuzzers: old(self).ctx().fuzzers, chains: old(self).ctx().chains }, m1),
            final(self).ctx() == (CtxView { chains: final(self).ctx().chains, fuzzers: final(self).ctx().fuzzers, ..old(self).ctx() }),
            final(self).comp() == old(self).comp(),
            final(self).pending() == old(self).pending(),
    {
        let ghost v0 = self.ctxt.fcrtm.view();
        let r = self.ctxt.fcrtm.load_lines(lines);
        assert(v0 == RtmView { fuzzers: old(self).ctx().fuzzers, chains: old(self).ctx().chains });
        r
    }

    /// Runs the next instruction at time stamp `now`, in the given byte
    /// order and with the given random bytes drawn for it (see `step_ok` and
    /// `step_fails`), and says what the caller is to do; an `IobRead` then
    /// waits for its data (see `read_done`).
    pub fn step_at(&mut self, now: u128, le: bool, rnd: Vec<u8>) -> (r: Result<VmAction, String>)
        requires
            old(self).wf(),
        ensures
            r is Ok ==> final(self).wf(),
            match r {
                Ok(a) => step_ok(old(self).ops(), with_rnd(old(self).ctx(), rnd@), final(self).ctx(), actv(a), now, le),
                Err(_) => step_fails(old(self).ops(), with_rnd(old(self).ctx(), rnd@), now, le),
            },
            r is Ok ==> final(self).comp() == old(self).comp(),
            r matches Ok(a) ==> final(self).pending() == (if a is IobRead { Some(old(self).ctx().iptr) } else if a is Halt {
                old(self).pending()
            } else {
                None::<usize>
            }),
    {
        let ghost c00 = with_rnd(self.ctx(), rnd@);
        self.ctxt.rndpool = rnd;
        assert(self.ctx() == c00);
        let n = self.ops.len();
        if self.ctxt.iptr >= n {
            return Ok(VmAction::Halt);
        }
        let i = self.ctxt.iptr;
        self.ctxt.iptr_commonupdate = true;
        let ghost c0 = self.ctxt.view();
        let ghost op = opv(self.ops@[i as int].0);
        assert(op == self.ops()[i as int]);
        let a = self.ops[i].0.run(&mut self.ctxt, now, le)?;
        let ghost m = self.ctxt.view();
        proof {
            lemma_op_run_frame(op, c0, m, actv(a), now, le);
            if !m.jumped && m.iptr != c0.iptr {
                assert(old(self).ctxt.callretstack@.last() < n);
            }
            assert forall|k: int| 0 <= k < self.ctxt.callretstack@.len() implies #[trigger] self.ctxt.callretstack@[k] < n by {
                if m.callret == c0.callret.push(c0.iptr) && k == c0.callret.len() {
                } else {
                    assert(self.ctxt.callretstack@[k] == old(self).ctxt.callretstack@[k]);
                }
            }
        }
        if self.ctxt.iptr_commonupdate {
            self.ctxt.iptr = self.ctxt.iptr + 1;
        }
        let isread = match a {
            VmAction::IobRead(_, _) => true,
            _ => false,
        };
        if isread {
            self.pending = Some(i);
        } else {
            self.pending = None;
        }
        proof {
            assert(self.ctxt.view() == advance(m));
            assert(fresh(c00) == c0);
        }
        Ok(a)
    }

    /// How many random bytes the next instruction reads (0 past the last one).
    pub closed spec fn next_need(&self) -> nat {
        if self.ctxt.iptr < self.ops@.len() { op_need(opv(self.ops@[self.ctxt.iptr as int].0)) } else { 0 }
    }

    /// Runs the next instruction (see `step_at`), at the current time, in
    /// this machine's byte order, and with as many fresh random bytes as it
    /// reads.
    pub fn step(&mut self) -> (r: Result<VmAction, String>)
        requires
            old(self).wf(),
        ensures
            r is Ok ==> final(self).wf(),
            exists|now: u128, le: bool, rnd: Seq<u8>| rnd.len() == old(self).next_need()
                && #[trigger] step_result(old(self).ops(), with_rnd(old(self).ctx(), rnd), final(self).ctx(), r, now, le),
            r is Ok ==> final(self).comp() == old(self).comp(),
    {
        let now = now_millis();
        let le = native_little_endian();
        let need: usize = if self.ctxt.iptr < self.ops.len() { self.ops[self.ctxt.iptr].0.rand_need() } else { 0 };
        let mut rnd: Vec<u8> = Vec::new();
        while rnd.len() < need
            invariant
                rnd@.len() <= need,
            decreases need - rnd@.len(),
        {
            rnd.push(random_u8());
        }
        let ghost rv = rnd@;
        let r = self.step_at(now, le, rnd);
        assert(step_result(old(self).ops(), with_rnd(old(self).ctx(), rv), final(self).ctx(), r, now, le));
        r
    }

    /// Hands the data that an io bridge read gave to the instruction that
    /// waits for it: its buffer variable is set to the data.
    pub fn read_done(&mut self, data: Vec<u8>) -> (r: Result<(), String>)
        requires
            old(self).wf(),
        ensures
            final(self).wf(),
            match r {
                Ok(()) => old(self).pending() matches Some(i) && old(self).ops()[i as int] matches OpView::IobRead(_, x)
                    && assign(old(self).ctx().vars, x, VVal::Buf(data@), false) == Some(final(self).ctx().vars),
                Err(_) => old(self).pending() matches Some(i) ==> (old(self).ops()[i as int] matches OpView::IobRead(_, x)
                    && assign(old(self).ctx().vars, x, VVal::Buf(data@), false) is None),
            },
            final(self).ctx() == old(self).ctx().with_vars(final(self).ctx().vars),
            final(self).comp() == old(self).comp(),
            final(self).pending() is None,
    {
        let i = match self.pending {
            Some(i) => i,
            None => {
                return Err(String::from_str("VM:ReadDone:No read waits for data"));
            },
        };
        self.pending = None;
        match &self.ops[i].0 {
            Op::IobRead(_, x) => x.set_bufvu8(&mut self.ctxt, data),
            _ => Err(String::from_str("VM:ReadDone:Not a read")),
        }
    }
}

} // verus!
