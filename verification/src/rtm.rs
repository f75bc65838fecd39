//! The runtime manager: creates and keeps the fuzzers and fuzz chains that
//! config groups describe.

use vstd::prelude::*;
use std::collections::VecDeque;
use crate::FuzzChain;
use crate::fuzz::{Fuzz, Fuzzer};
use crate::fixed::{LoopFixedStringsFuzzer, RandomFixedStringsFuzzer, list_from_cfg};
use crate::random::{RandomRandomFuzzer, RandomFixedFuzzer, Buf8sRandomizeFuzzer, lens_from_cfg, fixed_from_cfg, b8r_from_cfg, clamp_val};
use crate::cfgfiles::{FromVecStrings, HandleCfgGroup, lines_of, cfg_scan, get_cfggroup, lemma_cfg_scan_moves};
use crate::strmap::StrMap;
use crate::text::{chars_are, seq_split_all, chars_split_all, trim_seq, trim_chars, string_chars, string_from_chars, str_chars, chars_eq};

verus! {

/// Whether `f` is the fuzzer that a config group of the given fuzzer type describes.
pub open spec fn fuzzer_from_cfg(kind: Seq<char>, lines: Seq<Seq<char>>, f: Fuzzer) -> bool {
    if kind == "LoopFixedStringsFuzzer"@ {
        f matches Fuzzer::LoopFixedStrings(x) && list_from_cfg(lines) == Some(x.items())
    } else if kind == "RandomFixedStringsFuzzer"@ {
        f matches Fuzzer::RandomFixedStrings(x) && list_from_cfg(lines) == Some(x.items())
    } else if kind == "RandomRandomFuzzer"@ {
        f matches Fuzzer::RandomRandom(x) && lens_from_cfg(lines, false) == Some((x.min_len(), x.max_len()))
    } else if kind == "RandomFixedFuzzer"@ || kind == "RandomFixedFuzzerPrintables"@ {
        f matches Fuzzer::RandomFixed(x) && fixed_from_cfg(lines) matches Some((_, a, b, c))
            && x.min_len() == a && x.max_len() == b && x.chars() == c
    } else if kind == "Buf8sRandomizeFuzzer"@ {
        f matches Fuzzer::Buf8sRandomize(x) && b8r_from_cfg(lines) matches Some((bufs, rc, so, eo, sv, ev))
            && x.bufs() == bufs
            && (rc >= 0 ==> x.rand_count() == rc)
            && (rc < 0 ==> 1 <= x.rand_count() <= bufs.len())
            && x.start_offset() == so && x.end_offset() == eo
            && x.start_val() == clamp_val(sv, 0) && x.end_val() == clamp_val(ev, 255)
    } else {
        false
    }
}

/// Whether a config group of the given fuzzer type describes a fuzzer that can be made.
pub open spec fn fuzzer_cfg_ok(kind: Seq<char>, lines: Seq<Seq<char>>) -> bool {
    if kind == "LoopFixedStringsFuzzer"@ || kind == "RandomFixedStringsFuzzer"@ {
        list_from_cfg(lines) is Some
    } else if kind == "RandomRandomFuzzer"@ {
        lens_from_cfg(lines, false) is Some
    } else if kind == "RandomFixedFuzzer"@ || kind == "RandomFixedFuzzerPrintables"@ {
        fixed_from_cfg(lines) is Some
    } else if kind == "Buf8sRandomizeFuzzer"@ {
        b8r_from_cfg(lines) matches Some((bufs, rc, so, eo, sv, ev)) && (rc < 0 ==> 0 < bufs.len() < isize::MAX)
    } else {
        false
    }
}

/// The fuzzer names that a fuzz chain group lists: its lines after the
/// first, trimmed.
pub open spec fn chain_names(lines: Seq<Seq<char>>) -> Seq<Seq<char>> {
    lines.drop_first().map_values(|l: Seq<char>| trim_seq(l))
}

/// The fuzzers and the fuzz chains that a manager keeps, by name.
pub struct RtmView {
    pub fuzzers: Map<Seq<char>, Fuzzer>,
    pub chains: Map<Seq<char>, FuzzChain>,
}

/// Whether a fuzzer type is one of the known ones.
pub open spec fn fuzzer_kind_known(kind: Seq<char>) -> bool {
    kind == "LoopFixedStringsFuzzer"@ || kind == "RandomFixedStringsFuzzer"@ || kind == "RandomRandomFuzzer"@
        || kind == "RandomFixedFuzzer"@ || kind == "RandomFixedFuzzerPrintables"@ || kind == "Buf8sRandomizeFuzzer"@
}

/// Whether a config group names only known things: a `FuzzerType` group a
/// known fuzzer type, a `FuzzChain` group only fuzzers that are kept.
pub open spec fn group_known(ls: Seq<Seq<char>>, f: Map<Seq<char>, Fuzzer>) -> bool {
    let la = seq_split_all(ls[0], ':');
    (ls.len() > 0 && la.len() >= 3) ==> {
        &&& la[0] == "FuzzerType"@ ==> fuzzer_kind_known(la[1])
        &&& la[0] == "FuzzChain"@ ==> forall|i: int| 0 <= i < chain_names(ls).len()
            ==> f.dom().contains(#[trigger] chain_names(ls)[i])
    }
}

/// A group that can be handled names only known things.
proof fn lemma_ok_is_known(ls: Seq<Seq<char>>, f: Map<Seq<char>, Fuzzer>)
    ensures
        group_ok(ls, f) ==> group_known(ls, f),
{
    reveal_strlit("FuzzerType");
    reveal_strlit("FuzzChain");
    let la = seq_split_all(ls[0], ':');
    assert("FuzzerType"@[4] != "FuzzChain"@[4]);
    assert("FuzzerType"@ != "FuzzChain"@);
    if group_ok(ls, f) {
        if la[0] == "FuzzerType"@ {
            assert(fuzzer_cfg_ok(la[1], ls));
            assert(fuzzer_kind_known(la[1]));
        } else if la[0] == "FuzzChain"@ {
            assert(forall|i: int| 0 <= i < chain_names(ls).len() ==> f.dom().contains(#[trigger] chain_names(ls)[i]));
        }
    }
}

/// Whether handling a config group (its lines) succeeds, with the fuzzers
/// kept so far: its header `Kind:Type:Name` needs three parts; a
/// `FuzzerType` group needs a valid description of a known fuzzer type; a
/// `FuzzChain` group needs each fuzzer it names to be kept; other groups are
/// left alone.
pub open spec fn group_ok(ls: Seq<Seq<char>>, f: Map<Seq<char>, Fuzzer>) -> bool {
    let la = seq_split_all(ls[0], ':');
    if ls.len() == 0 || la.len() < 3 {
        false
    } else if la[0] == "FuzzerType"@ {
        fuzzer_cfg_ok(la[1], ls)
    } else if la[0] == "FuzzChain"@ {
        let names = chain_names(ls);
        forall|i: int| 0 <= i < names.len() ==> f.dom().contains(#[trigger] names[i])
    } else {
        true
    }
}

/// Whether `m1` is what handling a config group that succeeds may leave of
/// `m0`: a fuzzer group keeps the fuzzer it describes under its name; a
/// chain group keeps, under its name, a chain at step 0 of the fuzzers it
/// names, in order; other groups change nothing.
pub open spec fn group_done(ls: Seq<Seq<char>>, m0: RtmView, m1: RtmView) -> bool {
    let la = seq_split_all(ls[0], ':');
    let name = trim_seq(la[2]);
    if la[0] == "FuzzerType"@ {
        &&& exists|f: Fuzzer| fuzzer_from_cfg(la[1], ls, f) && #[trigger] m0.fuzzers.insert(name, f) == m1.fuzzers
        &&& m1.chains == m0.chains
    } else if la[0] == "FuzzChain"@ {
        let names = chain_names(ls);
        &&& m1.fuzzers == m0.fuzzers
        &&& m1.chains.dom() == m0.chains.dom().insert(name)
        &&& m1.chains[name].cur_step() == 0
        &&& m1.chains[name].fuzzers().len() == names.len()
        &&& forall|i: int| 0 <= i < names.len()
            ==> (#[trigger] m1.chains[name].fuzzers()[i]).same_as(&m0.fuzzers[names[i]])
        &&& forall|k: Seq<char>| k != name && m0.chains.dom().contains(k) ==> #[trigger] m1.chains[k] == m0.chains[k]
    } else {
        m1 == m0
    }
}

/// Whether `m1` is what handling the config groups of a config file's lines,
/// from line `i` on, may leave of `m0`, with every group handled
/// successfully (see `cfg_scan`, `group_ok` and `group_done`).
pub open spec fn cfg_loaded(lines: Seq<Seq<char>>, i: int, m0: RtmView, m1: RtmView) -> bool
    decreases lines.len() - i,
{
    match cfg_scan(lines, i, Seq::empty()) {
        None => false,
        Some((g, j)) => if g.len() == 0 {
            m1 == m0
        } else if !group_ok(g, m0.fuzzers) {
            false
        } else if j <= i || i < 0 || j > lines.len() {
            group_done(g, m0, m1)
        } else {
            exists|mid: RtmView| #[trigger] group_done(g, m0, mid) && cfg_loaded(lines, j, mid, m1)
        },
    }
}

/// Keeps the fuzzers and the fuzz chains made from config groups, by name.
pub struct RunTimeManager {
    fuzzers: StrMap<Fuzzer>,
    fchains: StrMap<FuzzChain>,
}

impl RunTimeManager {
    /// The fuzzers, by name.
    pub closed spec fn fuzzers_map(&self) -> Map<Seq<char>, Fuzzer> {
        self.fuzzers.view()
    }

    /// The fuzz chains, by name.
    pub closed spec fn fchains_map(&self) -> Map<Seq<char>, FuzzChain> {
        self.fchains.view()
    }

    /// The fuzzers and the fuzz chains kept.
    pub open spec fn view(&self) -> RtmView {
        RtmView { fuzzers: self.fuzzers_map(), chains: self.fchains_map() }
    }

    /// A manager with no fuzzers and no chains.
    pub fn new() -> (r: RunTimeManager)
        ensures
            r.fuzzers_map() == Map::<Seq<char>, Fuzzer>::empty(),
            r.fchains_map() == Map::<Seq<char>, FuzzChain>::empty(),
    {
        RunTimeManager { fuzzers: StrMap::new(), fchains: StrMap::new() }
    }

    /// The fuzz chain of the given name, if there is one.
    pub fn fchain(&mut self, name: &str) -> (r: Option<&mut FuzzChain>)
        ensures
            match r {
                Some(c) => old(self).fchains_map().dom().contains(name@) && *c == old(self).fchains_map()[name@]
                    && final(self).fchains_map() == old(self).fchains_map().insert(name@, *final(c))
                    && final(self).fuzzers_map() == old(self).fuzzers_map(),
                None => !old(self).fchains_map().dom().contains(name@) && final(self).fchains_map() == old(self).fchains_map()
                    && final(self).fuzzers_map() == old(self).fuzzers_map(),
            },
    {
        let key = String::from_str(name);
        self.fchains.get_mut(&key)
    }

    /// Generates data with the fuzz chain of the given name (see
    /// `FuzzChain::get`); nothing for an unknown chain or one with a fuzzer
    /// that can not generate.
    pub fn fchain_get(&mut self, name: &String, step: Option<usize>) -> (r: Option<Vec<u8>>)
        requires
            step is Some,
        ensures
            final(self).fuzzers_map() == old(self).fuzzers_map(),
            final(self).fchains_map().dom() == old(self).fchains_map().dom(),
            match r {
                Some(b) => old(self).fchains_map().dom().contains(name@)
                    && old(self).fchains_map()[name@].ready()
                    && crate::chain_emits(old(self).fchains_map()[name@].fuzzers(), step.unwrap(), b@)
                    && final(self).fchains_map() == old(self).fchains_map().insert(name@, final(self).fchains_map()[name@])
                    && final(self).fchains_map()[name@].fuzzers() == old(self).fchains_map()[name@].fuzzers()
                    && final(self).fchains_map()[name@].cur_step() == step.unwrap(),
                None => !(old(self).fchains_map().dom().contains(name@) && old(self).fchains_map()[name@].ready())
                    && final(self).fchains_map() == old(self).fchains_map(),
            },
    {
        match self.fchains.get_mut(name) {
            Some(c) => {
                if !c.is_ready() {
                    return None;
                }
                let b = c.get(step);
                Some(b)
            },
            None => None,
        }
    }

    fn make_fuzzer(kind: &Vec<char>, cg: &mut VecDeque<String>) -> (r: Result<Fuzzer, String>)
        ensures
            match r {
                Ok(f) => fuzzer_cfg_ok(kind@, lines_of(old(cg)@)) && fuzzer_from_cfg(kind@, lines_of(old(cg)@), f),
                Err(_) => !fuzzer_cfg_ok(kind@, lines_of(old(cg)@)),
            },
    {
        let k1 = str_chars("LoopFixedStringsFuzzer");
        let k2 = str_chars("RandomFixedStringsFuzzer");
        let k3 = str_chars("RandomRandomFuzzer");
        let k4 = str_chars("RandomFixedFuzzer");
        let k5 = str_chars("RandomFixedFuzzerPrintables");
        let k6 = str_chars("Buf8sRandomizeFuzzer");
        if chars_eq(kind.as_slice(), k1.as_slice()) {
            let f = LoopFixedStringsFuzzer::from_vs(cg)?;
            Ok(Fuzzer::LoopFixedStrings(f))
        } else if chars_eq(kind.as_slice(), k2.as_slice()) {
            let f = RandomFixedStringsFuzzer::from_vs(cg)?;
            Ok(Fuzzer::RandomFixedStrings(f))
        } else if chars_eq(kind.as_slice(), k3.as_slice()) {
            let f = RandomRandomFuzzer::from_vs(cg)?;
            Ok(Fuzzer::RandomRandom(f))
        } else if chars_eq(kind.as_slice(), k4.as_slice()) || chars_eq(kind.as_slice(), k5.as_slice()) {
            let f = RandomFixedFuzzer::from_vs(cg)?;
            Ok(Fuzzer::RandomFixed(f))
        } else if chars_eq(kind.as_slice(), k6.as_slice()) {
            let f = Buf8sRandomizeFuzzer::from_vs(cg)?;
            Ok(Fuzzer::Buf8sRandomize(f))
        } else {
            Err(String::from_str("ERRR:RunTimeManager:HandleCfgGroup:UnknownFuzzer"))
        }
    }

    /// Handles a config group: `FuzzerType:<Type>:<Name>` makes a fuzzer of
    /// the given type and keeps it under the name; `FuzzChain:<Any>:<Name>`
    /// makes a chain of the fuzzers named on its other lines and keeps it
    /// under the name; other groups are left alone. The fuzzer type must be
    /// a known one, and the fuzzers that a chain names must be kept.
    pub fn handle_group(&mut self, cg: &mut VecDeque<String>) -> (r: Result<(), String>)
        requires
            group_known(lines_of(old(cg)@), old(self).fuzzers_map()),
        ensures
            r is Ok <==> group_ok(lines_of(old(cg)@), old(self).fuzzers_map()),
            r is Ok ==> group_done(lines_of(old(cg)@), old(self).view(), final(self).view()),
            r is Err ==> *final(self) == *old(self),
    {
        let ghost ls = lines_of(cg@);
        if cg.len() == 0 {
            return Err(String::from_str("ERRR:RunTimeManager:HandleCfgGroup:Empty config group"));
        }
        let l = string_chars(&cg[0]);
        assert(l@ == ls[0]);
        let la = chars_split_all(l.as_slice(), ':');
        if la.len() < 3 {
            return Err(String::from_str("ERRR:RunTimeManager:HandleCfgGroup:Group header needs three parts"));
        }
        assert(la.deep_view()[0] =~= la[0]@);
        assert(la.deep_view()[1] =~= la[1]@);
        assert(la.deep_view()[2] =~= la[2]@);
        let namec = trim_chars(la[2].as_slice());
        let name = string_from_chars(namec.as_slice());
        let tf = str_chars("FuzzerType");
        let tc = str_chars("FuzzChain");
        if chars_eq(la[0].as_slice(), tf.as_slice()) {
            let f = Self::make_fuzzer(&la[1], cg)?;
            let ghost m0 = self.view();
            let ghost nm = name@;
            self.fuzzers.insert(name, f);
            assert(m0.fuzzers.insert(nm, f) == self.view().fuzzers);
            Ok(())
        } else if chars_eq(la[0].as_slice(), tc.as_slice()) {
            let mut fc = FuzzChain::new();
            let mut i: usize = 1;
            let ghost names = chain_names(ls);
            while i < cg.len()
                invariant
                    1 <= i <= cg@.len(),
                    ls == lines_of(cg@),
                    cg@ == old(cg)@,
                    ls == lines_of(old(cg)@),
                    self.fuzzers_map() == old(self).fuzzers_map(),
                    self.fchains_map() == old(self).fchains_map(),
                    la.deep_view() == seq_split_all(ls[0], ':'),
                    la@.len() >= 3,
                    la.deep_view()[0] == "FuzzChain"@,
                    la.deep_view()[0] != "FuzzerType"@,
                    name@ == trim_seq(la.deep_view()[2]),
                    ls.len() > 0,
                    names == chain_names(ls),
                    fc.cur_step() == 0,
                    fc.fuzzers().len() == i - 1,
                    forall|j: int| 0 <= j < names.len() ==> self.fuzzers_map().dom().contains(#[trigger] names[j]),
                    forall|j: int| 0 <= j < i - 1 ==> (#[trigger] fc.fuzzers()[j]).same_as(&self.fuzzers_map()[names[j]]),
                decreases cg.len() - i,
            {
                let lc = string_chars(&cg[i]);
                let nc = trim_chars(lc.as_slice());
                let fname = string_from_chars(nc.as_slice());
                assert(fname@ == names[i - 1]);
                let f = self.fuzzers.get(&fname).unwrap();
                let d = f.duplicate();
                proof {
                    d.lemma_same_as(f);
                }
                fc.append(d);
                i = i + 1;
            }
            self.fchains.insert(name, fc);
            Ok(())
        } else {
            Ok(())
        }
    }
}

impl RunTimeManager {
    /// Whether a config group names only known things (see `group_known`).
    pub fn group_known_exec(&self, cg: &VecDeque<String>) -> (b: bool)
        ensures
            b == group_known(lines_of(cg@), self.fuzzers_map()),
    {
        let ghost ls = lines_of(cg@);
        if cg.len() == 0 {
            return true;
        }
        let l = string_chars(&cg[0]);
        assert(l@ == ls[0]);
        let la = chars_split_all(l.as_slice(), ':');
        if la.len() < 3 {
            return true;
        }
        assert(la.deep_view()[0] =~= la[0]@);
        assert(la.deep_view()[1] =~= la[1]@);
        let tf = str_chars("FuzzerType");
        let tc = str_chars("FuzzChain");
        proof {
            reveal_strlit("FuzzerType");
            reveal_strlit("FuzzChain");
        }
        if chars_eq(la[0].as_slice(), tf.as_slice()) {
            let k = la[1].as_slice();
            chars_are(k, "LoopFixedStringsFuzzer") || chars_are(k, "RandomFixedStringsFuzzer")
                || chars_are(k, "RandomRandomFuzzer") || chars_are(k, "RandomFixedFuzzer")
                || chars_are(k, "RandomFixedFuzzerPrintables") || chars_are(k, "Buf8sRandomizeFuzzer")
        } else if chars_eq(la[0].as_slice(), tc.as_slice()) {
            let ghost names = chain_names(ls);
            let mut i: usize = 1;
            while i < cg.len()
                invariant
                    1 <= i <= cg@.len(),
                    ls == lines_of(cg@),
                    ls.len() > 0,
                    la.deep_view() == seq_split_all(ls[0], ':'),
                    la@.len() >= 3,
                    la.deep_view()[0] == "FuzzChain"@,
                    names == chain_names(ls),
                    forall|j: int| 0 <= j < i - 1 ==> self.fuzzers_map().dom().contains(#[trigger] names[j]),
                decreases cg.len() - i,
            {
                let lc = string_chars(&cg[i]);
                let nc = trim_chars(lc.as_slice());
                let fname = string_from_chars(nc.as_slice());
                assert(fname@ == names[i - 1]);
                if !self.fuzzers.contains_key(&fname) {
                    assert(!self.fuzzers_map().dom().contains(chain_names(ls)[i - 1]));
                    return false;
                }
                i = i + 1;
            }
            true
        } else {
            true
        }
    }

    /// Handles a config group (see `handle_group`), first checking that it
    /// names only known things; fails, leaving the manager as it was, where
    /// it does not.
    pub fn handle_checked(&mut self, cg: &mut VecDeque<String>) -> (r: Result<(), String>)
        ensures
            r is Ok <==> group_ok(lines_of(old(cg)@), old(self).fuzzers_map()),
            r is Ok ==> group_done(lines_of(old(cg)@), old(self).view(), final(self).view()),
            r is Err ==> *final(self) == *old(self),
    {
        proof {
            reveal_strlit("FuzzerType");
            reveal_strlit("FuzzChain");
        }
        proof {
            lemma_ok_is_known(lines_of(cg@), self.fuzzers_map());
        }
        if !self.group_known_exec(cg) {
            return Err(String::from_str("ERRR:RunTimeManager:HandleCfgGroup:Unknown fuzzer type or reference to unknown fuzzer"));
        }
        self.handle_group(cg)
    }
}

/// Whether two sets of fuzzers have the same names.
pub open spec fn fz_alike(f1: Map<Seq<char>, Fuzzer>, f2: Map<Seq<char>, Fuzzer>) -> bool {
    f1.dom() == f2.dom()
}

/// Whether a group succeeds depends on the fuzzers only through their names.
proof fn lemma_group_ok_alike(g: Seq<Seq<char>>, f1: Map<Seq<char>, Fuzzer>, f2: Map<Seq<char>, Fuzzer>)
    requires
        fz_alike(f1, f2),
    ensures
        group_ok(g, f1) == group_ok(g, f2),
{
}

/// Handling a group in two states with the same fuzzer names leaves states
/// with the same fuzzer names.
proof fn lemma_group_done_alike(g: Seq<Seq<char>>, m1: RtmView, m2: RtmView, n1: RtmView, n2: RtmView)
    requires
        fz_alike(m1.fuzzers, m2.fuzzers),
        group_done(g, m1, n1),
        group_done(g, m2, n2),
    ensures
        fz_alike(n1.fuzzers, n2.fuzzers),
{
    let la = seq_split_all(g[0], ':');
    let name = trim_seq(la[2]);
    if la[0] == "FuzzerType"@ {
        let f1 = choose|f: Fuzzer| fuzzer_from_cfg(la[1], g, f) && #[trigger] m1.fuzzers.insert(name, f) == n1.fuzzers;
        let f2 = choose|f: Fuzzer| fuzzer_from_cfg(la[1], g, f) && #[trigger] m2.fuzzers.insert(name, f) == n2.fuzzers;
        assert(n1.fuzzers.dom() =~= n2.fuzzers.dom());
    }
}

impl RunTimeManager {
    /// Handles the config groups of a config file's lines, in order,
    /// stopping at the first error (see `cfg_loaded`): it succeeds exactly
    /// when the groups can all be handled.
    pub fn load_lines(&mut self, lines: &Vec<String>) -> (r: Result<(), String>)
        ensures
            r is Ok ==> cfg_loaded(lines_of(lines@), 0, old(self).view(), final(self).view()),
            r is Err ==> forall|m1: RtmView| !cfg_loaded(lines_of(lines@), 0, old(self).view(), m1),
    {
        let ghost ls = lines_of(lines@);
        let ghost m0 = self.view();
        let mut pos: usize = 0;
        loop
            invariant
                ls == lines_of(lines@),
                m0 == old(self).view(),
                forall|m1: RtmView| cfg_loaded(ls, pos as int, self.view(), m1) ==> #[trigger] cfg_loaded(ls, 0, m0, m1),
                forall|m1: RtmView| #[trigger] cfg_loaded(ls, 0, m0, m1) ==> exists|s: RtmView|
                    fz_alike(s.fuzzers, self.view().fuzzers) && #[trigger] cfg_loaded(ls, pos as int, s, m1),
            decreases lines@.len() - pos,
        {
            let ghost cur = self.view();
            let (mut cg, np) = match get_cfggroup(lines, pos) {
                Ok(p) => p,
                Err(e) => {
                    proof {
                        assert forall|m1: RtmView| !cfg_loaded(ls, 0, m0, m1) by {
                            if cfg_loaded(ls, 0, m0, m1) {
                                let s = choose|s: RtmView| fz_alike(s.fuzzers, cur.fuzzers) && #[trigger] cfg_loaded(ls, pos as int, s, m1);
                                assert(cfg_loaded(ls, pos as int, s, m1));
                            }
                        }
                    }
                    return Err(e);
                },
            };
            proof {
                lemma_cfg_scan_moves(ls, pos as int, Seq::empty());
            }
            if cg.len() == 0 {
                assert(lines_of(cg@).len() == 0);
                assert(cfg_loaded(ls, pos as int, self.view(), self.view()));
                return Ok(());
            }
            let ghost before = self.view();
            let ghost g = lines_of(cg@);
            match self.handle_checked(&mut cg) {
                Ok(()) => {},
                Err(e) => {
                    proof {
                        assert forall|m1: RtmView| !cfg_loaded(ls, 0, m0, m1) by {
                            if cfg_loaded(ls, 0, m0, m1) {
                                let s = choose|s: RtmView| fz_alike(s.fuzzers, cur.fuzzers) && #[trigger] cfg_loaded(ls, pos as int, s, m1);
                                lemma_group_ok_alike(g, s.fuzzers, cur.fuzzers);
                                assert(cfg_loaded(ls, pos as int, s, m1));
                            }
                        }
                    }
                    return Err(e);
                },
            }
            if np <= pos || np > lines.len() {
                assert(cfg_loaded(ls, pos as int, before, self.view()));
                return Ok(());
            }
            proof {
                let after = self.view();
                assert forall|m1: RtmView| cfg_loaded(ls, np as int, after, m1) implies #[trigger] cfg_loaded(ls, 0, m0, m1) by {
                    assert(group_done(g, before, after));
                    assert(cfg_loaded(ls, pos as int, before, m1));
                }
                assert forall|m1: RtmView| #[trigger] cfg_loaded(ls, 0, m0, m1) implies exists|s: RtmView|
                    fz_alike(s.fuzzers, after.fuzzers) && #[trigger] cfg_loaded(ls, np as int, s, m1) by {
                    let s = choose|s: RtmView| fz_alike(s.fuzzers, cur.fuzzers) && #[trigger] cfg_loaded(ls, pos as int, s, m1);
                    assert(cfg_loaded(ls, pos as int, s, m1));
                    lemma_group_ok_alike(g, s.fuzzers, cur.fuzzers);
                    let mid = choose|mid: RtmView| #[trigger] group_done(g, s, mid) && cfg_loaded(ls, np as int, mid, m1);
                    lemma_group_done_alike(g, s, before, mid, after);
                    assert(fz_alike(mid.fuzzers, after.fuzzers) && cfg_loaded(ls, np as int, mid, m1));
                }
            }
            pos = np;
        }
    }
}

impl HandleCfgGroup for RunTimeManager {
    /// See `group_ok`.
    open spec fn accepts(&self, lines: Seq<Seq<char>>) -> bool {
        group_ok(lines, self.fuzzers_map())
    }

    /// See `group_done`.
    open spec fn handles(&self, lines: Seq<Seq<char>>, after: RunTimeManager) -> bool {
        group_done(lines, self.view(), after.view())
    }

    fn handle_cfggroup(&mut self, vs: &mut VecDeque<String>) -> (r: Result<(), String>) {
        self.handle_checked(vs)
    }
}

} // verus!
