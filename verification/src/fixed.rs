//! Fuzzers that hand out data from a fixed list.

use vstd::prelude::*;
use crate::fuzz::Fuzz;
use crate::rng::random_usize;
use std::collections::VecDeque;
use crate::cfgfiles::{FromVecStrings, lines_of, front_spaces, values_of};

verus! {

/// Appends the bytes of `src` to `buf`.
pub fn append_bytes(buf: &mut Vec<u8>, src: &[u8])
    ensures
        final(buf)@ == old(buf)@ + src@,
{
    let mut i: usize = 0;
    while i < src.len()
        invariant
            i <= src@.len(),
            buf@ == old(buf)@ + src@.subrange(0, i as int),
        decreases src.len() - i,
    {
        buf.push(src[i]);
        i = i + 1;
    }
    assert(src@.subrange(0, src@.len() as int) =~= src@);
}

/// A copy of a byte buffer.
pub fn copy_bytes(v: &Vec<u8>) -> (r: Vec<u8>)
    ensures
        r@ == v@,
{
    let mut r: Vec<u8> = Vec::new();
    append_bytes(&mut r, v.as_slice());
    assert(r@ =~= v@);
    r
}

/// A copy of a list of byte buffers.
pub fn copy_bufs(v: &Vec<Vec<u8>>) -> (r: Vec<Vec<u8>>)
    ensures
        r.deep_view() == v.deep_view(),
{
    let mut r: Vec<Vec<u8>> = Vec::new();
    let mut i: usize = 0;
    while i < v.len()
        invariant
            i <= v@.len(),
            r.deep_view() == v.deep_view().subrange(0, i as int),
        decreases v.len() - i,
    {
        let b = copy_bytes(&v[i]);
        let ghost old_r = r.deep_view();
        r.push(b);
        assert(r.deep_view() =~= old_r.push(b@)) by {
            assert(r.deep_view()[old_r.len() as int] =~= b@);
        }
        assert(v.deep_view()[i as int] =~= v@[i as int]@);
        assert(v.deep_view().subrange(0, i + 1) =~= v.deep_view().subrange(0, i as int).push(v.deep_view()[i as int]));
        i = i + 1;
    }
    assert(v.deep_view().subrange(0, v@.len() as int) =~= v.deep_view());
    r
}

pub proof fn lemma_appended(old_buf: Seq<u8>, piece: Seq<u8>)
    ensures
        (old_buf + piece).subrange(0, old_buf.len() as int) == old_buf,
        (old_buf + piece).subrange(old_buf.len() as int, (old_buf + piece).len() as int) == piece,
{
    assert((old_buf + piece).subrange(0, old_buf.len() as int) =~= old_buf);
    assert((old_buf + piece).subrange(old_buf.len() as int, (old_buf + piece).len() as int) =~= piece);
}

/// Loops through a predefined list of byte strings, in the given order: the
/// step selects the entry (step modulo the list's length).
#[derive(Clone, Debug)]
pub struct LoopFixedStringsFuzzer {
    list: Vec<Vec<u8>>,
    curi: usize,
}

impl LoopFixedStringsFuzzer {
    /// The entries of the list.
    pub closed spec fn items(&self) -> Seq<Seq<u8>> {
        self.list.deep_view()
    }

    /// Makes a fuzzer over the given list.
    pub fn new(fixed_list: Vec<Vec<u8>>) -> (r: LoopFixedStringsFuzzer)
        ensures
            r.items() == fixed_list.deep_view(),
    {
        LoopFixedStringsFuzzer { list: fixed_list, curi: 0 }
    }

    /// A copy of the fuzzer.
    pub fn duplicate(&self) -> (r: LoopFixedStringsFuzzer)
        ensures
            r.items() == self.items(),
    {
        LoopFixedStringsFuzzer { list: copy_bufs(&self.list), curi: self.curi }
    }
}

impl Fuzz for LoopFixedStringsFuzzer {
    /// The entry at `step` modulo the list's length; nothing for an empty list.
    open spec fn emits(&self, step: usize, out: Seq<u8>) -> bool {
        if self.items().len() == 0 {
            out == Seq::<u8>::empty()
        } else {
            out == self.items()[step as int % self.items().len() as int]
        }
    }

    open spec fn fuzz_ready(&self) -> bool {
        true
    }

    open spec fn fuzz_ready_mut(&self) -> bool {
        self.items().len() > 0
    }

    fn append_fuzzed_immut(&self, step: usize, buf: &mut Vec<u8>) {
        proof {
            lemma_appended(old(buf)@, Seq::empty());
        }
        if self.list.len() == 0 {
            assert(old(buf)@ + Seq::<u8>::empty() =~= old(buf)@);
            return;
        }
        let curi = step % self.list.len();
        let tosend = &self.list[curi];
        assert(self.items()[curi as int] =~= tosend@);
        append_bytes(buf, tosend.as_slice());
        proof {
            lemma_appended(old(buf)@, tosend@);
        }
    }

    fn append_fuzzed(&mut self, step: usize, buf: &mut Vec<u8>) {
        proof {
            assert(self.list@.len() == self.items().len());
        }
        self.curi = step % self.list.len();
        self.append_fuzzed_immut(step, buf);
    }
}

/// Called at the steps one after another, a loop fuzzer gives its entries
/// in order and starts again from the first after the last: the step after
/// the one that gives entry `k` gives entry `k + 1`, or the first entry
/// after the last.
pub proof fn law_loop_fixed_next(f: LoopFixedStringsFuzzer, step: usize)
    requires
        f.items().len() > 0,
        step < usize::MAX,
    ensures
        f.emits(step, f.items()[step as int % f.items().len() as int]),
        ({
            let k = step as int % f.items().len() as int;
            f.emits((step + 1) as usize, f.items()[if k + 1 < f.items().len() { k + 1 } else { 0 }])
        }),
{
    let n = f.items().len() as int;
    let k = step as int % n;
    assert((step as int + 1) % n == (if k + 1 < n { k + 1 } else { 0 })) by (nonlinear_arith)
        requires
            n > 0,
            step >= 0,
            k == step as int % n,
    {
        assert(step as int == (step as int / n) * n + k);
        if k + 1 < n {
            assert(step as int + 1 == (step as int / n) * n + (k + 1));
        } else {
            assert(step as int + 1 == (step as int / n + 1) * n);
        }
    };
}

/// Picks an entry of a predefined list of byte strings at random.
#[derive(Clone, Debug)]
pub struct RandomFixedStringsFuzzer {
    list: Vec<Vec<u8>>,
}

impl RandomFixedStringsFuzzer {
    /// The entries of the list.
    pub closed spec fn items(&self) -> Seq<Seq<u8>> {
        self.list.deep_view()
    }

    /// Makes a fuzzer over the given list.
    pub fn new(fixed_list: Vec<Vec<u8>>) -> (r: RandomFixedStringsFuzzer)
        ensures
            r.items() == fixed_list.deep_view(),
    {
        RandomFixedStringsFuzzer { list: fixed_list }
    }

    /// A copy of the fuzzer.
    pub fn duplicate(&self) -> (r: RandomFixedStringsFuzzer)
        ensures
            r.items() == self.items(),
    {
        RandomFixedStringsFuzzer { list: copy_bufs(&self.list) }
    }

    /// Appends the entry that the random draw `pick` selects (`pick` modulo
    /// the list's length); nothing for an empty list.
    pub fn append_picked(&self, pick: usize, buf: &mut Vec<u8>)
        ensures
            self.items().len() == 0 ==> final(buf)@ == old(buf)@,
            self.items().len() > 0 ==> final(buf)@ == old(buf)@ + self.items()[pick as int
                % self.items().len() as int],
    {
        if self.list.len() == 0 {
            return;
        }
        let curi = pick % self.list.len();
        assert(self.items()[curi as int] =~= self.list[curi as int]@);
        append_bytes(buf, self.list[curi].as_slice());
    }
}

impl Fuzz for RandomFixedStringsFuzzer {
    /// Some entry of the list; nothing for an empty list.
    open spec fn emits(&self, step: usize, out: Seq<u8>) -> bool {
        if self.items().len() == 0 {
            out == Seq::<u8>::empty()
        } else {
            exists|k: int| 0 <= k < self.items().len() && out == #[trigger] self.items()[k]
        }
    }

    open spec fn fuzz_ready(&self) -> bool {
        true
    }

    open spec fn fuzz_ready_mut(&self) -> bool {
        true
    }

    fn append_fuzzed_immut(&self, step: usize, buf: &mut Vec<u8>) {
        let pick = random_usize();
        self.append_picked(pick, buf);
        proof {
            if self.items().len() == 0 {
                lemma_appended(old(buf)@, Seq::empty());
                assert(old(buf)@ + Seq::<u8>::empty() =~= old(buf)@);
            } else {
                let k = pick as int % self.items().len() as int;
                lemma_appended(old(buf)@, self.items()[k]);
            }
        }
    }

    fn append_fuzzed(&mut self, step: usize, buf: &mut Vec<u8>) {
        self.append_fuzzed_immut(step, buf)
    }
}

/// The list that a config group gives a fixed strings fuzzer: the values of
/// its `list` entry, after the group's first line.
pub open spec fn list_from_cfg(lines: Seq<Seq<char>>) -> Option<Seq<Seq<u8>>> {
    if lines.len() == 0 {
        None
    } else {
        let l1 = lines.drop_first();
        match values_of(l1, "list"@, front_spaces(l1)) {
            Some((v, _)) => Some(v),
            None => None,
        }
    }
}

impl FromVecStrings for LoopFixedStringsFuzzer {
    fn get_name() -> (r: String)
        ensures
            r@ == "LoopFixedStringsFuzzer"@,
    {
        String::from_str("LoopFixedStringsFuzzer")
    }

    /// Makes the fuzzer from a config group: the first line names it, then a
    /// `list` entry gives the strings.
    fn from_vs(vs: &mut VecDeque<String>) -> (r: Result<LoopFixedStringsFuzzer, String>)
        ensures
            match r {
                Ok(f) => list_from_cfg(lines_of(old(vs)@)) == Some(f.items()),
                Err(_) => list_from_cfg(lines_of(old(vs)@)) is None,
            },
    {
        let ghost l0 = lines_of(vs@);
        let l = vs.pop_front();
        if l.is_none() {
            return Err(String::from_str("ERRR:LoopFixedStringsFuzzer:FromStringVec:Got empty vector"));
        }
        assert(lines_of(vs@) =~= l0.drop_first());
        let spacesprefix = Self::get_spacesprefix(vs);
        let fixedlist = Self::get_values(vs, "list", spacesprefix)?;
        Ok(LoopFixedStringsFuzzer::new(fixedlist))
    }
}

impl FromVecStrings for RandomFixedStringsFuzzer {
    fn get_name() -> (r: String)
        ensures
            r@ == "RandomFixedStringsFuzzer"@,
    {
        String::from_str("RandomFixedStringsFuzzer")
    }

    /// Makes the fuzzer from a config group: the first line names it, then a
    /// `list` entry gives the strings.
    fn from_vs(vs: &mut VecDeque<String>) -> (r: Result<RandomFixedStringsFuzzer, String>)
        ensures
            match r {
                Ok(f) => list_from_cfg(lines_of(old(vs)@)) == Some(f.items()),
                Err(_) => list_from_cfg(lines_of(old(vs)@)) is None,
            },
    {
        let ghost l0 = lines_of(vs@);
        let l = vs.pop_front();
        if l.is_none() {
            return Err(String::from_str("ERRR:RandomFixedStringsFuzzer:FromStringVec:Got empty vector"));
        }
        assert(lines_of(vs@) =~= l0.drop_first());
        let spacesprefix = Self::get_spacesprefix(vs);
        let fixedlist = Self::get_values(vs, "list", spacesprefix)?;
        Ok(RandomFixedStringsFuzzer::new(fixedlist))
    }
}

} // verus!
