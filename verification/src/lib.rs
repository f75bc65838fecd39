//! Fuzzing helpers: fuzzers, chains of fuzzers, the config files that set
//! them up and a small scriptable virtual machine that drives them.

use vstd::prelude::*;

pub mod text;
pub mod datautils;
pub mod rng;
pub mod fuzz;
pub mod fixed;
pub mod random;
pub mod cfgfiles;
pub mod strmap;
pub mod rtm;
pub mod vm;
pub mod iob;
pub mod cmdline;

use crate::fuzz::{Fuzz, Fuzzer};

verus! {

/// Whether `out` is data that the fuzzers of `chain`, called in order with
/// the given step, may produce together: the concatenation of one piece from
/// each of them.
pub open spec fn chain_emits(chain: Seq<Fuzzer>, step: usize, out: Seq<u8>) -> bool {
    exists|pieces: Seq<Seq<u8>>|
        #[trigger] pieces.flatten() == out && pieces.len() == chain.len()
            && forall|i: int| 0 <= i < chain.len() ==> chain[i].emits(step, #[trigger] pieces[i])
}

/// A chain of fuzzers, whose outputs are put together in order, so that a
/// byte buffer with the required pattern of data can be generated.
pub struct FuzzChain {
    chain: Vec<Fuzzer>,
    /// Lets a fuzzer know (if it wants to) that it is called as part of the
    /// same step, when it is in the chain more than once.
    step: usize,
}

impl FuzzChain {
    /// The fuzzers of the chain, in order.
    pub closed spec fn fuzzers(&self) -> Seq<Fuzzer> {
        self.chain@
    }

    /// The step that the next `get(None)` uses.
    pub closed spec fn cur_step(&self) -> usize {
        self.step
    }

    /// Whether every fuzzer of the chain can generate.
    pub open spec fn ready(&self) -> bool {
        forall|i: int| 0 <= i < self.fuzzers().len() ==> (#[trigger] self.fuzzers()[i]).fuzz_ready()
    }

    /// Whether every fuzzer of the chain can generate (see `ready`).
    pub fn is_ready(&self) -> (b: bool)
        ensures
            b == self.ready(),
    {
        let mut i: usize = 0;
        while i < self.chain.len()
            invariant
                i <= self.chain@.len(),
                forall|j: int| 0 <= j < i ==> (#[trigger] self.chain@[j]).fuzz_ready(),
            decreases self.chain.len() - i,
        {
            if !self.chain[i].is_ready() {
                assert(!self.fuzzers()[i as int].fuzz_ready());
                return false;
            }
            i = i + 1;
        }
        true
    }

    /// Makes an empty chain, at step 0.
    pub fn new() -> (r: FuzzChain)
        ensures
            r.fuzzers().len() == 0,
            r.cur_step() == 0,
    {
        FuzzChain { chain: Vec::new(), step: 0 }
    }

    /// Adds a fuzzer at the end of the chain. The same fuzzer may be added
    /// more than once.
    pub fn append(&mut self, fuzzer: Fuzzer)
        ensures
            final(self).fuzzers() == old(self).fuzzers().push(fuzzer),
            final(self).cur_step() == old(self).cur_step(),
    {
        self.chain.push(fuzzer);
    }

    /// Generates a buffer whose data follows the pattern of the chain: each
    /// fuzzer in turn appends its piece. With `Some(step)` the fuzzers are
    /// called with that step, which becomes the chain's step; with `None` they
    /// are called with the chain's step, which then moves on by one. Every
    /// fuzzer of the chain must be able to generate.
    pub fn get(&mut self, step: Option<usize>) -> (buf: Vec<u8>)
        requires
            old(self).ready(),
            step is Some || old(self).cur_step() < usize::MAX,
        ensures
            final(self).fuzzers() == old(self).fuzzers(),
            chain_emits(old(self).fuzzers(), match step { Some(s) => s, None => old(self).cur_step() }, buf@),
            final(self).cur_step() == match step { Some(s) => s, None => (old(self).cur_step() + 1) as usize },
    {
        let ustep = match step {
            Some(s) => s,
            None => self.step,
        };
        let mut buf: Vec<u8> = Vec::new();
        let mut i: usize = 0;
        let ghost mut pieces: Seq<Seq<u8>> = Seq::empty();
        assert forall|j: int| 0 <= j < self.chain@.len() implies (#[trigger] self.chain@[j]).fuzz_ready() by {
            assert(self.fuzzers()[j] == self.chain@[j]);
        }
        assert(pieces.flatten() =~= buf@);
        while i < self.chain.len()
            invariant
                i <= self.chain@.len(),
                forall|j: int| 0 <= j < self.chain@.len() ==> (#[trigger] self.chain@[j]).fuzz_ready(),
                pieces.flatten() == buf@,
                pieces.len() == i,
                forall|j: int| 0 <= j < i ==> self.chain@[j].emits(ustep, #[trigger] pieces[j]),
            decreases self.chain.len() - i,
        {
            let ghost before = buf@;
            let f = &self.chain[i];
            f.append_fuzzed_immut(ustep, &mut buf);
            proof {
                let piece = buf@.subrange(before.len() as int, buf@.len() as int);
                assert(buf@ =~= before + piece);
                pieces.lemma_flatten_push(piece);
                pieces = pieces.push(piece);
            }
            i = i + 1;
        }
        assert(chain_emits(self.chain@, ustep, buf@));
        if step.is_none() {
            self.step = self.step + 1;
        } else {
            self.step = ustep;
        }
        buf
    }
}

} // verus!
