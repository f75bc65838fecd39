//! The fuzzer interface and the closed set of fuzzers that chains hold.

use vstd::prelude::*;
use crate::fixed::{LoopFixedStringsFuzzer, RandomFixedStringsFuzzer};
use crate::random::{RandomRandomFuzzer, RandomFixedFuzzer, Buf8sRandomizeFuzzer};

verus! {

/// What the fuzzers provide: each call appends one fuzzed piece of data to a buffer.
pub trait Fuzz {
    /// Whether `out` is a piece of data that this fuzzer may append when called
    /// with the given step.
    spec fn emits(&self, step: usize, out: Seq<u8>) -> bool;

    /// What the fuzzer needs to hold for `append_fuzzed_immut` to be called.
    spec fn fuzz_ready(&self) -> bool;

    /// What the fuzzer needs to hold for `append_fuzzed` to be called.
    spec fn fuzz_ready_mut(&self) -> bool;

    /// Generates the next fuzzed output and appends it to `buf`; the fuzzer may
    /// update itself.
    fn append_fuzzed(&mut self, step: usize, buf: &mut Vec<u8>)
        requires
            old(self).fuzz_ready_mut(),
        ensures
            old(buf)@.len() <= final(buf)@.len(),
            final(buf)@.subrange(0, old(buf)@.len() as int) == old(buf)@,
            old(self).emits(step, final(buf)@.subrange(old(buf)@.len() as int, final(buf)@.len() as int)),
            final(self).fuzz_ready_mut(),
            forall|st: usize, o: Seq<u8>| final(self).emits(st, o) == old(self).emits(st, o),
    ;

    /// Generates the next fuzzed output and appends it to `buf`; the fuzzer
    /// stays as it is.
    fn append_fuzzed_immut(&self, step: usize, buf: &mut Vec<u8>)
        requires
            self.fuzz_ready(),
        ensures
            old(buf)@.len() <= final(buf)@.len(),
            final(buf)@.subrange(0, old(buf)@.len() as int) == old(buf)@,
            self.emits(step, final(buf)@.subrange(old(buf)@.len() as int, final(buf)@.len() as int)),
    ;

    /// Whether a chain must call `append_fuzzed` rather than
    /// `append_fuzzed_immut`; no fuzzer of this library needs it.
    fn need_mutable(&self) -> (b: bool)
        ensures
            !b,
    {
        false
    }
}

/// One of the fuzzers that the library provides.
#[derive(Clone, Debug)]
pub enum Fuzzer {
    LoopFixedStrings(LoopFixedStringsFuzzer),
    RandomFixedStrings(RandomFixedStringsFuzzer),
    RandomRandom(RandomRandomFuzzer),
    RandomFixed(RandomFixedFuzzer),
    Buf8sRandomize(Buf8sRandomizeFuzzer),
}

impl Fuzzer {
    /// Whether two fuzzers are of the same kind with the same settings.
    pub open spec fn same_as(&self, other: &Fuzzer) -> bool {
        match (self, other) {
            (Fuzzer::LoopFixedStrings(a), Fuzzer::LoopFixedStrings(b)) => a.items() == b.items(),
            (Fuzzer::RandomFixedStrings(a), Fuzzer::RandomFixedStrings(b)) => a.items() == b.items(),
            (Fuzzer::RandomRandom(a), Fuzzer::RandomRandom(b)) => a.min_len() == b.min_len() && a.max_len() == b.max_len(),
            (Fuzzer::RandomFixed(a), Fuzzer::RandomFixed(b)) => a.min_len() == b.min_len() && a.max_len() == b.max_len()
                && a.chars() == b.chars(),
            (Fuzzer::Buf8sRandomize(a), Fuzzer::Buf8sRandomize(b)) => a.bufs() == b.bufs() && a.rand_count() == b.rand_count()
                && a.start_offset() == b.start_offset() && a.end_offset() == b.end_offset()
                && a.start_val() == b.start_val() && a.end_val() == b.end_val(),
            _ => false,
        }
    }

    /// Fuzzers with the same settings generate alike.
    pub proof fn lemma_same_as(&self, other: &Fuzzer)
        requires
            self.same_as(other),
        ensures
            self.fuzz_ready() == other.fuzz_ready(),
            forall|st: usize, o: Seq<u8>| self.emits(st, o) == other.emits(st, o),
    {
    }

    /// A copy of the fuzzer.
    pub fn duplicate(&self) -> (r: Fuzzer)
        ensures
            r.same_as(self),
    {
        match self {
            Fuzzer::LoopFixedStrings(f) => Fuzzer::LoopFixedStrings(f.duplicate()),
            Fuzzer::RandomFixedStrings(f) => Fuzzer::RandomFixedStrings(f.duplicate()),
            Fuzzer::RandomRandom(f) => Fuzzer::RandomRandom(f.duplicate()),
            Fuzzer::RandomFixed(f) => Fuzzer::RandomFixed(f.duplicate()),
            Fuzzer::Buf8sRandomize(f) => Fuzzer::Buf8sRandomize(f.duplicate()),
        }
    }

    /// Whether the fuzzer can generate (see `fuzz_ready`).
    pub fn is_ready(&self) -> (b: bool)
        ensures
            b == self.fuzz_ready(),
    {
        match self {
            Fuzzer::LoopFixedStrings(_) => true,
            Fuzzer::RandomFixedStrings(_) => true,
            Fuzzer::RandomRandom(f) => f.is_ready(),
            Fuzzer::RandomFixed(f) => f.is_ready(),
            Fuzzer::Buf8sRandomize(f) => f.is_ready(),
        }
    }
}

impl Fuzz for Fuzzer {
    open spec fn emits(&self, step: usize, out: Seq<u8>) -> bool {
        match self {
            Fuzzer::LoopFixedStrings(f) => f.emits(step, out),
            Fuzzer::RandomFixedStrings(f) => f.emits(step, out),
            Fuzzer::RandomRandom(f) => f.emits(step, out),
            Fuzzer::RandomFixed(f) => f.emits(step, out),
            Fuzzer::Buf8sRandomize(f) => f.emits(step, out),
        }
    }

    open spec fn fuzz_ready(&self) -> bool {
        match self {
            Fuzzer::LoopFixedStrings(f) => f.fuzz_ready(),
            Fuzzer::RandomFixedStrings(f) => f.fuzz_ready(),
            Fuzzer::RandomRandom(f) => f.fuzz_ready(),
            Fuzzer::RandomFixed(f) => f.fuzz_ready(),
            Fuzzer::Buf8sRandomize(f) => f.fuzz_ready(),
        }
    }

    open spec fn fuzz_ready_mut(&self) -> bool {
        match self {
            Fuzzer::LoopFixedStrings(f) => f.fuzz_ready_mut(),
            Fuzzer::RandomFixedStrings(f) => f.fuzz_ready_mut(),
            Fuzzer::RandomRandom(f) => f.fuzz_ready_mut(),
            Fuzzer::RandomFixed(f) => f.fuzz_ready_mut(),
            Fuzzer::Buf8sRandomize(f) => f.fuzz_ready_mut(),
        }
    }

    fn append_fuzzed(&mut self, step: usize, buf: &mut Vec<u8>) {
        match self {
            Fuzzer::LoopFixedStrings(f) => f.append_fuzzed(step, buf),
            Fuzzer::RandomFixedStrings(f) => f.append_fuzzed(step, buf),
            Fuzzer::RandomRandom(f) => f.append_fuzzed(step, buf),
            Fuzzer::RandomFixed(f) => f.append_fuzzed(step, buf),
            Fuzzer::Buf8sRandomize(f) => f.append_fuzzed(step, buf),
        }
    }

    fn append_fuzzed_immut(&self, step: usize, buf: &mut Vec<u8>) {
        match self {
            Fuzzer::LoopFixedStrings(f) => f.append_fuzzed_immut(step, buf),
            Fuzzer::RandomFixedStrings(f) => f.append_fuzzed_immut(step, buf),
            Fuzzer::RandomRandom(f) => f.append_fuzzed_immut(step, buf),
            Fuzzer::RandomFixed(f) => f.append_fuzzed_immut(step, buf),
            Fuzzer::Buf8sRandomize(f) => f.append_fuzzed_immut(step, buf),
        }
    }
}

} // verus!
