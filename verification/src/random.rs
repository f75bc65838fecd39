//! Fuzzers that generate random data, or randomly change given data.

use vstd::prelude::*;
use crate::fuzz::Fuzz;
use crate::fixed::{lemma_appended, copy_bytes, copy_bufs};
use crate::rng::{random_usize, random_u8};
use std::collections::VecDeque;
use crate::cfgfiles::{FromVecStrings, lines_of, front_spaces, values_of, num_value, int_value, value_emptyok, after_value};
use crate::text::{seq_split_all, chars_split_all, string_chars, str_chars, chars_eq};

verus! {

/// The length that a draw `raw` selects between `minlen` and `maxlen` (both included).
pub open spec fn picked_len(minlen: usize, maxlen: usize, raw: usize) -> int {
    minlen + raw as int % (maxlen - minlen + 1)
}

/// Whether a length range can be drawn from: `minlen <= maxlen`, and the
/// number of lengths in it fits in a `usize`.
pub open spec fn len_range_ok(minlen: usize, maxlen: usize) -> bool {
    minlen <= maxlen && maxlen - minlen < usize::MAX
}

fn pick_len_in(minlen: usize, maxlen: usize, raw: usize) -> (l: usize)
    requires
        len_range_ok(minlen, maxlen),
    ensures
        l as int == picked_len(minlen, maxlen, raw),
        minlen <= l <= maxlen,
{
    let range = maxlen - minlen + 1;
    minlen + raw % range
}

/// Every length of a range can be drawn, and only those: the draw
/// `l - minlen` gives the length `l`, and every draw gives a length from
/// `minlen` to `maxlen`.
pub proof fn law_picked_len(minlen: usize, maxlen: usize, l: usize, raw: usize)
    requires
        len_range_ok(minlen, maxlen),
    ensures
        minlen <= picked_len(minlen, maxlen, raw) <= maxlen,
        minlen <= l <= maxlen ==> picked_len(minlen, maxlen, (l - minlen) as usize) == l,
{
    let r = maxlen - minlen + 1;
    assert(0 <= raw as int % r < r);
    if minlen <= l <= maxlen {
        assert(((l - minlen) as int) % r == l - minlen) by (nonlinear_arith)
            requires
                0 <= l - minlen < r,
        ;
    }
}

/// Generates a buffer of random bytes, whose length is drawn between a
/// minimum and a maximum length (both included).
#[derive(Clone, Debug)]
pub struct RandomRandomFuzzer {
    minlen: usize,
    maxlen: usize,
}

impl RandomRandomFuzzer {
    pub closed spec fn min_len(&self) -> usize {
        self.minlen
    }

    pub closed spec fn max_len(&self) -> usize {
        self.maxlen
    }

    /// Makes a fuzzer for lengths between `minlen` and `maxlen`.
    pub fn new(minlen: usize, maxlen: usize) -> (r: RandomRandomFuzzer)
        ensures
            r.min_len() == minlen,
            r.max_len() == maxlen,
    {
        RandomRandomFuzzer { minlen, maxlen }
    }

    /// A copy of the fuzzer.
    pub fn duplicate(&self) -> (r: RandomRandomFuzzer)
        ensures
            r.min_len() == self.min_len(),
            r.max_len() == self.max_len(),
    {
        RandomRandomFuzzer { minlen: self.minlen, maxlen: self.maxlen }
    }

    /// Whether the fuzzer can generate (see `fuzz_ready`).
    pub fn is_ready(&self) -> (b: bool)
        ensures
            b == self.fuzz_ready(),
    {
        self.minlen <= self.maxlen && self.maxlen - self.minlen < usize::MAX
    }

    /// The length that the random draw `raw` selects.
    pub fn pick_len(&self, raw: usize) -> (l: usize)
        requires
            len_range_ok(self.min_len(), self.max_len()),
        ensures
            l as int == picked_len(self.min_len(), self.max_len(), raw),
    {
        pick_len_in(self.minlen, self.maxlen, raw)
    }
}

impl Fuzz for RandomRandomFuzzer {
    /// Any bytes, of a length between the limits.
    open spec fn emits(&self, step: usize, out: Seq<u8>) -> bool {
        self.min_len() <= out.len() <= self.max_len()
    }

    open spec fn fuzz_ready(&self) -> bool {
        len_range_ok(self.min_len(), self.max_len())
    }

    open spec fn fuzz_ready_mut(&self) -> bool {
        len_range_ok(self.min_len(), self.max_len())
    }

    fn append_fuzzed_immut(&self, step: usize, buf: &mut Vec<u8>) {
        let curlen = self.pick_len(random_usize());
        let ghost start = buf@.len();
        let mut i: usize = 0;
        while i < curlen
            invariant
                i <= curlen,
                buf@.len() == old(buf)@.len() + i,
                buf@.subrange(0, old(buf)@.len() as int) == old(buf)@,
            decreases curlen - i,
        {
            let ghost prev = buf@;
            buf.push(random_u8());
            assert(buf@.subrange(0, old(buf)@.len() as int) =~= prev.subrange(0, old(buf)@.len() as int));
            i = i + 1;
        }
    }

    fn append_fuzzed(&mut self, step: usize, buf: &mut Vec<u8>) {
        self.append_fuzzed_immut(step, buf)
    }
}

/// Generates a buffer whose bytes are drawn from a given set of byte values,
/// and whose length is drawn between a minimum and a maximum (both included).
#[derive(Clone, Debug)]
pub struct RandomFixedFuzzer {
    minlen: usize,
    maxlen: usize,
    charset: Vec<u8>,
}

impl RandomFixedFuzzer {
    pub closed spec fn min_len(&self) -> usize {
        self.minlen
    }

    pub closed spec fn max_len(&self) -> usize {
        self.maxlen
    }

    pub closed spec fn chars(&self) -> Seq<u8> {
        self.charset@
    }

    /// Makes a fuzzer for the given length limits and byte values.
    pub fn new(minlen: usize, maxlen: usize, charset: Vec<u8>) -> (r: RandomFixedFuzzer)
        ensures
            r.min_len() == minlen,
            r.max_len() == maxlen,
            r.chars() == charset@,
    {
        RandomFixedFuzzer { minlen, maxlen, charset }
    }

    /// A copy of the fuzzer.
    pub fn duplicate(&self) -> (r: RandomFixedFuzzer)
        ensures
            r.min_len() == self.min_len(),
            r.max_len() == self.max_len(),
            r.chars() == self.chars(),
    {
        RandomFixedFuzzer { minlen: self.minlen, maxlen: self.maxlen, charset: copy_bytes(&self.charset) }
    }

    /// Whether the fuzzer can generate (see `fuzz_ready`).
    pub fn is_ready(&self) -> (b: bool)
        ensures
            b == self.fuzz_ready(),
    {
        self.minlen <= self.maxlen && self.maxlen - self.minlen < usize::MAX && self.charset.len() > 0
    }

    /// Makes a fuzzer that generates printable ASCII chars (32 to 126).
    pub fn new_printables(minlen: usize, maxlen: usize) -> (r: RandomFixedFuzzer)
        ensures
            r.min_len() == minlen,
            r.max_len() == maxlen,
            r.chars() == Seq::new(95, |i: int| (i + 32) as u8),
    {
        let mut charset: Vec<u8> = Vec::new();
        let mut i: u8 = 32;
        while i < 127
            invariant
                32 <= i <= 127,
                charset@ == Seq::new((i - 32) as nat, |k: int| (k + 32) as u8),
            decreases 127 - i,
        {
            charset.push(i);
            assert(charset@ =~= Seq::new((i + 1 - 32) as nat, |k: int| (k + 32) as u8));
            i = i + 1;
        }
        Self::new(minlen, maxlen, charset)
    }

    /// The length that the random draw `raw` selects.
    pub fn pick_len(&self, raw: usize) -> (l: usize)
        requires
            len_range_ok(self.min_len(), self.max_len()),
        ensures
            l as int == picked_len(self.min_len(), self.max_len(), raw),
    {
        pick_len_in(self.minlen, self.maxlen, raw)
    }

    /// The byte value that the random draw `raw` selects (`raw` modulo the
    /// number of byte values).
    pub fn pick_char(&self, raw: usize) -> (c: u8)
        requires
            self.chars().len() > 0,
        ensures
            c == self.chars()[raw as int % self.chars().len() as int],
    {
        self.charset[raw % self.charset.len()]
    }
}

impl Fuzz for RandomFixedFuzzer {
    /// Bytes from the set of byte values, of a length between the limits.
    open spec fn emits(&self, step: usize, out: Seq<u8>) -> bool {
        &&& self.min_len() <= out.len() <= self.max_len()
        &&& forall|i: int| 0 <= i < out.len() ==> self.chars().contains(#[trigger] out[i])
    }

    open spec fn fuzz_ready(&self) -> bool {
        len_range_ok(self.min_len(), self.max_len()) && self.chars().len() > 0
    }

    open spec fn fuzz_ready_mut(&self) -> bool {
        self.fuzz_ready()
    }

    fn append_fuzzed_immut(&self, step: usize, buf: &mut Vec<u8>) {
        let curlen = self.pick_len(random_usize());
        let mut i: usize = 0;
        while i < curlen
            invariant
                i <= curlen,
                self.chars().len() > 0,
                buf@.len() == old(buf)@.len() + i,
                buf@.subrange(0, old(buf)@.len() as int) == old(buf)@,
                forall|k: int| old(buf)@.len() <= k < buf@.len() ==> self.chars().contains(#[trigger] buf@[k]),
            decreases curlen - i,
        {
            let ghost prev = buf@;
            let raw = random_usize();
            let c = self.pick_char(raw);
            buf.push(c);
            proof {
                let j = raw as int % self.chars().len() as int;
                assert(self.chars()[j] == c);
                assert(buf@.subrange(0, old(buf)@.len() as int) =~= prev.subrange(0, old(buf)@.len() as int));
                assert forall|k: int| old(buf)@.len() <= k < buf@.len() implies self.chars().contains(#[trigger] buf@[k]) by {
                    if k < prev.len() {
                        assert(buf@[k] == prev[k]);
                    } else {
                        assert(buf@[k] == self.chars()[j]);
                    }
                }
            }
            i = i + 1;
        }
        proof {
            let out = buf@.subrange(old(buf)@.len() as int, buf@.len() as int);
            assert forall|k: int| 0 <= k < out.len() implies self.chars().contains(#[trigger] out[k]) by {
                assert(out[k] == buf@[old(buf)@.len() + k]);
            }
        }
    }

    fn append_fuzzed(&mut self, step: usize, buf: &mut Vec<u8>) {
        self.append_fuzzed_immut(step, buf)
    }
}

/// The start of the changeable window of a buffer of length `len`: a
/// negative setting means 0, one past the end means the last position.
pub open spec fn b8r_start(startoffset: isize, len: int) -> int {
    if startoffset < 0 { 0 } else if startoffset >= len { len - 1 } else { startoffset as int }
}

/// The last position (included) of the changeable window of a buffer of
/// length `len`: a negative setting, or one at or past the end, means the
/// buffer's last position.
pub open spec fn b8r_last(endoffset: isize, len: int) -> int {
    if endoffset < 0 || endoffset >= len { len - 1 } else { endoffset as int }
}

/// Applies the random changes to a buffer: for each pair of draws, the
/// second selects a position in the window and the first a value in
/// `startval..=endval`, which is written there.
pub open spec fn b8r_apply(inb: Seq<u8>, picks: Seq<(usize, usize)>, so: int, orange: int, sv: int, vrange: int) -> Seq<u8>
    decreases picks.len(),
{
    if picks.len() == 0 {
        inb
    } else {
        let prev = b8r_apply(inb, picks.drop_last(), so, orange, sv, vrange);
        let p = picks.last();
        prev.update(so + p.1 as int % orange, (sv + p.0 as int % vrange) as u8)
    }
}

/// Whether `out` is `b` with some of the positions in `so..=eo` changed to
/// values in `sv..=ev`.
pub open spec fn b8r_variant(b: Seq<u8>, out: Seq<u8>, so: int, eo: int, sv: int, ev: int) -> bool {
    &&& out.len() == b.len()
    &&& forall|i: int| 0 <= i < out.len() ==> (out[i] == b[i] || (so <= i <= eo && sv <= #[trigger] out[i] <= ev))
}

/// Applying random changes keeps the buffer's length and changes only
/// positions of the window (both ends included), to values of the range
/// (both ends included).
pub proof fn law_b8r_apply_in_window(inb: Seq<u8>, picks: Seq<(usize, usize)>, so: int, eo: int, sv: int, ev: int)
    requires
        0 <= so <= eo < inb.len(),
        0 <= sv <= ev <= 255,
    ensures
        b8r_variant(inb, b8r_apply(inb, picks, so, eo - so + 1, sv, ev - sv + 1), so, eo, sv, ev),
    decreases picks.len(),
{
    if picks.len() > 0 {
        law_b8r_apply_in_window(inb, picks.drop_last(), so, eo, sv, ev);
    }
}

/// A value setting is a byte value: a negative setting means the given
/// default (0 for the start value, 255 for the end value), one above 255
/// means 255, any other is kept.
pub proof fn law_clamp_val(v: isize, neg_default: isize)
    requires
        0 <= neg_default <= 255,
    ensures
        0 <= clamp_val(v, neg_default) <= 255,
        v < 0 ==> clamp_val(v, neg_default) == neg_default,
        0 <= v <= 255 ==> clamp_val(v, neg_default) == v,
        v > 255 ==> clamp_val(v, neg_default) == 255,
        v < 0 ==> clamp_val(v, 255) == 255 && clamp_val(v, 0) == 0,
{
}

/// Randomly changes one of a list of given buffers: how many bytes change,
/// where (a window of positions) and to which values (a range) is set up
/// when the fuzzer is made.
#[derive(Clone, Debug)]
pub struct Buf8sRandomizeFuzzer {
    buf8s: Vec<Vec<u8>>,
    randcount: isize,
    startoffset: isize,
    endoffset: isize,
    startval: isize,
    endval: isize,
}

/// A value setting clamped to a byte: negative means `neg_default`, above 255 means 255.
pub open spec fn clamp_val(v: isize, neg_default: isize) -> isize {
    if v < 0 { neg_default } else if v > 255 { 255 } else { v }
}

impl Buf8sRandomizeFuzzer {
    pub closed spec fn bufs(&self) -> Seq<Seq<u8>> {
        self.buf8s.deep_view()
    }

    pub closed spec fn rand_count(&self) -> isize {
        self.randcount
    }

    pub closed spec fn start_offset(&self) -> isize {
        self.startoffset
    }

    pub closed spec fn end_offset(&self) -> isize {
        self.endoffset
    }

    pub closed spec fn start_val(&self) -> isize {
        self.startval
    }

    pub closed spec fn end_val(&self) -> isize {
        self.endval
    }

    /// A copy of the fuzzer.
    pub fn duplicate(&self) -> (r: Buf8sRandomizeFuzzer)
        ensures
            r.bufs() == self.bufs(),
            r.rand_count() == self.rand_count(),
            r.start_offset() == self.start_offset(),
            r.end_offset() == self.end_offset(),
            r.start_val() == self.start_val(),
            r.end_val() == self.end_val(),
    {
        Buf8sRandomizeFuzzer {
            buf8s: copy_bufs(&self.buf8s),
            randcount: self.randcount,
            startoffset: self.startoffset,
            endoffset: self.endoffset,
            startval: self.startval,
            endval: self.endval,
        }
    }

    /// Whether the fuzzer can generate (see `fuzz_ready`).
    pub fn is_ready(&self) -> (b: bool)
        ensures
            b == self.fuzz_ready(),
    {
        if !(self.buf8s.len() > 0 && 0 <= self.startval && self.startval <= self.endval && self.endval <= 255
            && self.randcount >= 0) {
            return false;
        }
        if self.randcount == 0 {
            return true;
        }
        let mut k: usize = 0;
        while k < self.buf8s.len()
            invariant
                k <= self.bufs().len(),
                self.rand_count() > 0,
                self.buf8s@.len() == self.bufs().len(),
                forall|j: int| 0 <= j < k && #[trigger] self.bufs()[j].len() > 0
                    ==> b8r_start(self.start_offset(), self.bufs()[j].len() as int) <= b8r_last(self.end_offset(), self.bufs()[j].len() as int),
            decreases self.buf8s.len() - k,
        {
            let blen = self.buf8s[k].len();
            assert(self.bufs()[k as int].len() == blen);
            if blen > 0 {
                let so: usize = if self.startoffset < 0 {
                    0
                } else if self.startoffset as usize >= blen {
                    blen - 1
                } else {
                    self.startoffset as usize
                };
                let eo: usize = if self.endoffset < 0 || self.endoffset as usize >= blen {
                    blen - 1
                } else {
                    self.endoffset as usize
                };
                assert(so as int == b8r_start(self.start_offset(), self.bufs()[k as int].len() as int));
                assert(eo as int == b8r_last(self.end_offset(), self.bufs()[k as int].len() as int));
                if !(so <= eo) {
                    assert(self.bufs()[k as int].len() > 0);
                    assert(self.rand_count() > 0);
                    assert(!(b8r_start(self.start_offset(), self.bufs()[k as int].len() as int) <= b8r_last(self.end_offset(), self.bufs()[k as int].len() as int)));
                    assert(!self.fuzz_ready());
                    return false;
                }
            }
            k = k + 1;
        }
        true
    }

    /// Makes the fuzzer; a negative `randcount` is replaced by a random count
    /// between 1 and the number of buffers.
    pub fn new(buf8s: Vec<Vec<u8>>, randcount: isize, startoffset: isize, endoffset: isize, startval: isize, endval: isize) -> (r: Buf8sRandomizeFuzzer)
        requires
            randcount < 0 ==> 0 < buf8s@.len() < isize::MAX,
        ensures
            r.bufs() == buf8s.deep_view(),
            randcount >= 0 ==> r.rand_count() == randcount,
            randcount < 0 ==> 1 <= r.rand_count() <= buf8s@.len(),
            r.start_offset() == startoffset,
            r.end_offset() == endoffset,
            r.start_val() == clamp_val(startval, 0),
            r.end_val() == clamp_val(endval, 255),
            startval < 0 ==> r.start_val() == 0,
            endval < 0 ==> r.end_val() == 255,
            0 <= r.start_val() <= 255 && 0 <= r.end_val() <= 255,
    {
        let pick = if randcount < 0 { random_usize() } else { 0 };
        Self::new_with_pick(buf8s, randcount, startoffset, endoffset, startval, endval, pick)
    }

    /// `new`, with the random draw for a negative `randcount` given: the count
    /// is then `pick` modulo the number of buffers, plus one.
    pub fn new_with_pick(buf8s: Vec<Vec<u8>>, randcount: isize, startoffset: isize, endoffset: isize, startval: isize, endval: isize, pick: usize) -> (r: Buf8sRandomizeFuzzer)
        requires
            randcount < 0 ==> 0 < buf8s@.len() < isize::MAX,
        ensures
            r.bufs() == buf8s.deep_view(),
            randcount >= 0 ==> r.rand_count() == randcount,
            randcount < 0 ==> r.rand_count() as int == pick as int % buf8s@.len() as int + 1,
            r.start_offset() == startoffset,
            r.end_offset() == endoffset,
            r.start_val() == clamp_val(startval, 0),
            r.end_val() == clamp_val(endval, 255),
            startval < 0 ==> r.start_val() == 0,
            endval < 0 ==> r.end_val() == 255,
            0 <= r.start_val() <= 255 && 0 <= r.end_val() <= 255,
    {
        let mut randcount = randcount;
        if randcount < 0 {
            randcount = ((pick % buf8s.len()) + 1) as isize;
        }
        let startval = if startval < 0 { 0 } else if startval > 255 { 255 } else { startval };
        let endval = if endval < 0 { 255 } else if endval > 255 { 255 } else { endval };
        Buf8sRandomizeFuzzer { buf8s, randcount, startoffset, endoffset, startval, endval }
    }

    /// Appends buffer `bufpick` (modulo their number) with the changes that
    /// the pairs of draws in `picks` select (see `b8r_apply`, the window's
    /// both ends included); an empty buffer is left out.
    pub fn append_with_picks(&self, bufpick: usize, picks: &Vec<(usize, usize)>, buf: &mut Vec<u8>)
        requires
            self.fuzz_ready(),
            picks@.len() == self.rand_count(),
        ensures
            ({
                let b = self.bufs()[bufpick as int % self.bufs().len() as int];
                let so = b8r_start(self.start_offset(), b.len() as int);
                let eo = b8r_last(self.end_offset(), b.len() as int);
                &&& b.len() == 0 ==> final(buf)@ == old(buf)@
                &&& b.len() > 0 ==> final(buf)@ == old(buf)@ + b8r_apply(b, picks@, so, eo - so + 1,
                    self.start_val() as int, self.end_val() - self.start_val() + 1)
            }),
    {
        let bufindex = bufpick % self.buf8s.len();
        let inb_ref = &self.buf8s[bufindex];
        let buflen = inb_ref.len();
        assert(inb_ref@ =~= self.bufs()[bufindex as int]);
        if buflen == 0 {
            return;
        }
        let mut inb = inb_ref.clone();
        assert(inb@ == inb_ref@);
        let startoffset: usize = if self.startoffset < 0 {
            0
        } else if self.startoffset as usize >= buflen {
            buflen - 1
        } else {
            self.startoffset as usize
        };
        let endoffset: usize = if self.endoffset < 0 || self.endoffset as usize >= buflen {
            buflen - 1
        } else {
            self.endoffset as usize
        };
        let ghost so = startoffset as int;
        let ghost eo = endoffset as int;
        let valuerange: usize = (self.endval - self.startval + 1) as usize;
        let offsetrange: usize = if endoffset >= startoffset { endoffset - startoffset + 1 } else { 1 };
        let sv: usize = self.startval as usize;
        let mut i: usize = 0;
        while i < picks.len()
            invariant
                self.fuzz_ready(),
                picks@.len() == self.rand_count(),
                i <= picks@.len(),
                inb@.len() == buflen,
                buflen > 0,
                0 <= so < buflen,
                so <= eo < buflen || self.rand_count() == 0,
                offsetrange as int == eo - so + 1 || self.rand_count() == 0,
                offsetrange >= 1,
                startoffset as int == so,
                endoffset as int == eo,
                sv as int == self.start_val(),
                valuerange as int == self.end_val() - self.start_val() + 1,
                1 <= valuerange <= 256,
                sv + valuerange <= 256,
                inb@ == b8r_apply(self.bufs()[bufindex as int], picks@.subrange(0, i as int), so, eo - so + 1,
                    self.start_val() as int, self.end_val() - self.start_val() + 1),
            decreases picks.len() - i,
        {
            let (cpick, ppick) = picks[i];
            let ch = (sv + (cpick % valuerange)) as u8;
            let ipos = startoffset + (ppick % offsetrange);
            assert(picks@.subrange(0, i + 1).drop_last() =~= picks@.subrange(0, i as int));
            inb.set(ipos, ch);
            i = i + 1;
        }
        assert(picks@.subrange(0, picks@.len() as int) =~= picks@);
        let mut k: usize = 0;
        let ghost pre = buf@;
        while k < inb.len()
            invariant
                k <= inb@.len(),
                buf@ == pre + inb@.subrange(0, k as int),
            decreases inb.len() - k,
        {
            buf.push(inb[k]);
            k = k + 1;
        }
        assert(inb@.subrange(0, inb@.len() as int) =~= inb@);
    }
}

impl Fuzz for Buf8sRandomizeFuzzer {
    /// One of the buffers, with `rand_count` random changes applied one
    /// after another, each putting a value of the value range at a position
    /// of the window (both ends included; see `b8r_apply`); nothing for an
    /// empty buffer.
    open spec fn emits(&self, step: usize, out: Seq<u8>) -> bool {
        exists|k: int| 0 <= k < self.bufs().len() && ({
            let b = #[trigger] self.bufs()[k];
            let so = b8r_start(self.start_offset(), b.len() as int);
            let eo = b8r_last(self.end_offset(), b.len() as int);
            ||| b.len() == 0 && out.len() == 0
            ||| b.len() > 0 && exists|picks: Seq<(usize, usize)>| picks.len() == self.rand_count()
                && out == #[trigger] b8r_apply(b, picks, so, eo - so + 1, self.start_val() as int,
                    self.end_val() - self.start_val() + 1)
        })
    }

    /// At least one buffer, a value range inside `0..=255`, a count that is
    /// not negative, and, when something is to change, a window whose start
    /// is not past its last position in every buffer.
    open spec fn fuzz_ready(&self) -> bool {
        &&& self.bufs().len() > 0
        &&& 0 <= self.start_val() <= self.end_val() <= 255
        &&& self.rand_count() >= 0
        &&& self.rand_count() > 0 ==> forall|k: int| 0 <= k < self.bufs().len() && #[trigger] self.bufs()[k].len() > 0
            ==> b8r_start(self.start_offset(), self.bufs()[k].len() as int) <= b8r_last(self.end_offset(), self.bufs()[k].len() as int)
    }

    open spec fn fuzz_ready_mut(&self) -> bool {
        self.fuzz_ready()
    }

    fn append_fuzzed_immut(&self, step: usize, buf: &mut Vec<u8>) {
        let bufpick = random_usize();
        let mut picks: Vec<(usize, usize)> = Vec::new();
        let count = self.randcount as usize;
        let mut i: usize = 0;
        while i < count
            invariant
                i <= count,
                picks@.len() == i,
            decreases count - i,
        {
            let c = random_usize();
            let p = random_usize();
            picks.push((c, p));
            i = i + 1;
        }
        self.append_with_picks(bufpick, &picks, buf);
        proof {
            let k = bufpick as int % self.bufs().len() as int;
            let b = self.bufs()[k];
            let so = b8r_start(self.start_offset(), b.len() as int);
            let eo = b8r_last(self.end_offset(), b.len() as int);
            if b.len() == 0 {
                lemma_appended(old(buf)@, Seq::empty());
                assert(old(buf)@ + Seq::<u8>::empty() =~= old(buf)@);
            } else {
                let out = b8r_apply(b, picks@, so, eo - so + 1, self.start_val() as int, self.end_val() - self.start_val() + 1);
                lemma_appended(old(buf)@, out);
            }
        }
    }

    fn append_fuzzed(&mut self, step: usize, buf: &mut Vec<u8>) {
        self.append_fuzzed_immut(step, buf)
    }
}

/// The length limits that a config group gives a random fuzzer: its
/// `minlen` and `maxlen` entries, after the group's first line.
pub open spec fn lens_from_cfg(lines: Seq<Seq<char>>, trimmed: bool) -> Option<(usize, usize)> {
    if lines.len() == 0 {
        None
    } else {
        let l1 = lines.drop_first();
        let sp = front_spaces(l1);
        match (num_value(l1, "minlen"@, sp, trimmed), num_value(after_value(l1, sp), "maxlen"@, sp, trimmed)) {
            (Some(a), Some(b)) => Some((a, b)),
            _ => None,
        }
    }
}

impl FromVecStrings for RandomRandomFuzzer {
    fn get_name() -> (r: String)
        ensures
            r@ == "RandomRandomFuzzer"@,
    {
        String::from_str("RandomRandomFuzzer")
    }

    /// Makes the fuzzer from a config group: the first line names it, then
    /// the `minlen` and `maxlen` entries give the limits.
    fn from_vs(vs: &mut VecDeque<String>) -> (r: Result<RandomRandomFuzzer, String>)
        ensures
            match r {
                Ok(f) => lens_from_cfg(lines_of(old(vs)@), false) == Some((f.min_len(), f.max_len())),
                Err(_) => lens_from_cfg(lines_of(old(vs)@), false) is None,
            },
    {
        let ghost l0 = lines_of(vs@);
        let l = vs.pop_front();
        if l.is_none() {
            return Err(String::from_str("ERRR:RandomRandomFuzzer:FromStringVec:Got empty vector"));
        }
        assert(lines_of(vs@) =~= l0.drop_first());
        let spacesprefix = Self::get_spacesprefix(vs);
        let minlen = Self::get_uvalue(vs, "minlen", spacesprefix, false)?;
        let maxlen = Self::get_uvalue(vs, "maxlen", spacesprefix, false)?;
        Ok(RandomRandomFuzzer::new(minlen, maxlen))
    }
}

/// The fields that a config group gives a random fixed fuzzer: whether it
/// is the printables variant (the second `:` separated part of its first
/// line), its limits, and (unless printables) its `charset` entry.
pub open spec fn fixed_from_cfg(lines: Seq<Seq<char>>) -> Option<(bool, usize, usize, Seq<u8>)> {
    if lines.len() == 0 {
        None
    } else {
        let la = seq_split_all(lines[0], ':');
        let l1 = lines.drop_first();
        let sp = front_spaces(l1);
        let l3 = after_value(after_value(l1, sp), sp);
        match lens_from_cfg(lines, true) {
            None => None,
            Some((a, b)) => if la.len() < 2 {
                None
            } else if la[1] == "RandomFixedFuzzerPrintables"@ {
                Some((true, a, b, Seq::new(95, |i: int| (i + 32) as u8)))
            } else {
                match value_emptyok(l3, "charset"@, sp) {
                    Some(c) => if c.len() > 0 { Some((false, a, b, c)) } else { None },
                    None => None,
                }
            },
        }
    }
}

impl FromVecStrings for RandomFixedFuzzer {
    fn get_name() -> (r: String)
        ensures
            r@ == "RandomFixedFuzzer"@,
    {
        String::from_str("RandomFixedFuzzer")
    }

    /// Makes the fuzzer from a config group: the first line names it (the
    /// type `RandomFixedFuzzerPrintables` selects printable chars), then
    /// `minlen`, `maxlen` and, unless printables, `charset` entries.
    fn from_vs(vs: &mut VecDeque<String>) -> (r: Result<RandomFixedFuzzer, String>)
        ensures
            match r {
                Ok(f) => fixed_from_cfg(lines_of(old(vs)@)) matches Some((_, a, b, c))
                    && f.min_len() == a && f.max_len() == b && f.chars() == c,
                Err(_) => fixed_from_cfg(lines_of(old(vs)@)) is None,
            },
    {
        let ghost l0 = lines_of(vs@);
        let l = vs.pop_front();
        let l = match l {
            None => {
                return Err(String::from_str("ERRR:RandomFixedFuzzer:FromStringVec:Got empty vector"));
            },
            Some(l) => l,
        };
        assert(lines_of(vs@) =~= l0.drop_first());
        let lc = string_chars(&l);
        let la = chars_split_all(lc.as_slice(), ':');
        let spacesprefix = Self::get_spacesprefix(vs);
        let minlen = Self::get_uvalue(vs, "minlen", spacesprefix, true)?;
        let maxlen = Self::get_uvalue(vs, "maxlen", spacesprefix, true)?;
        if la.len() < 2 {
            return Err(String::from_str("ERRR:RandomFixedFuzzer:FromStringVec:Missing fuzzer type"));
        }
        let pn = str_chars("RandomFixedFuzzerPrintables");
        assert(la.deep_view()[1] =~= la[1]@);
        if chars_eq(la[1].as_slice(), pn.as_slice()) {
            return Ok(RandomFixedFuzzer::new_printables(minlen, maxlen));
        }
        let charset = Self::get_value(vs, "charset", spacesprefix)?;
        Ok(RandomFixedFuzzer::new(minlen, maxlen, charset))
    }
}

/// The settings that a config group gives a buffers randomizing fuzzer:
/// its `buf8s` list and its `randcount`, `startoffset`, `endoffset`,
/// `startval` and `endval` entries, in that order. The second `:` separated
/// part of its first line must be `Buf8sRandomizeFuzzer`.
pub open spec fn b8r_from_cfg(lines: Seq<Seq<char>>) -> Option<(Seq<Seq<u8>>, isize, isize, isize, isize, isize)> {
    if lines.len() == 0 {
        None
    } else {
        let la = seq_split_all(lines[0], ':');
        let l1 = lines.drop_first();
        let sp = front_spaces(l1);
        if la.len() < 2 || la[1] != "Buf8sRandomizeFuzzer"@ {
            None
        } else {
            match values_of(l1, "buf8s"@, sp) {
                None => None,
                Some((bufs, l2)) => {
                    let l3 = after_value(l2, sp);
                    let l4 = after_value(l3, sp);
                    let l5 = after_value(l4, sp);
                    let l6 = after_value(l5, sp);
                    match (int_value(l2, "randcount"@, sp), int_value(l3, "startoffset"@, sp),
                        int_value(l4, "endoffset"@, sp), int_value(l5, "startval"@, sp), int_value(l6, "endval"@, sp)) {
                        (Some(rc), Some(so), Some(eo), Some(sv), Some(ev)) => Some((bufs, rc, so, eo, sv, ev)),
                        _ => None,
                    }
                },
            }
        }
    }
}

impl FromVecStrings for Buf8sRandomizeFuzzer {
    fn get_name() -> (r: String)
        ensures
            r@ == "Buf8sRandomizeFuzzer"@,
    {
        String::from_str("Buf8sRandomizeFuzzer")
    }

    /// Makes the fuzzer from a config group (see `b8r_from_cfg`); a negative
    /// count needs at least one buffer.
    fn from_vs(vs: &mut VecDeque<String>) -> (r: Result<Buf8sRandomizeFuzzer, String>)
        ensures
            match r {
                Ok(f) => b8r_from_cfg(lines_of(old(vs)@)) matches Some((bufs, rc, so, eo, sv, ev))
                    && f.bufs() == bufs
                    && (rc >= 0 ==> f.rand_count() == rc)
                    && (rc < 0 ==> 1 <= f.rand_count() <= bufs.len() && bufs.len() < isize::MAX)
                    && f.start_offset() == so && f.end_offset() == eo
                    && f.start_val() == clamp_val(sv, 0) && f.end_val() == clamp_val(ev, 255),
                Err(_) => b8r_from_cfg(lines_of(old(vs)@)) is None
                    || (b8r_from_cfg(lines_of(old(vs)@)) matches Some((bufs, rc, so, eo, sv, ev))
                        && rc < 0 && !(0 < bufs.len() < isize::MAX)),
            },
    {
        let ghost l0 = lines_of(vs@);
        let l = vs.pop_front();
        let l = match l {
            None => {
                return Err(String::from_str("ERRR:Buf8sRandomizeFuzzer:FromStringVec:Got empty vector"));
            },
            Some(l) => l,
        };
        assert(lines_of(vs@) =~= l0.drop_first());
        let lc = string_chars(&l);
        let la = chars_split_all(lc.as_slice(), ':');
        let bn = str_chars("Buf8sRandomizeFuzzer");
        if la.len() < 2 {
            return Err(String::from_str("ERRR:Buf8sRandomizeFuzzer:FromStringVec:Missing fuzzer type"));
        }
        assert(la.deep_view()[1] =~= la[1]@);
        if !chars_eq(la[1].as_slice(), bn.as_slice()) {
            return Err(String::from_str("ERRR:Buf8sRandomizeFuzzer:FromStringVec:Mismatch wrt Fuzzer Type"));
        }
        let spacesprefix = Self::get_spacesprefix(vs);
        let buf8s = Self::get_values(vs, "buf8s", spacesprefix)?;
        let randcount = Self::get_ivalue(vs, "randcount", spacesprefix)?;
        let startoffset = Self::get_ivalue(vs, "startoffset", spacesprefix)?;
        let endoffset = Self::get_ivalue(vs, "endoffset", spacesprefix)?;
        let startval = Self::get_ivalue(vs, "startval", spacesprefix)?;
        let endval = Self::get_ivalue(vs, "endval", spacesprefix)?;
        if randcount < 0 && !(0 < buf8s.len() && buf8s.len() < isize::MAX as usize) {
            return Err(String::from_str("ERRR:Buf8sRandomizeFuzzer:FromStringVec:No buffers to pick a count from"));
        }
        Ok(Buf8sRandomizeFuzzer::new(buf8s, randcount, startoffset, endoffset, startval, endval))
    }
}

} // verus!
