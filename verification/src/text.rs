//! Character level helpers shared by the parsers of the library.

use vstd::prelude::*;
use vstd::utf8::{encode_utf8, decode_utf8, valid_utf8};
use vstd::std_specs::iter::IteratorSpec;

verus! {

/// The Unicode `White_Space` property, which `char::is_whitespace` and
/// `str::trim` go by.
pub open spec fn is_ws(c: char) -> bool {
    let u = c as u32;
    ||| (0x09 <= u && u <= 0x0D)
    ||| u == 0x20
    ||| u == 0x85
    ||| u == 0xA0
    ||| u == 0x1680
    ||| (0x2000 <= u && u <= 0x200A)
    ||| u == 0x2028
    ||| u == 0x2029
    ||| u == 0x202F
    ||| u == 0x205F
    ||| u == 0x3000
}

/// Whether `c` is white space, as `char::is_whitespace` decides it.
pub fn char_is_ws(c: char) -> (b: bool)
    ensures
        b == is_ws(c),
{
    let u = c as u32;
    (0x09 <= u && u <= 0x0D) || u == 0x20 || u == 0x85 || u == 0xA0 || u == 0x1680
        || (0x2000 <= u && u <= 0x200A) || u == 0x2028 || u == 0x2029 || u == 0x202F
        || u == 0x205F || u == 0x3000
}

/// What `char::is_alphabetic` returns for a char (the Unicode `Alphabetic` property).
pub uninterp spec fn spec_is_alphabetic(c: char) -> bool;

/// What `char::is_numeric` returns for a char (the Unicode number categories).
pub uninterp spec fn spec_is_numeric(c: char) -> bool;

/// Calls `char::is_alphabetic`; the result is named. Among ASCII chars,
/// exactly the letters are alphabetic.
#[verifier::external_body]
pub(crate) fn char_is_alphabetic(c: char) -> (b: bool)
    ensures
        b == spec_is_alphabetic(c),
        (c as u32) < 128 ==> (b <==> (('a' <= c && c <= 'z') || ('A' <= c && c <= 'Z'))),
{
    c.is_alphabetic()
}

/// Calls `char::is_numeric`; the result is named. Among ASCII chars,
/// exactly the digits are numeric.
#[verifier::external_body]
pub(crate) fn char_is_numeric(c: char) -> (b: bool)
    ensures
        b == spec_is_numeric(c),
        (c as u32) < 128 ==> (b <==> ('0' <= c && c <= '9')),
{
    c.is_numeric()
}

/// The chars of a `str`, in order.
pub fn str_chars(s: &str) -> (v: Vec<char>)
    ensures
        v@ == s@,
{
    broadcast use vstd::string::axiom_spec_iter, vstd::string::next_postcondition;
    let mut it = s.chars();
    let mut v: Vec<char> = Vec::new();
    loop
        invariant
            v@ + IteratorSpec::remaining(&it) == s@,
            it.obeys_prophetic_iter_laws(),
            IteratorSpec::decrease(&it) is Some,
        ensures
            v@ == s@,
        decreases IteratorSpec::decrease(&it)->0,
    {
        let ghost before = IteratorSpec::remaining(&it);
        match it.next() {
            Some(c) => {
                let ghost old_v = v@;
                v.push(c);
                assert(v@ + IteratorSpec::remaining(&it) =~= old_v + before);
            },
            None => {
                assert(before.len() == 0);
                assert(v@ + before =~= v@);
                break;
            },
        }
    }
    v
}

/// Builds a `String` from a slice of chars (`String::from_iter`): the
/// result holds exactly those chars, in order.
#[verifier::external_body]
pub(crate) fn string_from_chars(v: &[char]) -> (s: String)
    ensures
        s@ == v@,
{
    String::from_iter(v)
}

/// The chars of a `String`.
pub fn string_chars(s: &String) -> (v: Vec<char>)
    ensures
        v@ == s@,
{
    str_chars(s.as_str())
}

/// The UTF-8 encoding of a sequence of chars (the bytes of the `String` that holds them).
pub fn chars_to_utf8(v: &[char]) -> (b: Vec<u8>)
    ensures
        b@ == encode_utf8(v@),
{
    let s = string_from_chars(v);
    s.as_str().as_bytes_vec()
}

/// The UTF-8 encoding of a `String` (its bytes).
pub fn string_utf8(s: &String) -> (b: Vec<u8>)
    ensures
        b@ == encode_utf8(s@),
{
    s.as_str().as_bytes_vec()
}

/// `String::from_utf8`: the string that a byte buffer encodes, when it is
/// valid UTF-8 (then its chars are the decoded ones), else nothing.
#[verifier::external_body]
pub(crate) fn string_from_utf8(b: Vec<u8>) -> (r: Option<String>)
    ensures
        r is Some <==> valid_utf8(b@),
        r matches Some(s) ==> s@ == decode_utf8(b@),
{
    match String::from_utf8(b) {
        Ok(s) => Some(s),
        Err(_) => None,
    }
}

/// The chars of `s` with leading and trailing white space removed, as `str::trim` does.
pub open spec fn trim_seq(s: Seq<char>) -> Seq<char> {
    let lo = trim_lo(s, 0);
    let hi = trim_hi(s, s.len() as int);
    if lo >= hi { Seq::empty() } else { s.subrange(lo, hi) }
}

/// The index of the first char at or after `i` that is not white space (or the length).
pub open spec fn trim_lo(s: Seq<char>, i: int) -> int
    decreases s.len() - i,
{
    if i >= s.len() || i < 0 {
        i
    } else if is_ws(s[i]) {
        trim_lo(s, i + 1)
    } else {
        i
    }
}

/// One past the index of the last char before `j` that is not white space (or 0).
pub open spec fn trim_hi(s: Seq<char>, j: int) -> int
    decreases j,
{
    if j <= 0 {
        j
    } else if is_ws(s[j - 1]) {
        trim_hi(s, j - 1)
    } else {
        j
    }
}

pub proof fn lemma_trim_lo_bounds(s: Seq<char>, i: int)
    requires
        0 <= i <= s.len(),
    ensures
        i <= trim_lo(s, i) <= s.len(),
        forall|k: int| i <= k < trim_lo(s, i) ==> is_ws(#[trigger] s[k]),
        trim_lo(s, i) < s.len() ==> !is_ws(s[trim_lo(s, i)]),
    decreases s.len() - i,
{
    if i < s.len() && is_ws(s[i]) {
        lemma_trim_lo_bounds(s, i + 1);
    }
}

proof fn lemma_trim_hi_bounds(s: Seq<char>, j: int)
    requires
        0 <= j <= s.len(),
    ensures
        0 <= trim_hi(s, j) <= j,
        forall|k: int| trim_hi(s, j) <= k < j ==> is_ws(#[trigger] s[k]),
        trim_hi(s, j) > 0 ==> !is_ws(s[trim_hi(s, j) - 1]),
    decreases j,
{
    if j > 0 && is_ws(s[j - 1]) {
        lemma_trim_hi_bounds(s, j - 1);
    }
}

/// Trimming never makes a text longer.
pub proof fn lemma_trim_len(s: Seq<char>)
    ensures
        trim_seq(s).len() <= s.len(),
{
    lemma_trim_lo_bounds(s, 0);
    lemma_trim_hi_bounds(s, s.len() as int);
}

/// Trimming removes exactly the white space at both ends: the result is a
/// contiguous part of the text, everything before and after it is white
/// space, and it neither starts nor ends with white space.
pub proof fn law_trim(s: Seq<char>)
    ensures
        exists|lo: int, hi: int| 0 <= lo <= hi <= s.len() && #[trigger] s.subrange(lo, hi) == trim_seq(s)
            && (forall|k: int| 0 <= k < lo ==> is_ws(#[trigger] s[k]))
            && (forall|k: int| hi <= k < s.len() ==> is_ws(#[trigger] s[k]))
            && (lo < hi ==> !is_ws(s[lo]) && !is_ws(s[hi - 1])),
{
    lemma_trim_lo_bounds(s, 0);
    lemma_trim_hi_bounds(s, s.len() as int);
    let lo = trim_lo(s, 0);
    let hi = trim_hi(s, s.len() as int);
    if lo < hi {
        assert(s.subrange(lo, hi) == trim_seq(s));
    } else {
        assert(s.subrange(hi, hi) =~= trim_seq(s));
        assert forall|k: int| 0 <= k < hi implies is_ws(#[trigger] s[k]) by {}
    }
}

/// `v` with leading and trailing white space removed (what `str::trim` does).
pub fn trim_chars(v: &[char]) -> (r: Vec<char>)
    ensures
        r@ == trim_seq(v@),
{
    let n = v.len();
    let mut lo: usize = 0;
    while lo < n && char_is_ws(v[lo])
        invariant
            n == v@.len(),
            lo <= n,
            trim_lo(v@, lo as int) == trim_lo(v@, 0),
        decreases n - lo,
    {
        lo = lo + 1;
    }
    let mut hi: usize = n;
    while hi > 0 && char_is_ws(v[hi - 1])
        invariant
            n == v@.len(),
            hi <= n,
            trim_hi(v@, hi as int) == trim_hi(v@, n as int),
        decreases hi,
    {
        hi = hi - 1;
    }
    let mut r: Vec<char> = Vec::new();
    if lo < hi {
        let mut i = lo;
        while i < hi
            invariant
                lo <= i <= hi <= n,
                n == v@.len(),
                r@ == v@.subrange(lo as int, i as int),
            decreases hi - i,
        {
            r.push(v[i]);
            i = i + 1;
        }
    }
    r
}

/// Whether `s` starts with `p`.
pub open spec fn seq_starts_with(s: Seq<char>, p: Seq<char>) -> bool {
    p.len() <= s.len() && s.subrange(0, p.len() as int) == p
}

/// Whether `v` starts with `p`.
pub fn chars_start_with(v: &[char], p: &[char]) -> (b: bool)
    ensures
        b == seq_starts_with(v@, p@),
{
    if p.len() > v.len() {
        return false;
    }
    let mut i: usize = 0;
    while i < p.len()
        invariant
            p@.len() <= v@.len(),
            i <= p@.len(),
            forall|k: int| 0 <= k < i ==> v@[k] == p@[k],
        decreases p.len() - i,
    {
        if v[i] != p[i] {
            assert(v@.subrange(0, p@.len() as int)[i as int] != p@[i as int]);
            return false;
        }
        i = i + 1;
    }
    assert(v@.subrange(0, p@.len() as int) =~= p@);
    true
}

/// The chars of `v` from `from` to its end.
pub fn chars_from(v: &[char], from: usize) -> (r: Vec<char>)
    ensures
        from <= v@.len() ==> r@ == v@.subrange(from as int, v@.len() as int),
        from > v@.len() ==> r@ == Seq::<char>::empty(),
{
    chars_range(v, from, v.len())
}

/// The chars of `v` from `from` up to (not including) `to`, or none when
/// the range is empty or out of bounds.
pub fn chars_range(v: &[char], from: usize, to: usize) -> (r: Vec<char>)
    ensures
        from <= to <= v@.len() ==> r@ == v@.subrange(from as int, to as int),
        !(from <= to <= v@.len()) ==> r@ == Seq::<char>::empty(),
{
    let mut r: Vec<char> = Vec::new();
    if from <= to && to <= v.len() {
        let mut i = from;
        while i < to
            invariant
                from <= i <= to <= v@.len(),
                r@ == v@.subrange(from as int, i as int),
            decreases to - i,
        {
            r.push(v[i]);
            i = i + 1;
        }
    }
    r
}

/// The index of the first occurrence of `c` in `s`, if any.
pub open spec fn seq_find(s: Seq<char>, c: char) -> Option<int>
    decreases s.len(),
{
    if s.len() == 0 {
        None
    } else if s[0] == c {
        Some(0)
    } else {
        match seq_find(s.drop_first(), c) {
            Some(i) => Some(i + 1),
            None => None,
        }
    }
}

pub proof fn lemma_seq_find(s: Seq<char>, c: char)
    ensures
        match seq_find(s, c) {
            Some(i) => 0 <= i < s.len() && s[i] == c && forall|k: int| 0 <= k < i ==> s[k] != c,
            None => forall|k: int| 0 <= k < s.len() ==> s[k] != c,
        },
    decreases s.len(),
{
    if s.len() > 0 && s[0] != c {
        lemma_seq_find(s.drop_first(), c);
        match seq_find(s.drop_first(), c) {
            Some(i) => {
                assert forall|k: int| 0 <= k < i + 1 implies s[k] != c by {
                    if k > 0 {
                        assert(s[k] == s.drop_first()[k - 1]);
                    }
                }
            },
            None => {
                assert forall|k: int| 0 <= k < s.len() implies s[k] != c by {
                    if k > 0 {
                        assert(s[k] == s.drop_first()[k - 1]);
                    }
                }
            },
        }
    }
}

/// The index of the first occurrence of `c` in `v`, if any.
pub fn chars_find(v: &[char], c: char) -> (r: Option<usize>)
    ensures
        match r {
            Some(i) => seq_find(v@, c) == Some(i as int),
            None => seq_find(v@, c) is None,
        },
{
    let mut i: usize = 0;
    while i < v.len()
        invariant
            i <= v@.len(),
            forall|k: int| 0 <= k < i ==> v@[k] != c,
        decreases v.len() - i,
    {
        if v[i] == c {
            proof {
                lemma_seq_find(v@, c);
                match seq_find(v@, c) {
                    Some(j) => {
                        if j < i {
                            assert(v@[j] != c);
                        }
                        if j > i {
                            assert(v@[i as int] != c);
                        }
                    },
                    None => {
                        assert(v@[i as int] != c);
                    },
                }
            }
            return Some(i);
        }
        i = i + 1;
    }
    proof {
        lemma_seq_find(v@, c);
        if let Some(j) = seq_find(v@, c) {
            assert(v@[j] == c);
        }
    }
    None
}

/// Splits `s` at the first `c`, as `str::split_once` does with a char pattern.
pub open spec fn seq_split_once(s: Seq<char>, c: char) -> Option<(Seq<char>, Seq<char>)> {
    match seq_find(s, c) {
        Some(i) => Some((s.subrange(0, i), s.subrange(i + 1, s.len() as int))),
        None => None,
    }
}

/// Splits `v` at the first `c`: the part before it and the part after it.
pub fn chars_split_once(v: &[char], c: char) -> (r: Option<(Vec<char>, Vec<char>)>)
    ensures
        match r {
            Some((a, b)) => seq_split_once(v@, c) == Some((a@, b@)),
            None => seq_split_once(v@, c) is None,
        },
{
    proof {
        lemma_seq_find(v@, c);
    }
    match chars_find(v, c) {
        Some(i) => {
            let n = v.len();
            assert(i < n);
            let a = chars_range(v, 0, i);
            let b = chars_range(v, i + 1, n);
            Some((a, b))
        },
        None => None,
    }
}

/// The parts of `s` between the occurrences of `c`, as `str::split` gives them.
pub open spec fn seq_split_all(s: Seq<char>, c: char) -> Seq<Seq<char>>
    decreases s.len(),
{
    match seq_find(s, c) {
        None => seq![s],
        Some(i) => {
            if 0 <= i < s.len() {
                seq![s.subrange(0, i)] + seq_split_all(s.subrange(i + 1, s.len() as int), c)
            } else {
                seq![s]
            }
        },
    }
}

/// Splits `v` at every `c`.
pub fn chars_split_all(v: &[char], c: char) -> (r: Vec<Vec<char>>)
    ensures
        r.deep_view() == seq_split_all(v@, c),
    decreases v.len(),
{
    proof {
        lemma_seq_find(v@, c);
    }
    match chars_find(v, c) {
        None => {
            let mut r: Vec<Vec<char>> = Vec::new();
            let w = chars_range(v, 0, v.len());
            assert(w@ =~= v@);
            r.push(w);
            assert(r.deep_view() =~= seq![v@]) by {
                assert(r.deep_view()[0] =~= w@);
            }
            r
        },
        Some(i) => {
            let n = v.len();
            assert(i < n);
            let a = chars_range(v, 0, i);
            let b = chars_range(v, i + 1, n);
            let rest = chars_split_all(b.as_slice(), c);
            let mut r: Vec<Vec<char>> = Vec::new();
            r.push(a);
            let mut k: usize = 0;
            assert(r.deep_view() =~= seq![a@]) by {
                assert(r.deep_view()[0] =~= a@);
            }
            while k < rest.len()
                invariant
                    k <= rest@.len(),
                    r.deep_view() == seq![a@] + rest.deep_view().subrange(0, k as int),
                decreases rest.len() - k,
            {
                let ghost old_r = r.deep_view();
                let x = chars_range(rest[k].as_slice(), 0, rest[k].len());
                assert(x@ =~= rest[k as int]@);
                r.push(x);
                assert(r.deep_view() =~= old_r.push(x.deep_view())) by {
                    assert(r.deep_view()[old_r.len() as int] =~= x@);
                }
                assert(x.deep_view() =~= x@);
                assert(rest.deep_view()[k as int] =~= rest[k as int]@);
                assert(rest.deep_view().subrange(0, k + 1) =~= rest.deep_view().subrange(0, k as int).push(rest.deep_view()[k as int]));
                k = k + 1;
            }
            assert(rest.deep_view().subrange(0, rest@.len() as int) =~= rest.deep_view());
            r
        },
    }
}

/// Whether two char sequences are equal.
pub fn chars_eq(a: &[char], b: &[char]) -> (r: bool)
    ensures
        r == (a@ == b@),
{
    if a.len() != b.len() {
        return false;
    }
    let mut i: usize = 0;
    while i < a.len()
        invariant
            a@.len() == b@.len(),
            i <= a@.len(),
            forall|k: int| 0 <= k < i ==> a@[k] == b@[k],
        decreases a.len() - i,
    {
        if a[i] != b[i] {
            return false;
        }
        i = i + 1;
    }
    assert(a@ =~= b@);
    true
}

/// Whether `v` holds exactly the chars of `lit`.
pub fn chars_are(v: &[char], lit: &str) -> (b: bool)
    ensures
        b == (v@ == lit@),
{
    let l = str_chars(lit);
    chars_eq(v, l.as_slice())
}

/// Appends all chars of `src` to `dst`.
pub fn push_chars(dst: &mut Vec<char>, src: &[char])
    ensures
        final(dst)@ == old(dst)@ + src@,
{
    let mut i: usize = 0;
    while i < src.len()
        invariant
            i <= src@.len(),
            dst@ == old(dst)@ + src@.subrange(0, i as int),
        decreases src.len() - i,
    {
        dst.push(src[i]);
        i = i + 1;
    }
    assert(src@.subrange(0, src@.len() as int) =~= src@);
}

} // verus!
