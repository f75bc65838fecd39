//! Data related utility functions: hex strings, white space clean up,
//! integer literals and decimal formatting.

use vstd::prelude::*;
use crate::text::{trim_hi, seq_split_once, chars_split_once, trim_lo, seq_find, lemma_seq_find, chars_find, chars_range, is_ws, str_chars, string_from_chars, trim_seq, trim_chars, seq_starts_with, chars_start_with, chars_from, push_chars, char_is_ws, lemma_trim_lo_bounds};

verus! {

// ---------------------------------------------------------------------------
// Hex strings to bytes
// ---------------------------------------------------------------------------

/// The value of a hex digit (`0-9`, `a-f`, `A-F`), as `char::to_digit(16)` gives it.
pub open spec fn hex_digit(c: char) -> Option<u8> {
    if '0' <= c && c <= '9' {
        Some((c as u32 - '0' as u32) as u8)
    } else if 'a' <= c && c <= 'f' {
        Some((c as u32 - 'a' as u32 + 10) as u8)
    } else if 'A' <= c && c <= 'F' {
        Some((c as u32 - 'A' as u32 + 10) as u8)
    } else {
        None
    }
}

/// The byte that two hex digits denote, high digit first.
pub open spec fn hex_pair(a: char, b: char) -> Option<u8> {
    match (hex_digit(a), hex_digit(b)) {
        (Some(h), Some(l)) => Some((h * 16 + l) as u8),
        _ => None,
    }
}

/// The bytes that a hex string denotes, read two chars at a time; `None`
/// when its length is odd or some pair is no valid byte.
pub open spec fn hex_decode(s: Seq<char>) -> Option<Seq<u8>>
    decreases s.len(),
{
    if s.len() == 0 {
        Some(Seq::empty())
    } else if s.len() == 1 {
        None
    } else {
        match (hex_pair(s[0], s[1]), hex_decode(s.subrange(2, s.len() as int))) {
            (Some(v), Some(rest)) => Some(seq![v] + rest),
            _ => None,
        }
    }
}

fn hex_digit_exec(c: char) -> (r: Option<u8>)
    ensures
        r == hex_digit(c),
{
    if '0' <= c && c <= '9' {
        Some((c as u32 - '0' as u32) as u8)
    } else if 'a' <= c && c <= 'f' {
        Some((c as u32 - 'a' as u32 + 10) as u8)
    } else if 'A' <= c && c <= 'F' {
        Some((c as u32 - 'A' as u32 + 10) as u8)
    } else {
        None
    }
}

fn hex_pair_exec(a: char, b: char) -> (r: Option<u8>)
    ensures
        r == hex_pair(a, b),
{
    match (hex_digit_exec(a), hex_digit_exec(b)) {
        (Some(h), Some(l)) => Some(h * 16 + l),
        _ => None,
    }
}

proof fn lemma_hex_decode_step(s: Seq<char>, i: int, acc: Seq<u8>)
    requires
        0 <= i,
        i + 2 <= s.len(),
        i % 2 == 0,
        hex_decode(s) == (match hex_decode(s.subrange(i, s.len() as int)) {
            Some(rest) => Some(acc + rest),
            None => None::<Seq<u8>>,
        }),
    ensures
        hex_decode(s) == (match hex_decode(s.subrange(i + 2, s.len() as int)) {
            Some(rest) => match hex_pair(s[i], s[i + 1]) {
                Some(v) => Some(acc + seq![v] + rest),
                None => None::<Seq<u8>>,
            },
            None => None::<Seq<u8>>,
        }),
{
    let t = s.subrange(i, s.len() as int);
    assert(t.subrange(2, t.len() as int) =~= s.subrange(i + 2, s.len() as int));
    assert(t[0] == s[i] && t[1] == s[i + 1]);
    match (hex_pair(s[i], s[i + 1]), hex_decode(s.subrange(i + 2, s.len() as int))) {
        (Some(v), Some(rest)) => {
            assert(acc + (seq![v] + rest) =~= acc + seq![v] + rest);
        },
        _ => {},
    }
}

/// Decodes the bytes that a hex string denotes, two chars at a time.
pub fn hex_decode_chars(s: &[char]) -> (r: Option<Vec<u8>>)
    ensures
        match r {
            Some(v) => hex_decode(s@) == Some(v@),
            None => hex_decode(s@) is None,
        },
{
    let n = s.len();
    let mut out: Vec<u8> = Vec::new();
    let mut i: usize = 0;
    assert(s@.subrange(0, n as int) =~= s@);
    while i < n && n - i >= 2
        invariant
            n == s@.len(),
            i <= n,
            i % 2 == 0,
            hex_decode(s@) == (match hex_decode(s@.subrange(i as int, n as int)) {
                Some(rest) => Some(out@ + rest),
                None => None::<Seq<u8>>,
            }),
        decreases n - i,
    {
        proof {
            lemma_hex_decode_step(s@, i as int, out@);
        }
        match hex_pair_exec(s[i], s[i + 1]) {
            Some(v) => {
                out.push(v);
            },
            None => {
                return None;
            },
        }
        i = i + 2;
    }
    if i < n {
        assert(s@.subrange(i as int, n as int).len() == 1);
        return None;
    }
    assert(s@.subrange(i as int, n as int).len() == 0);
    assert(out@ + Seq::<u8>::empty() =~= out@);
    Some(out)
}

/// Converts a hex string to the bytes it denotes, two hex digits to a byte.
/// Fails when the length is odd or some pair is no base 16 byte.
pub fn vu8_from_hex(ins: &str) -> (r: Result<Vec<u8>, String>)
    ensures
        match r {
            Ok(v) => hex_decode(ins@) == Some(v@),
            Err(_) => hex_decode(ins@) is None,
        },
{
    let v = str_chars(ins);
    match hex_decode_chars(v.as_slice()) {
        Some(b) => Ok(b),
        None => Err(String::from_str("ERRR:DU:VU8FromHex:invalid hex string")),
    }
}

// ---------------------------------------------------------------------------
// Bytes to hex strings
// ---------------------------------------------------------------------------

/// The decimal digits of a number, most significant first (`"0"` for zero).
pub open spec fn dec_digits(n: nat) -> Seq<char>
    decreases n,
{
    if n < 10 {
        seq![(('0' as u32) + n) as char]
    } else {
        dec_digits(n / 10) + seq![(('0' as u32) + (n % 10)) as char]
    }
}

/// The lower case hex digit of a value below 16.
pub open spec fn hex_char(n: nat) -> char {
    if n < 10 { (('0' as u32) + n) as char } else { (('a' as u32) + (n - 10)) as char }
}

/// The two hex digits that `hex_from_vu8` writes for one byte, high nibble first.
pub open spec fn hex_text(b: u8) -> Seq<char> {
    seq![hex_char((b / 16) as nat), hex_char((b % 16) as nat)]
}

/// The hex string that `hex_from_vu8` writes for a sequence of bytes.
pub open spec fn hex_text_all(v: Seq<u8>) -> Seq<char>
    decreases v.len(),
{
    if v.len() == 0 {
        Seq::empty()
    } else {
        hex_text_all(v.drop_last()) + hex_text(v.last())
    }
}

fn push_hex_digit(out: &mut Vec<char>, n: u8)
    requires
        n < 16,
    ensures
        final(out)@ == old(out)@.push(hex_char(n as nat)),
{
    if n < 10 {
        out.push(((('0' as u32) + n as u32) as u8) as char);
        assert((((('0' as u32) + n as u32) as u8) as char) == (('0' as u32) + n as nat) as char);
    } else {
        out.push(((('a' as u32) + (n - 10) as u32) as u8) as char);
        assert((((('a' as u32) + (n - 10) as u32) as u8) as char) == (('a' as u32) + (n as nat - 10)) as char);
    }
}

/// Converts bytes to a hex string: two lower case hex digits per byte,
/// high nibble first (so `[0x0a, 0xff]` gives `"0aff"`).
pub fn hex_from_vu8(inv: &Vec<u8>) -> (s: String)
    ensures
        s@ == hex_text_all(inv@),
{
    let mut outs: Vec<char> = Vec::new();
    let mut i: usize = 0;
    while i < inv.len()
        invariant
            i <= inv@.len(),
            outs@ == hex_text_all(inv@.subrange(0, i as int)),
        decreases inv.len() - i,
    {
        let cu8 = inv[i];
        let bhigh = (cu8 & 0xF0) >> 4;
        let blow = cu8 & 0x0F;
        assert(bhigh == cu8 / 16 && blow == cu8 % 16) by (bit_vector)
            requires
                bhigh == (cu8 & 0xF0) >> 4,
                blow == cu8 & 0x0F,
        ;
        push_hex_digit(&mut outs, bhigh);
        push_hex_digit(&mut outs, blow);
        assert(inv@.subrange(0, i + 1).drop_last() =~= inv@.subrange(0, i as int));
        i = i + 1;
    }
    assert(inv@.subrange(0, inv@.len() as int) =~= inv@);
    string_from_chars(outs.as_slice())
}

proof fn lemma_hex_decode_concat(a: Seq<char>, b: Seq<char>)
    requires
        a.len() % 2 == 0,
    ensures
        hex_decode(a + b) == (match (hex_decode(a), hex_decode(b)) {
            (Some(x), Some(y)) => Some(x + y),
            _ => None::<Seq<u8>>,
        }),
    decreases a.len(),
{
    if a.len() == 0 {
        assert(a + b =~= b);
        assert(hex_decode(a) == Some(Seq::<u8>::empty()));
        match hex_decode(b) {
            Some(y) => {
                assert(Seq::<u8>::empty() + y =~= y);
            },
            None => {},
        }
    } else {
        let r = a.subrange(2, a.len() as int);
        lemma_hex_decode_concat(r, b);
        assert((a + b).subrange(2, (a + b).len() as int) =~= r + b);
        assert((a + b)[0] == a[0] && (a + b)[1] == a[1]);
        match (hex_pair(a[0], a[1]), hex_decode(r), hex_decode(b)) {
            (Some(v), Some(x), Some(y)) => {
                assert(seq![v] + (x + y) =~= (seq![v] + x) + y);
            },
            _ => {},
        }
    }
}

proof fn lemma_hex_char(n: nat)
    requires
        n < 16,
    ensures
        hex_digit(hex_char(n)) == Some(n as u8),
{
}

/// What `hex_from_vu8` writes, `vu8_from_hex` reads back, and it has two
/// chars per byte.
pub proof fn law_hex_roundtrip(v: Seq<u8>)
    ensures
        hex_decode(hex_text_all(v)) == Some(v),
        hex_text_all(v).len() == 2 * v.len(),
    decreases v.len(),
{
    if v.len() > 0 {
        let p = v.drop_last();
        law_hex_roundtrip(p);
        let b = v.last();
        let h = (b / 16) as nat;
        let l = (b % 16) as nat;
        let t = hex_text(b);
        lemma_hex_char(h);
        lemma_hex_char(l);
        lemma_hex_decode_concat(hex_text_all(p), t);
        assert(t.subrange(2, 2) =~= Seq::<char>::empty());
        assert((h * 16 + l) as u8 == b) by (nonlinear_arith)
            requires
                h == b / 16,
                l == b % 16,
        ;
        assert(hex_pair(t[0], t[1]) == Some(b));
        assert(hex_decode(t.subrange(2, 2)) == Some(Seq::<u8>::empty()));
        assert(seq![b] + Seq::<u8>::empty() =~= seq![b]);
        assert(hex_decode(t) == Some(seq![b]));
        assert(p + seq![b] =~= v);
    }
}

// ---------------------------------------------------------------------------
// Extra white space removal
// ---------------------------------------------------------------------------

/// The scan state of `remove_extra_whitespaces`: after an escape char inside
/// quotes, inside quotes, right after white space.
pub struct WsState {
    pub besc: bool,
    pub binquotes: bool,
    pub bwhitespace: bool,
}

/// One char of `remove_extra_whitespaces`: the next state and what it writes.
pub open spec fn ws_step(st: WsState, c: char) -> (WsState, Seq<char>) {
    if is_ws(c) {
        if st.binquotes {
            (st, seq![c])
        } else if !st.bwhitespace {
            (WsState { bwhitespace: true, ..st }, seq![' '])
        } else {
            (st, Seq::empty())
        }
    } else {
        let st1 = WsState { bwhitespace: false, ..st };
        if st1.besc {
            (WsState { besc: false, ..st1 }, seq![c])
        } else if c == '"' {
            (WsState { binquotes: !st1.binquotes, ..st1 }, seq![c])
        } else if c == '\\' {
            (WsState { besc: st1.binquotes, ..st1 }, seq![c])
        } else {
            (st1, seq![c])
        }
    }
}

/// The state and output of `remove_extra_whitespaces` after scanning `s`.
pub open spec fn ws_fold(s: Seq<char>) -> (WsState, Seq<char>)
    decreases s.len(),
{
    if s.len() == 0 {
        (WsState { besc: false, binquotes: false, bwhitespace: false }, Seq::empty())
    } else {
        let (st, out) = ws_fold(s.drop_last());
        let (st2, o) = ws_step(st, s.last());
        (st2, out + o)
    }
}

/// Collapses each run of white space outside double quotes into a single
/// space; white space inside double quotes is kept as is. Inside quotes a `\`
/// makes the next char an ordinary one (so `\"` does not close the quotes).
pub fn remove_extra_whitespaces(ins: &str) -> (outs: String)
    ensures
        outs@ == ws_fold(ins@).1,
{
    let incv = str_chars(ins);
    let r = remove_extra_whitespaces_chars(incv.as_slice());
    string_from_chars(r.as_slice())
}

/// `remove_extra_whitespaces` over chars.
pub fn remove_extra_whitespaces_chars(incv: &[char]) -> (outs: Vec<char>)
    ensures
        outs@ == ws_fold(incv@).1,
{
    let mut outs: Vec<char> = Vec::new();
    let mut besc = false;
    let mut binquotes = false;
    let mut bwhitespace = false;
    let mut i: usize = 0;
    while i < incv.len()
        invariant
            i <= incv@.len(),
            ws_fold(incv@.subrange(0, i as int)) == (WsState { besc, binquotes, bwhitespace }, outs@),
        decreases incv.len() - i,
    {
        let c = incv[i];
        assert(incv@.subrange(0, i + 1).drop_last() =~= incv@.subrange(0, i as int));
        assert(incv@.subrange(0, i + 1).last() == c);
        i = i + 1;
        if char_is_ws(c) {
            if binquotes {
                outs.push(c);
            } else {
                if !bwhitespace {
                    bwhitespace = true;
                    outs.push(' ');
                } else {
                    assert(outs@ + Seq::<char>::empty() =~= outs@);
                }
            }
            continue;
        }
        bwhitespace = false;
        outs.push(c);
        if besc {
            besc = false;
            continue;
        }
        if c == '"' {
            binquotes = !binquotes;
            continue;
        }
        if c == '\\' {
            if binquotes {
                besc = true;
            }
            continue;
        }
    }
    assert(incv@.subrange(0, incv@.len() as int) =~= incv@);
    outs
}

proof fn lemma_ws_fold_unquoted(s: Seq<char>)
    requires
        forall|k: int| 0 <= k < s.len() ==> s[k] != '"',
    ensures
        !ws_fold(s).0.besc,
        !ws_fold(s).0.binquotes,
        ws_fold(s).0.bwhitespace == (ws_fold(s).1.len() > 0 && ws_fold(s).1.last() == ' '),
        forall|k: int| 0 <= k < ws_fold(s).1.len() && is_ws(#[trigger] ws_fold(s).1[k]) ==> ws_fold(s).1[k] == ' ',
        forall|k: int| 0 <= k < ws_fold(s).1.len() - 1 && #[trigger] ws_fold(s).1[k] == ' ' ==> ws_fold(s).1[k + 1] != ' ',
    decreases s.len(),
{
    if s.len() > 0 {
        let p = s.drop_last();
        assert forall|k: int| 0 <= k < p.len() implies p[k] != '"' by {
            assert(p[k] == s[k]);
        }
        lemma_ws_fold_unquoted(p);
        assert(s[s.len() - 1] != '"');
        let (st, out) = ws_fold(p);
        let (st2, o) = ws_step(st, s.last());
        let n = out + o;
        assert(ws_fold(s) == (st2, n));
        if o.len() == 0 {
            assert(n =~= out);
        } else {
            assert(o.len() == 1);
            assert forall|k: int| 0 <= k < n.len() && is_ws(#[trigger] n[k]) implies n[k] == ' ' by {
                if k < out.len() {
                    assert(n[k] == out[k]);
                }
            }
            assert forall|k: int| 0 <= k < n.len() - 1 && #[trigger] n[k] == ' ' implies n[k + 1] != ' ' by {
                if k + 1 < out.len() {
                    assert(n[k] == out[k] && n[k + 1] == out[k + 1]);
                } else {
                    assert(n[k] == out[k]);
                }
            }
        }
    }
}

/// Outside double quotes, removing extra white space leaves only single
/// spaces: in a text without quotes, every white space char of the output
/// is a space, and no two spaces stand next to each other.
pub proof fn law_remove_extra_whitespaces_unquoted(s: Seq<char>)
    requires
        forall|k: int| 0 <= k < s.len() ==> s[k] != '"',
    ensures
        forall|k: int| 0 <= k < ws_fold(s).1.len() && is_ws(#[trigger] ws_fold(s).1[k]) ==> ws_fold(s).1[k] == ' ',
        forall|k: int| 0 <= k < ws_fold(s).1.len() - 1 && #[trigger] ws_fold(s).1[k] == ' ' ==> ws_fold(s).1[k + 1] != ' ',
{
    lemma_ws_fold_unquoted(s);
}

/// Removing extra white space twice gives what removing it once gives: the
/// output holds no run of white space outside quotes, and scanning it ends
/// in the same state.
pub proof fn law_remove_extra_whitespaces_idempotent(s: Seq<char>)
    ensures
        ws_fold(ws_fold(s).1) == ws_fold(s),
    decreases s.len(),
{
    if s.len() > 0 {
        let p = s.drop_last();
        law_remove_extra_whitespaces_idempotent(p);
        let (st, out) = ws_fold(p);
        let (st2, o) = ws_step(st, s.last());
        assert(ws_fold(s) == (st2, out + o));
        if o.len() == 0 {
            assert(out + o =~= out);
        } else {
            assert(o.len() == 1);
            assert((out + o).drop_last() =~= out);
            assert((out + o).last() == o[0]);
            assert(ws_step(st, o[0]) == (st2, o));
        }
    }
}

// ---------------------------------------------------------------------------
// Integer literals
// ---------------------------------------------------------------------------

/// The value of a digit in the given radix (2 to 36), as `char::to_digit` gives it.
pub open spec fn digit_value(c: char, radix: nat) -> Option<nat> {
    let d: int = if '0' <= c && c <= '9' {
        c as u32 - '0' as u32
    } else if 'a' <= c && c <= 'z' {
        c as u32 - 'a' as u32 + 10
    } else if 'A' <= c && c <= 'Z' {
        c as u32 - 'A' as u32 + 10
    } else {
        99
    };
    if d < radix { Some(d as nat) } else { None }
}

/// The value of a run of digits, most significant first; `None` when some
/// char is no digit of the radix.
pub open spec fn digits_value(d: Seq<char>, radix: nat) -> Option<nat>
    decreases d.len(),
{
    if d.len() == 0 {
        Some(0)
    } else {
        match (digits_value(d.drop_last(), radix), digit_value(d.last(), radix)) {
            (Some(h), Some(l)) => Some(h * radix + l),
            _ => None,
        }
    }
}

/// The integer that `isize::from_str_radix` reads from `s` before its range
/// check: an optional `+` or `-`, then at least one digit of the radix.
pub open spec fn radix_value(s: Seq<char>, radix: nat) -> Option<int> {
    if s.len() == 0 {
        None
    } else if (s[0] == '+' || s[0] == '-') && s.len() == 1 {
        None
    } else if s[0] == '+' {
        match digits_value(s.drop_first(), radix) {
            Some(v) => Some(v as int),
            None => None,
        }
    } else if s[0] == '-' {
        match digits_value(s.drop_first(), radix) {
            Some(v) => Some(-(v as int)),
            None => None,
        }
    } else {
        match digits_value(s, radix) {
            Some(v) => Some(v as int),
            None => None,
        }
    }
}

/// What `isize::from_str_radix(s, radix)` returns: the value, when it reads
/// one that fits in an `isize`.
pub open spec fn isize_from_radix(s: Seq<char>, radix: nat) -> Option<isize> {
    match radix_value(s, radix) {
        Some(v) => if isize::MIN <= v && v <= isize::MAX { Some(v as isize) } else { None },
        None => None,
    }
}

proof fn lemma_digits_value_grows(d: Seq<char>, radix: nat, k: int)
    requires
        2 <= radix,
        0 <= k <= d.len(),
        digits_value(d, radix) is Some,
    ensures
        digits_value(d.subrange(0, k), radix) is Some,
        digits_value(d.subrange(0, k), radix).unwrap() <= digits_value(d, radix).unwrap(),
    decreases d.len(),
{
    if k < d.len() {
        assert(d.drop_last().subrange(0, k) =~= d.subrange(0, k));
        lemma_digits_value_grows(d.drop_last(), radix, k);
        let h = digits_value(d.drop_last(), radix).unwrap();
        let l = digit_value(d.last(), radix).unwrap();
        assert(h <= h * radix + l) by (nonlinear_arith)
            requires
                2 <= radix,
        ;
    } else {
        assert(d.subrange(0, k) =~= d);
    }
}

/// Reads digits in the given radix into an `isize`, negated when `neg`,
/// failing as `from_str_radix` does on a bad digit or on overflow.
fn digits_to_isize(d: &[char], radix: u32, neg: bool) -> (r: Option<isize>)
    requires
        2 <= radix <= 36,
    ensures
        match r {
            Some(v) => digits_value(d@, radix as nat) is Some && v as int == (if neg {
                -(digits_value(d@, radix as nat).unwrap() as int)
            } else {
                digits_value(d@, radix as nat).unwrap() as int
            }),
            None => digits_value(d@, radix as nat) is None || (if neg {
                -(digits_value(d@, radix as nat).unwrap() as int) < isize::MIN
            } else {
                digits_value(d@, radix as nat).unwrap() > isize::MAX
            }),
        },
{
    let mut acc: isize = 0;
    let mut i: usize = 0;
    assert(d@.subrange(0, 0) =~= Seq::<char>::empty());
    while i < d.len()
        invariant
            2 <= radix <= 36,
            i <= d@.len(),
            digits_value(d@.subrange(0, i as int), radix as nat) is Some,
            acc as int == (if neg {
                -(digits_value(d@.subrange(0, i as int), radix as nat).unwrap() as int)
            } else {
                digits_value(d@.subrange(0, i as int), radix as nat).unwrap() as int
            }),
        decreases d.len() - i,
    {
        let c = d[i];
        let dv: u32 = if '0' <= c && c <= '9' {
            c as u32 - '0' as u32
        } else if 'a' <= c && c <= 'z' {
            c as u32 - 'a' as u32 + 10
        } else if 'A' <= c && c <= 'Z' {
            c as u32 - 'A' as u32 + 10
        } else {
            99
        };
        let ghost pre = d@.subrange(0, i as int);
        let ghost nxt = d@.subrange(0, i + 1);
        assert(nxt.drop_last() =~= pre);
        assert(nxt.last() == c);
        if dv >= radix {
            proof {
                assert(digits_value(nxt, radix as nat) is None);
                if digits_value(d@, radix as nat) is Some {
                    lemma_digits_value_grows(d@, radix as nat, i + 1);
                }
            }
            return None;
        }
        let ghost h = digits_value(pre, radix as nat).unwrap();
        assert(digits_value(nxt, radix as nat) == Some(h * radix as nat + dv as nat));
        let m = acc.checked_mul(radix as isize);
        match m {
            None => {
                proof {
                    if digits_value(d@, radix as nat) is Some {
                        lemma_digits_value_grows(d@, radix as nat, i + 1);
                        let t = digits_value(d@, radix as nat).unwrap();
                        assert(h * radix as nat <= h * radix as nat + dv as nat);
                        if neg {
                            assert(acc as int * radix as int == -(h * radix as nat)) by (nonlinear_arith)
                                requires acc as int == -(h as int);
                        } else {
                            assert(acc as int * radix as int == h * radix as nat) by (nonlinear_arith)
                                requires acc as int == h as int;
                        }
                    }
                }
                return None;
            },
            Some(m) => {
                proof {
                    if neg {
                        assert(acc as int * radix as int == -(h * radix as nat)) by (nonlinear_arith)
                            requires acc as int == -(h as int);
                    } else {
                        assert(acc as int * radix as int == h * radix as nat) by (nonlinear_arith)
                            requires acc as int == h as int;
                    }
                }
                let s = if neg { m.checked_sub(dv as isize) } else { m.checked_add(dv as isize) };
                match s {
                    None => {
                        proof {
                            if digits_value(d@, radix as nat) is Some {
                                lemma_digits_value_grows(d@, radix as nat, i + 1);
                            }
                        }
                        return None;
                    },
                    Some(s) => {
                        acc = s;
                    },
                }
            },
        }
        i = i + 1;
    }
    assert(d@.subrange(0, d@.len() as int) =~= d@);
    Some(acc)
}

/// `isize::from_str_radix` over chars.
pub fn isize_from_str_radix(s: &[char], radix: u32) -> (r: Option<isize>)
    requires
        2 <= radix <= 36,
    ensures
        r == isize_from_radix(s@, radix as nat),
{
    if s.len() == 0 {
        return None;
    }
    if (s[0] == '+' || s[0] == '-') && s.len() == 1 {
        return None;
    }
    let r = if s[0] == '+' {
        let d = chars_from(s, 1);
        assert(d@ =~= s@.drop_first());
        digits_to_isize(d.as_slice(), radix, false)
    } else if s[0] == '-' {
        let d = chars_from(s, 1);
        assert(d@ =~= s@.drop_first());
        digits_to_isize(d.as_slice(), radix, true)
    } else {
        digits_to_isize(s, radix, false)
    };
    r
}

/// What `usize::from_str_radix(s, radix)` returns: an optional `+`, then at
/// least one digit of the radix, of a value that fits in a `usize`.
pub open spec fn usize_from_radix(s: Seq<char>, radix: nat) -> Option<usize> {
    if s.len() == 0 {
        None
    } else if (s[0] == '+' || s[0] == '-') && s.len() == 1 {
        None
    } else {
        let d = if s[0] == '+' { s.drop_first() } else { s };
        match digits_value(d, radix) {
            Some(v) => if v <= usize::MAX { Some(v as usize) } else { None },
            None => None,
        }
    }
}

fn digits_to_usize(d: &[char], radix: u32) -> (r: Option<usize>)
    requires
        2 <= radix <= 36,
    ensures
        match r {
            Some(v) => digits_value(d@, radix as nat) == Some(v as nat),
            None => digits_value(d@, radix as nat) is None || digits_value(d@, radix as nat).unwrap() > usize::MAX,
        },
{
    let mut acc: usize = 0;
    let mut i: usize = 0;
    assert(d@.subrange(0, 0) =~= Seq::<char>::empty());
    while i < d.len()
        invariant
            2 <= radix <= 36,
            i <= d@.len(),
            digits_value(d@.subrange(0, i as int), radix as nat) == Some(acc as nat),
        decreases d.len() - i,
    {
        let c = d[i];
        let dv: u32 = if '0' <= c && c <= '9' {
            c as u32 - '0' as u32
        } else if 'a' <= c && c <= 'z' {
            c as u32 - 'a' as u32 + 10
        } else if 'A' <= c && c <= 'Z' {
            c as u32 - 'A' as u32 + 10
        } else {
            99
        };
        let ghost nxt = d@.subrange(0, i + 1);
        assert(nxt.drop_last() =~= d@.subrange(0, i as int));
        assert(nxt.last() == c);
        if dv >= radix {
            proof {
                if digits_value(d@, radix as nat) is Some {
                    lemma_digits_value_grows(d@, radix as nat, i + 1);
                }
            }
            return None;
        }
        assert(digits_value(nxt, radix as nat) == Some(acc as nat * radix as nat + dv as nat));
        match acc.checked_mul(radix as usize) {
            None => {
                proof {
                    if digits_value(d@, radix as nat) is Some {
                        lemma_digits_value_grows(d@, radix as nat, i + 1);
                    }
                }
                return None;
            },
            Some(m) => {
                match m.checked_add(dv as usize) {
                    None => {
                        proof {
                            if digits_value(d@, radix as nat) is Some {
                                lemma_digits_value_grows(d@, radix as nat, i + 1);
                            }
                        }
                        return None;
                    },
                    Some(s) => {
                        acc = s;
                    },
                }
            },
        }
        i = i + 1;
    }
    assert(d@.subrange(0, d@.len() as int) =~= d@);
    Some(acc)
}

/// `usize::from_str_radix` over chars.
pub fn usize_from_str_radix(s: &[char], radix: u32) -> (r: Option<usize>)
    requires
        2 <= radix <= 36,
    ensures
        r == usize_from_radix(s@, radix as nat),
{
    if s.len() == 0 {
        return None;
    }
    if (s[0] == '+' || s[0] == '-') && s.len() == 1 {
        return None;
    }
    if s[0] == '+' {
        let d = chars_from(s, 1);
        assert(d@ =~= s@.drop_first());
        digits_to_usize(d.as_slice(), radix)
    } else {
        digits_to_usize(s, radix)
    }
}

/// The integer that `intvalue` reads from a string: after trimming white
/// space, a `0x` prefix selects hexadecimal, else the text is decimal.
pub open spec fn intvalue_spec(s: Seq<char>) -> Option<isize> {
    let t = trim_seq(s);
    if seq_starts_with(t, seq!['0', 'x']) {
        isize_from_radix(t.subrange(2, t.len() as int), 16)
    } else {
        isize_from_radix(t, 10)
    }
}

/// Converts a string to an integer, treating it as hexadecimal when it
/// starts with `0x` (after trimming white space) and as decimal otherwise;
/// the text must hold such an integer (`intvalue_chars` checks first).
pub fn intvalue(sval: &str) -> (r: isize)
    requires
        intvalue_spec(sval@) is Some,
    ensures
        intvalue_spec(sval@) == Some(r),
{
    let v = str_chars(sval);
    intvalue_chars(v.as_slice()).unwrap()
}

/// `intvalue` over chars, checking the text: `None` where it holds no integer.
pub fn intvalue_chars(s: &[char]) -> (r: Option<isize>)
    ensures
        r == intvalue_spec(s@),
{
    let t = trim_chars(s);
    let pfx = ['0', 'x'];
    let b = chars_start_with(t.as_slice(), pfx.as_slice());
    assert(pfx@ =~= seq!['0', 'x']);
    if b {
        let d = chars_from(t.as_slice(), 2);
        isize_from_str_radix(d.as_slice(), 16)
    } else {
        isize_from_str_radix(t.as_slice(), 10)
    }
}

// ---------------------------------------------------------------------------
// Tokens of a script line
// ---------------------------------------------------------------------------

/// The index of the double quote that closes a quoted string, searching
/// from `i`; a `\` makes the next char an ordinary one.
pub open spec fn quote_close(s: Seq<char>, i: int) -> Option<int>
    decreases s.len() - i,
{
    if i < 0 || i >= s.len() {
        None
    } else if s[i] == '\\' {
        if i + 1 >= s.len() {
            None
        } else {
            quote_close(s, i + 2)
        }
    } else if s[i] == '"' {
        Some(i)
    } else {
        quote_close(s, i + 1)
    }
}

/// The index of the first white space char at or after `i` (or the length).
pub open spec fn word_end(s: Seq<char>, i: int) -> int
    decreases s.len() - i,
{
    if i < 0 || i >= s.len() {
        i
    } else if is_ws(s[i]) {
        i
    } else {
        word_end(s, i + 1)
    }
}

/// The next token of a text and the text after it: white space is skipped,
/// then a token is a double quoted string (up to its closing quote, which
/// must be there) or a run of chars up to white space; the text after it
/// starts past the white space that follows the token.
pub open spec fn next_token(s: Seq<char>) -> Option<(Seq<char>, Seq<char>)> {
    let st = trim_lo(s, 0);
    if st >= s.len() {
        Some((Seq::empty(), Seq::empty()))
    } else if s[st] == '"' {
        match quote_close(s, st + 1) {
            Some(q) => Some((s.subrange(st, q + 1), s.subrange(trim_lo(s, q + 1), s.len() as int))),
            None => None,
        }
    } else {
        let e = word_end(s, st);
        Some((s.subrange(st, e), s.subrange(trim_lo(s, e), s.len() as int)))
    }
}

/// What is left after the next token is shorter than a text that is not empty.
pub proof fn lemma_next_token_shorter(s: Seq<char>)
    requires
        s.len() > 0,
    ensures
        next_token(s) matches Some((t, r)) ==> r.len() < s.len(),
{
    lemma_trim_lo_bounds(s, 0);
    let st = trim_lo(s, 0);
    if st < s.len() {
        if s[st] == '"' {
            lemma_quote_close(s, st + 1);
            if let Some(q) = quote_close(s, st + 1) {
                lemma_trim_lo_bounds(s, q + 1);
            }
        } else {
            lemma_word_end(s, st + 1);
            assert(word_end(s, st) == word_end(s, st + 1));
            lemma_trim_lo_bounds(s, word_end(s, st));
        }
    }
}

pub proof fn lemma_quote_close(s: Seq<char>, i: int)
    requires
        0 <= i,
    ensures
        quote_close(s, i) matches Some(q) ==> i <= q < s.len() && s[q] == '"',
    decreases s.len() - i,
{
    if i < s.len() {
        if s[i] == '\\' {
            if i + 1 < s.len() {
                lemma_quote_close(s, i + 2);
            }
        } else if s[i] != '"' {
            lemma_quote_close(s, i + 1);
        }
    }
}

pub proof fn lemma_word_end(s: Seq<char>, i: int)
    requires
        0 <= i <= s.len(),
    ensures
        i <= word_end(s, i) <= s.len(),
    decreases s.len() - i,
{
    if i < s.len() && !is_ws(s[i]) {
        lemma_word_end(s, i + 1);
    }
}

/// The index of the closing double quote of a quoted string (see `quote_close`).
pub fn find_quote_close(s: &[char], from: usize) -> (r: Option<usize>)
    ensures
        match r {
            Some(q) => quote_close(s@, from as int) == Some(q as int),
            None => quote_close(s@, from as int) is None,
        },
{
    let mut i = from;
    while i < s.len()
        invariant
            from <= i,
            quote_close(s@, from as int) == quote_close(s@, i as int),
        decreases s.len() - i,
    {
        if s[i] == '\\' {
            if s.len() - i < 2 {
                return None;
            }
            i = i + 2;
        } else if s[i] == '"' {
            return Some(i);
        } else {
            i = i + 1;
        }
    }
    None
}

/// The index of the first char at or after `i` that is not white space.
fn skip_ws(s: &[char], i: usize) -> (r: usize)
    requires
        i <= s@.len(),
    ensures
        r == trim_lo(s@, i as int),
{
    let n = s.len();
    let mut k = i;
    while k < n && char_is_ws(s[k])
        invariant
            n == s@.len(),
            i <= k <= n,
            trim_lo(s@, k as int) == trim_lo(s@, i as int),
        decreases n - k,
    {
        k = k + 1;
    }
    k
}

/// The next token of a text and the text after it (see `next_token`).
pub fn next_token_chars(s: &[char]) -> (r: Option<(Vec<char>, Vec<char>)>)
    ensures
        match r {
            Some((t, rest)) => next_token(s@) == Some((t@, rest@)),
            None => next_token(s@) is None,
        },
{
    let n = s.len();
    let st = skip_ws(s, 0);
    proof {
        lemma_trim_lo_bounds(s@, 0);
    }
    if st >= n {
        return Some((Vec::new(), Vec::new()));
    }
    if s[st] == '"' {
        proof {
            lemma_quote_close(s@, st + 1);
        }
        match find_quote_close(s, st + 1) {
            Some(q) => {
                let t = chars_range(s, st, q + 1);
                let k = skip_ws(s, q + 1);
                proof {
                    lemma_trim_lo_bounds(s@, q + 1);
                }
                let rest = chars_range(s, k, n);
                Some((t, rest))
            },
            None => None,
        }
    } else {
        let mut e = st;
        while e < n && !char_is_ws(s[e])
            invariant
                n == s@.len(),
                st <= e <= n,
                word_end(s@, e as int) == word_end(s@, st as int),
            decreases n - e,
        {
            e = e + 1;
        }
        let t = chars_range(s, st, e);
        let k = skip_ws(s, e);
        proof {
            lemma_trim_lo_bounds(s@, e as int);
        }
        let rest = chars_range(s, k, n);
        Some((t, rest))
    }
}

/// The words of a text from index `i` on: its runs of chars between white
/// space (what `str::split_whitespace` gives).
pub open spec fn ws_words_from(s: Seq<char>, i: int) -> Seq<Seq<char>>
    decreases s.len() - i,
{
    if i < 0 || i >= s.len() {
        Seq::empty()
    } else {
        let st = trim_lo(s, i);
        if st >= s.len() {
            Seq::empty()
        } else {
            proof {
                lemma_trim_lo_bounds(s, i);
                lemma_word_end(s, st + 1);
            }
            let e = word_end(s, st);
            seq![s.subrange(st, e)] + ws_words_from(s, e)
        }
    }
}

/// The words of a text (what `str::split_whitespace` gives).
pub open spec fn ws_words(s: Seq<char>) -> Seq<Seq<char>> {
    ws_words_from(s, 0)
}

/// The char sequences of a list of char vectors.
pub open spec fn char_seqs(v: Seq<Vec<char>>) -> Seq<Seq<char>> {
    v.map_values(|x: Vec<char>| x@)
}

/// The words of a text, split at white space (see `ws_words`).
pub fn split_whitespace_chars(s: &[char]) -> (r: Vec<Vec<char>>)
    ensures
        char_seqs(r@) == ws_words(s@),
{
    let n = s.len();
    let mut out: Vec<Vec<char>> = Vec::new();
    let mut i: usize = 0;
    assert(char_seqs(out@) + ws_words_from(s@, 0) =~= ws_words(s@));
    while i < n
        invariant
            n == s@.len(),
            i <= n,
            char_seqs(out@) + ws_words_from(s@, i as int) == ws_words(s@),
        decreases n - i,
    {
        let st = skip_ws(s, i);
        proof {
            lemma_trim_lo_bounds(s@, i as int);
        }
        if st >= n {
            assert(ws_words_from(s@, i as int) =~= Seq::<Seq<char>>::empty());
            assert(char_seqs(out@) + Seq::<Seq<char>>::empty() =~= char_seqs(out@));
            i = n;
        } else {
            let mut e = st;
            while e < n && !char_is_ws(s[e])
                invariant
                    n == s@.len(),
                    st <= e <= n,
                    word_end(s@, e as int) == word_end(s@, st as int),
                decreases n - e,
            {
                e = e + 1;
            }
            let w = chars_range(s, st, e);
            let ghost old_out = out@;
            out.push(w);
            proof {
                lemma_word_end(s@, st + 1);
                assert(char_seqs(out@) =~= char_seqs(old_out).push(w@));
                assert(ws_words_from(s@, i as int) == seq![w@] + ws_words_from(s@, e as int));
                assert(char_seqs(out@) + ws_words_from(s@, e as int) =~= char_seqs(old_out) + ws_words_from(s@, i as int));
            }
            i = e;
        }
    }
    assert(ws_words_from(s@, n as int) =~= Seq::<Seq<char>>::empty());
    assert(char_seqs(out@) + Seq::<Seq<char>>::empty() =~= char_seqs(out@));
    out
}

/// The tokens of a text, one `next_token` after another until nothing is
/// left; `None` when a quoted token is not closed.
pub open spec fn tokens_of(s: Seq<char>) -> Option<Seq<Seq<char>>>
    decreases s.len(),
{
    if s.len() == 0 {
        Some(Seq::empty())
    } else {
        proof {
            lemma_next_token_shorter(s);
        }
        match next_token(s) {
            None => None,
            Some((t, r)) => match tokens_of(r) {
                Some(ts) => Some(seq![t] + ts),
                None => None,
            },
        }
    }
}

/// The tokens of a text (see `tokens_of`).
pub fn tokens_chars(s: &[char]) -> (r: Option<Vec<Vec<char>>>)
    ensures
        match r {
            Some(v) => tokens_of(s@) == Some(char_seqs(v@)),
            None => tokens_of(s@) is None,
        },
{
    let mut out: Vec<Vec<char>> = Vec::new();
    let mut rest: Vec<char> = chars_range(s, 0, s.len());
    assert(rest@ =~= s@.subrange(0, s@.len() as int));
    assert(s@.subrange(0, s@.len() as int) =~= s@);
    assert(char_seqs(out@) =~= Seq::<Seq<char>>::empty());
    while rest.len() > 0
        invariant
            tokens_of(s@) == (match tokens_of(rest@) {
                Some(ts) => Some(char_seqs(out@) + ts),
                None => None::<Seq<Seq<char>>>,
            }),
        decreases rest@.len(),
    {
        proof {
            lemma_next_token_shorter(rest@);
        }
        match next_token_chars(rest.as_slice()) {
            Some((t, r)) => {
                let ghost old_out = out@;
                let ghost tv = t@;
                out.push(t);
                proof {
                    assert(char_seqs(out@) =~= char_seqs(old_out).push(tv));
                    match tokens_of(r@) {
                        Some(ts) => {
                            assert(char_seqs(old_out) + (seq![tv] + ts) =~= char_seqs(out@) + ts);
                        },
                        None => {},
                    }
                }
                rest = r;
            },
            None => {
                return None;
            },
        }
    }
    assert(char_seqs(out@) + Seq::<Seq<char>>::empty() =~= char_seqs(out@));
    Some(out)
}

/// Splits a text at `c` into at most `k` parts, the last holding the rest
/// (what `str::splitn` gives with a char pattern).
pub open spec fn seq_splitn(s: Seq<char>, c: char, k: nat) -> Seq<Seq<char>>
    decreases k,
{
    if k <= 1 {
        seq![s]
    } else {
        match seq_split_once(s, c) {
            None => seq![s],
            Some((a, b)) => seq![a] + seq_splitn(b, c, (k - 1) as nat),
        }
    }
}

/// Splits a text at `c` into at most `k` parts (see `seq_splitn`).
pub fn splitn_chars(s: &[char], c: char, k: usize) -> (r: Vec<Vec<char>>)
    requires
        k >= 1,
    ensures
        char_seqs(r@) == seq_splitn(s@, c, k as nat),
{
    let mut out: Vec<Vec<char>> = Vec::new();
    let mut rest: Vec<char> = chars_range(s, 0, s.len());
    assert(s@.subrange(0, s@.len() as int) =~= s@);
    let mut left: usize = k;
    assert(char_seqs(out@) + seq_splitn(rest@, c, left as nat) =~= seq_splitn(s@, c, k as nat));
    let mut done = false;
    while left > 1
        invariant
            left >= 1,
            done ==> left == 1,
            char_seqs(out@) + (if done { seq![rest@] } else { seq_splitn(rest@, c, left as nat) })
                == seq_splitn(s@, c, k as nat),
        decreases left,
    {
        match chars_split_once(rest.as_slice(), c) {
            Some((a, b)) => {
                let ghost old_out = out@;
                let ghost av = a@;
                out.push(a);
                proof {
                    assert(char_seqs(out@) =~= char_seqs(old_out).push(av));
                    assert(char_seqs(old_out) + (seq![av] + seq_splitn(b@, c, (left - 1) as nat))
                        =~= char_seqs(out@) + seq_splitn(b@, c, (left - 1) as nat));
                }
                rest = b;
                left = left - 1;
            },
            None => {
                done = true;
                left = 1;
            },
        }
    }
    let ghost old_out = out@;
    let ghost rv = rest@;
    out.push(rest);
    assert(char_seqs(out@) =~= char_seqs(old_out).push(rv));
    assert(char_seqs(old_out) + seq![rv] =~= char_seqs(out@));
    out
}

// ---------------------------------------------------------------------------
// Decimal formatting
// ---------------------------------------------------------------------------

proof fn lemma_dec_digits_nonempty(n: nat)
    ensures
        dec_digits(n).len() >= 1,
    decreases n,
{
    if n >= 10 {
        lemma_dec_digits_nonempty(n / 10);
    }
}

/// The decimal text of a number (what `to_string` gives for an unsigned integer).
pub fn fmt_u128(n: u128) -> (r: Vec<char>)
    ensures
        r@ == dec_digits(n as nat),
    decreases n,
{
    if n < 10 {
        let mut r: Vec<char> = Vec::new();
        r.push(((('0' as u32) + n as u32) as u8) as char);
        assert((((('0' as u32) + n as u32) as u8) as char) == (('0' as u32) + n as nat) as char);
        assert(r@ =~= dec_digits(n as nat));
        r
    } else {
        let mut r = fmt_u128(n / 10);
        let d = (n % 10) as u32;
        r.push(((('0' as u32) + d) as u8) as char);
        assert((((('0' as u32) + d) as u8) as char) == (('0' as u32) + (n % 10) as nat) as char);
        r
    }
}

/// The decimal text of a signed number: its magnitude, after a `-` when negative.
pub open spec fn dec_text(i: int) -> Seq<char> {
    if i < 0 { seq!['-'] + dec_digits((-i) as nat) } else { dec_digits(i as nat) }
}

proof fn lemma_dec_digits_are_digits(n: nat)
    ensures
        dec_digits(n).len() >= 1,
        forall|k: int| 0 <= k < dec_digits(n).len() ==> '0' <= #[trigger] dec_digits(n)[k] <= '9',
        n > 0 ==> dec_digits(n)[0] != '0',
    decreases n,
{
    if n >= 10 {
        lemma_dec_digits_are_digits(n / 10);
        let d = dec_digits(n / 10);
        assert forall|k: int| 0 <= k < dec_digits(n).len() implies '0' <= #[trigger] dec_digits(n)[k] <= '9' by {
            if k < d.len() {
                assert(dec_digits(n)[k] == d[k]);
            }
        }
        assert(dec_digits(n)[0] == d[0]);
    }
}

proof fn lemma_dec_digits_value(n: nat)
    ensures
        digits_value(dec_digits(n), 10) == Some(n),
    decreases n,
{
    if n < 10 {
        assert(dec_digits(n).drop_last() =~= Seq::<char>::empty());
    } else {
        lemma_dec_digits_value(n / 10);
        let d = dec_digits(n);
        assert(d.drop_last() =~= dec_digits(n / 10));
        assert(digit_value(d.last(), 10) == Some(n % 10));
        assert((n / 10) * 10 + n % 10 == n) by (nonlinear_arith);
    }
}

proof fn lemma_trim_plain(s: Seq<char>)
    requires
        s.len() > 0,
        !is_ws(s[0]),
        !is_ws(s[s.len() - 1]),
    ensures
        trim_seq(s) == s,
{
    assert(trim_lo(s, 0) == 0);
    assert(trim_hi(s, s.len() as int) == s.len());
    assert(s.subrange(0, s.len() as int) =~= s);
}

/// The decimal text of an integer reads back as that integer (so an
/// integer that is taken as a string and then as an integer is unchanged).
pub proof fn law_int_text_roundtrip(i: isize)
    ensures
        intvalue_spec(dec_text(i as int)) == Some(i),
{
    let t = dec_text(i as int);
    let n: nat = if i < 0 { (-(i as int)) as nat } else { i as nat };
    lemma_dec_digits_are_digits(n);
    lemma_dec_digits_value(n);
    let d = dec_digits(n);
    if i < 0 {
        assert(t == seq!['-'] + d);
        assert(t[t.len() - 1] == d[d.len() - 1]);
        lemma_trim_plain(t);
        assert(t.drop_first() =~= d);
        assert(t[1] == d[0]);
    } else {
        assert(t == d);
        lemma_trim_plain(t);
        if t.len() > 1 {
            assert(t[1] != 'x');
        }
    }
    assert(!seq_starts_with(t, seq!['0', 'x'])) by {
        if seq_starts_with(t, seq!['0', 'x']) {
            assert(t.subrange(0, 2)[1] == t[1]);
        }
    }
}

/// The decimal text of an `isize` (what `to_string` gives for it).
pub fn fmt_isize(i: isize) -> (r: Vec<char>)
    ensures
        r@ == dec_text(i as int),
{
    if i < 0 {
        let m: u128 = (0i128 - i as i128) as u128;
        let d = fmt_u128(m);
        let mut r: Vec<char> = Vec::new();
        r.push('-');
        push_chars(&mut r, d.as_slice());
        r
    } else {
        fmt_u128(i as u128)
    }
}

// ---------------------------------------------------------------------------
// A byte that comes from an integer
// ---------------------------------------------------------------------------

/// A byte value, made from an integer that is known to be in the `u8` range.
#[derive(Debug)]
pub struct U8X(pub u8);

impl U8X {
    /// Makes the byte for an integer in `0..=255`.
    pub fn from_isize(ival: isize) -> (r: U8X)
        requires
            0 <= ival <= 255,
        ensures
            r.0 as int == ival as int,
    {
        U8X(ival as u8)
    }

    /// The byte held.
    pub fn into_u8(self) -> (r: u8)
        ensures
            r == self.0,
    {
        let U8X(v) = self;
        v
    }
}

} // verus!
