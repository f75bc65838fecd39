//! Config files: groups of lines, and the key-value(s) entries in a group.

use vstd::prelude::*;
use std::collections::VecDeque;
use vstd::utf8::{encode_utf8, decode_utf8, valid_utf8};
use crate::text::{
    is_ws, trim_lo, trim_seq, trim_chars, char_is_ws, string_chars, chars_to_utf8, string_from_utf8,
    seq_starts_with, chars_start_with, chars_from, chars_range, seq_split_once, chars_split_once,
    chars_eq, str_chars, char_is_alphabetic, char_is_numeric, spec_is_alphabetic, spec_is_numeric,
};
use crate::datautils::{hex_decode, hex_decode_chars, usize_from_radix, usize_from_str_radix, isize_from_radix, isize_from_str_radix};

verus! {

/// The most values that a list without a count may hold.
pub const LIST_MAXVALUES: usize = 1024;

/// The lines of a queue of strings, as char sequences.
pub open spec fn lines_of(vs: Seq<String>) -> Seq<Seq<char>> {
    vs.map_values(|s: String| s@)
}

/// The number of white space chars in front of the text of a line; 0 for a
/// line that holds only white space.
pub open spec fn spacesprefix_of(line: Seq<char>) -> int {
    if trim_seq(line).len() == 0 { 0 } else { trim_lo(line, 0) }
}

/// The indentation of the first line of `lines`; 0 when there is none.
pub open spec fn front_spaces(lines: Seq<Seq<char>>) -> int {
    if lines.len() == 0 { 0 } else { spacesprefix_of(lines[0]) }
}

proof fn lemma_trim_empty_all_ws(s: Seq<char>)
    ensures
        trim_seq(s).len() == 0 <==> trim_lo(s, 0) == s.len(),
        trim_lo(s, 0) <= s.len(),
{
    lemma_trim_lo(s, 0);
    lemma_trim_hi(s, s.len() as int);
    let lo = trim_lo(s, 0);
    let hi = trim_hi_of(s);
    if lo < s.len() {
        assert(!is_ws(s[lo]));
        if hi <= lo {
            assert(is_ws(s[lo]));
        }
    }
}

spec fn trim_hi_of(s: Seq<char>) -> int {
    crate::text::trim_hi(s, s.len() as int)
}

proof fn lemma_trim_lo(s: Seq<char>, i: int)
    requires
        0 <= i <= s.len(),
    ensures
        i <= trim_lo(s, i) <= s.len(),
        forall|k: int| i <= k < trim_lo(s, i) ==> is_ws(#[trigger] s[k]),
        trim_lo(s, i) < s.len() ==> !is_ws(s[trim_lo(s, i)]),
    decreases s.len() - i,
{
    if i < s.len() && is_ws(s[i]) {
        lemma_trim_lo(s, i + 1);
    }
}

proof fn lemma_trim_hi(s: Seq<char>, j: int)
    requires
        0 <= j <= s.len(),
    ensures
        0 <= crate::text::trim_hi(s, j) <= j,
        forall|k: int| crate::text::trim_hi(s, j) <= k < j ==> is_ws(#[trigger] s[k]),
    decreases j,
{
    if j > 0 && is_ws(s[j - 1]) {
        lemma_trim_hi(s, j - 1);
    }
}

/// The indentation of a line (see `spacesprefix_of`).
pub fn line_spacesprefix(l: &[char]) -> (r: usize)
    ensures
        r as int == spacesprefix_of(l@),
{
    proof {
        lemma_trim_empty_all_ws(l@);
    }
    let mut n: usize = 0;
    while n < l.len() && char_is_ws(l[n])
        invariant
            n <= l@.len(),
            trim_lo(l@, n as int) == trim_lo(l@, 0),
        decreases l.len() - n,
    {
        n = n + 1;
    }
    if n == l.len() {
        0
    } else {
        n
    }
}

/// The char sequence that `str_deescape` builds so far, and whether the last
/// char was an unfinished `\`; `None` once an unsupported escape was met.
pub open spec fn deesc_fold(s: Seq<char>) -> Option<(bool, Seq<char>)>
    decreases s.len(),
{
    if s.len() == 0 {
        Some((false, Seq::empty()))
    } else {
        match deesc_fold(s.drop_last()) {
            None => None,
            Some((b, o)) => {
                let c = s.last();
                if c == '\\' {
                    if b { Some((false, o.push(c))) } else { Some((true, o)) }
                } else if b {
                    if c == 't' {
                        Some((false, o.push('\t')))
                    } else if c == 'n' {
                        Some((false, o.push('\n')))
                    } else if c == 'r' {
                        Some((false, o.push('\r')))
                    } else if c == '"' {
                        Some((false, o.push(c)))
                    } else {
                        None
                    }
                } else {
                    Some((false, o.push(c)))
                }
            },
        }
    }
}

/// What `str_deescape` gives: the text with `\t`, `\n`, `\r`, `\"` and `\\`
/// replaced by the chars they stand for; `None` for another escape.
pub open spec fn deescape(s: Seq<char>) -> Option<Seq<char>> {
    match deesc_fold(s) {
        Some((_, o)) => Some(o),
        None => None,
    }
}

/// Each escape is replaced by its own char: after any text with no escape
/// pending, `\t` adds a tab (0x09), `\n` a line feed (0x0A), `\r` a carriage
/// return (0x0D), `\"` a double quote and `\\` a backslash, and any other
/// char after a `\` is refused; a char that is no `\` is added as it is.
pub proof fn law_deescape_step(a: Seq<char>, o: Seq<char>, c: char)
    requires
        deesc_fold(a) == Some((false, o)),
    ensures
        deesc_fold(a + seq!['\\', 't']) == Some((false, o.push('\x09'))),
        deesc_fold(a + seq!['\\', 'n']) == Some((false, o.push('\x0A'))),
        deesc_fold(a + seq!['\\', 'r']) == Some((false, o.push('\x0D'))),
        deesc_fold(a + seq!['\\', '"']) == Some((false, o.push('"'))),
        deesc_fold(a + seq!['\\', '\\']) == Some((false, o.push('\\'))),
        c != 't' && c != 'n' && c != 'r' && c != '"' && c != '\\' ==> deesc_fold(a + seq!['\\', c]) is None,
        c != '\\' ==> deesc_fold(a + seq![c]) == Some((false, o.push(c))),
{
    let e = a + seq!['\\'];
    assert(e.drop_last() =~= a);
    assert(deesc_fold(e) == Some((true, o)));
    assert((a + seq!['\\', 't']).drop_last() =~= e);
    assert((a + seq!['\\', 'n']).drop_last() =~= e);
    assert((a + seq!['\\', 'r']).drop_last() =~= e);
    assert((a + seq!['\\', '"']).drop_last() =~= e);
    assert((a + seq!['\\', '\\']).drop_last() =~= e);
    assert((a + seq!['\\', c]).drop_last() =~= e);
    assert((a + seq![c]).drop_last() =~= a);
}

/// Replaces the escape sequences `\t`, `\n`, `\r`, `\"` and `\\` by the
/// chars they stand for; fails on any other escape.
pub fn str_deescape_chars(ins: &[char]) -> (r: Option<Vec<char>>)
    ensures
        match r {
            Some(o) => deescape(ins@) == Some(o@),
            None => deescape(ins@) is None,
        },
{
    let mut bescape = false;
    let mut outs: Vec<char> = Vec::new();
    let mut i: usize = 0;
    while i < ins.len()
        invariant
            i <= ins@.len(),
            deesc_fold(ins@.subrange(0, i as int)) == Some((bescape, outs@)),
        decreases ins.len() - i,
    {
        let c = ins[i];
        let ghost sub = ins@.subrange(0, i + 1);
        assert(sub.drop_last() =~= ins@.subrange(0, i as int));
        assert(sub.last() == c);
        if c == '\\' {
            if bescape {
                outs.push(c);
                bescape = false;
            } else {
                bescape = true;
            }
        } else {
            if bescape {
                if c == 't' {
                    outs.push('\t');
                } else if c == 'n' {
                    outs.push('\n');
                } else if c == 'r' {
                    outs.push('\r');
                } else if c == '"' {
                    outs.push(c);
                } else {
                    proof {
                        lemma_deesc_none_stays(ins@, i as int + 1);
                    }
                    return None;
                }
                bescape = false;
            } else {
                outs.push(c);
            }
        }
        i = i + 1;
    }
    assert(ins@.subrange(0, ins@.len() as int) =~= ins@);
    Some(outs)
}

proof fn lemma_deesc_none_stays(s: Seq<char>, k: int)
    requires
        0 <= k <= s.len(),
        deesc_fold(s.subrange(0, k)) is None,
    ensures
        deesc_fold(s) is None,
    decreases s.len() - k,
{
    if k < s.len() {
        assert(s.subrange(0, k + 1).drop_last() =~= s.subrange(0, k));
        lemma_deesc_none_stays(s, k + 1);
    } else {
        assert(s.subrange(0, k) =~= s);
    }
}

/// Whether a text takes at least two bytes in UTF-8: two chars or more, or
/// one char outside ASCII.
pub open spec fn two_bytes_or_more(t: Seq<char>) -> bool {
    t.len() >= 2 || (t.len() == 1 && t[0] as u32 >= 0x80)
}

/// What `strval_process` gives for a value's text: trimmed; then, when it
/// takes at least two bytes, a `$0x` prefix makes it a hex string, else double
/// quotes at both ends are dropped and escapes are replaced; the result is
/// the UTF-8 encoding of the text. `None` when the hex string or an escape is
/// invalid, or the text is a single char outside ASCII.
pub open spec fn strval(ins: Seq<char>) -> Option<Seq<u8>> {
    let t = trim_seq(ins);
    if two_bytes_or_more(t) {
        if seq_starts_with(t, seq!['$', '0', 'x']) {
            hex_decode(t.subrange(3, t.len() as int))
        } else if t.len() < 2 {
            None
        } else {
            let inner = if t[0] == '"' && t[t.len() - 1] == '"' { t.subrange(1, t.len() - 1) } else { t };
            match deescape(inner) {
                Some(o) => Some(encode_utf8(o)),
                None => None,
            }
        }
    } else {
        Some(encode_utf8(t))
    }
}

/// Processes a value's text into bytes (see `strval`).
pub fn strval_process_chars(ins: &[char]) -> (r: Option<Vec<u8>>)
    ensures
        match r {
            Some(v) => strval(ins@) == Some(v@),
            None => strval(ins@) is None,
        },
{
    let outs = trim_chars(ins);
    let n = outs.len();
    let twob = n >= 2 || (n == 1 && outs[0] as u32 >= 0x80);
    if twob {
        let pfx = ['$', '0', 'x'];
        assert(pfx@ =~= seq!['$', '0', 'x']);
        if chars_start_with(outs.as_slice(), pfx.as_slice()) {
            let h = chars_from(outs.as_slice(), 3);
            return hex_decode_chars(h.as_slice());
        }
        if n < 2 {
            return None;
        }
        let inner = if outs[0] == '"' && outs[n - 1] == '"' {
            chars_range(outs.as_slice(), 1, n - 1)
        } else {
            outs
        };
        match str_deescape_chars(inner.as_slice()) {
            Some(o) => Some(chars_to_utf8(o.as_slice())),
            None => None,
        }
    } else {
        Some(chars_to_utf8(outs.as_slice()))
    }
}

/// The value of a key-value line (`key:value`), when the first line is
/// indented by `sp` and its key is `key`: the processed value (`strval`).
pub open spec fn value_emptyok(lines: Seq<Seq<char>>, key: Seq<char>, sp: int) -> Option<Seq<u8>> {
    if front_spaces(lines) != sp || lines.len() == 0 {
        None
    } else {
        match seq_split_once(trim_seq(lines[0]), ':') {
            None => None,
            Some((k, v)) => if k != key { None } else { strval(v) },
        }
    }
}

/// The lines left once `value_emptyok` has looked at them: the first line is
/// taken when its indentation is `sp`.
pub open spec fn after_value(lines: Seq<Seq<char>>, sp: int) -> Seq<Seq<char>> {
    if front_spaces(lines) != sp || lines.len() == 0 { lines } else { lines.drop_first() }
}

/// The values of a list, one per line, each indented by `childsp`: taken
/// while lines are indented, at most `budget` of them; a trailing `,` of a
/// value is dropped. Gives the values and the lines that are left, or `None`
/// on a line with another indentation or an invalid value.
pub open spec fn collect_values(lines: Seq<Seq<char>>, sp: int, childsp: int, budget: nat) -> Option<(Seq<Seq<u8>>, Seq<Seq<char>>)>
    decreases budget,
{
    if budget == 0 {
        Some((Seq::empty(), lines))
    } else {
        let c = front_spaces(lines);
        if c == sp || c == 0 {
            Some((Seq::empty(), lines))
        } else if childsp != c {
            None
        } else {
            let l = trim_seq(lines[0]);
            let l2 = if l.len() > 0 && l[l.len() - 1] == ',' { l.drop_last() } else { l };
            match strval(l2) {
                None => None,
                Some(v) => match collect_values(lines.drop_first(), sp, childsp, (budget - 1) as nat) {
                    Some((vs, rest)) => Some((seq![v] + vs, rest)),
                    None => None,
                },
            }
        }
    }
}

/// What `get_values` gives: the values of a list entry and the lines left.
/// The entry's own value may be a count of values (then that many values
/// follow, at most), or a single value, or empty (then at most
/// `LIST_MAXVALUES` values follow).
pub open spec fn values_of(lines: Seq<Seq<char>>, key: Seq<char>, sp: int) -> Option<(Seq<Seq<u8>>, Seq<Seq<char>>)> {
    match value_emptyok(lines, key, sp) {
        None => None,
        Some(hb) => {
            let rest = lines.drop_first();
            if !valid_utf8(hb) {
                None
            } else {
                let h = decode_utf8(hb);
                if h.len() != 0 {
                    match usize_from_radix(h, 10) {
                        None => match strval(h) {
                            Some(v) => Some((seq![v], rest)),
                            None => None,
                        },
                        Some(n) => collect_values(rest, sp, front_spaces(rest), n as nat),
                    }
                } else {
                    collect_values(rest, sp, front_spaces(rest), LIST_MAXVALUES as nat)
                }
            }
        },
    }
}

/// The unsigned decimal number that a key-value line holds (optionally
/// trimmed of white space first).
pub open spec fn num_value(lines: Seq<Seq<char>>, key: Seq<char>, sp: int, trimmed: bool) -> Option<usize> {
    match value_emptyok(lines, key, sp) {
        Some(b) => if b.len() > 0 && valid_utf8(b) {
            usize_from_radix(if trimmed { trim_seq(decode_utf8(b)) } else { decode_utf8(b) }, 10)
        } else {
            None
        },
        None => None,
    }
}

/// The signed decimal number that a key-value line holds, trimmed of white space.
pub open spec fn int_value(lines: Seq<Seq<char>>, key: Seq<char>, sp: int) -> Option<isize> {
    match value_emptyok(lines, key, sp) {
        Some(b) => if b.len() > 0 && valid_utf8(b) {
            isize_from_radix(trim_seq(decode_utf8(b)), 10)
        } else {
            None
        },
        None => None,
    }
}

/// The deep view of a byte buffer is its view.
pub proof fn lemma_bytes_deep_view(v: &Vec<u8>)
    ensures
        v.deep_view() == v@,
{
    assert(v.deep_view() =~= v@);
}

/// The lines of a config group, and the helpers that read key-value entries
/// from them; a type that can be made from a config group implements
/// `get_name` and `from_vs`.
pub trait FromVecStrings: Sized {
    /// The number of white space chars in front of the text of the first
    /// line; 0 when there is no line or it holds only white space. The line
    /// stays in the queue.
    fn get_spacesprefix(vs: &VecDeque<String>) -> (r: usize)
        ensures
            r as int == front_spaces(lines_of(vs@)),
    {
        if vs.len() == 0 {
            return 0;
        }
        let l = string_chars(&vs[0]);
        line_spacesprefix(l.as_slice())
    }

    /// Replaces the escape sequences `\t`, `\n`, `\r`, `\"` and `\\` by the
    /// chars they stand for; fails on any other escape.
    fn str_deescape(ins: &str) -> (r: Result<String, String>)
        ensures
            match r {
                Ok(o) => deescape(ins@) == Some(o@),
                Err(_) => deescape(ins@) is None,
            },
    {
        let v = str_chars(ins);
        match str_deescape_chars(v.as_slice()) {
            Some(o) => Ok(crate::text::string_from_chars(o.as_slice())),
            None => Err(String::from_str("ERRR:CfgFiles:StrDeEscape:Unsupported escape char")),
        }
    }

    /// Turns a value's text into bytes: trimmed, `$0x` hex strings decoded,
    /// double quotes at both ends dropped and escapes replaced (see `strval`).
    fn strval_process(ins: &str) -> (r: Result<Vec<u8>, String>)
        ensures
            match r {
                Ok(v) => strval(ins@) == Some(v@),
                Err(_) => strval(ins@) is None,
            },
    {
        let v = str_chars(ins);
        match strval_process_chars(v.as_slice()) {
            Some(b) => Ok(b),
            None => Err(String::from_str("ERRR:FromVS:StrValProcess:invalid value")),
        }
    }

    /// Takes the first line as `key:value`, indented by `spacesprefix`, and
    /// gives its processed value, which may be empty.
    fn get_value_emptyok(vs: &mut VecDeque<String>, key: &str, spacesprefix: usize) -> (r: Result<Vec<u8>, String>)
        ensures
            lines_of(final(vs)@) == after_value(lines_of(old(vs)@), spacesprefix as int),
            match r {
                Ok(v) => value_emptyok(lines_of(old(vs)@), key@, spacesprefix as int) == Some(v@),
                Err(_) => value_emptyok(lines_of(old(vs)@), key@, spacesprefix as int) is None,
            },
    {
        let cursp = Self::get_spacesprefix(vs);
        if cursp != spacesprefix {
            return Err(String::from_str("ERRR:FromVS:GetValueEmptyOk:Prefix whitespaces mismatch"));
        }
        let ghost before = vs@;
        let l = vs.pop_front();
        proof {
            if l is Some {
                assert(lines_of(vs@) =~= lines_of(before).drop_first());
            }
        }
        match l {
            None => Err(String::from_str("ERRR:FromVS:GetValueEmptyOk:No data to process")),
            Some(l) => {
                let lc = string_chars(&l);
                let lt = trim_chars(lc.as_slice());
                match chars_split_once(lt.as_slice(), ':') {
                    None => Err(String::from_str("ERRR:FromVS:GetValueEmptyOk:key-value delimiter ':' missing")),
                    Some((k, v)) => {
                        let kc = str_chars(key);
                        if !chars_eq(k.as_slice(), kc.as_slice()) {
                            return Err(String::from_str("ERRR:FromVS:GetValueEmptyOk:Unexpected key"));
                        }
                        match strval_process_chars(v.as_slice()) {
                            Some(b) => Ok(b),
                            None => Err(String::from_str("ERRR:FromVS:GetValueEmptyOk:invalid value")),
                        }
                    },
                }
            },
        }
    }

    /// As `get_value_emptyok`, but an empty value is an error.
    fn get_value(vs: &mut VecDeque<String>, key: &str, spacesprefix: usize) -> (r: Result<Vec<u8>, String>)
        ensures
            lines_of(final(vs)@) == after_value(lines_of(old(vs)@), spacesprefix as int),
            match r {
                Ok(v) => value_emptyok(lines_of(old(vs)@), key@, spacesprefix as int) == Some(v@) && v@.len() > 0,
                Err(_) => value_emptyok(lines_of(old(vs)@), key@, spacesprefix as int) is None
                    || value_emptyok(lines_of(old(vs)@), key@, spacesprefix as int) == Some(Seq::<u8>::empty()),
            },
    {
        let val = Self::get_value_emptyok(vs, key, spacesprefix);
        match val {
            Err(e) => Err(e),
            Ok(v) => {
                if v.len() == 0 {
                    Err(String::from_str("ERRR:FromVS:GetValue:No value given"))
                } else {
                    Ok(v)
                }
            },
        }
    }

    /// The value of a key-value line as a decimal integer (surrounding white
    /// space allowed).
    fn get_ivalue(vs: &mut VecDeque<String>, key: &str, spacesprefix: usize) -> (r: Result<isize, String>)
        ensures
            lines_of(final(vs)@) == after_value(lines_of(old(vs)@), spacesprefix as int),
            match r {
                Ok(i) => value_emptyok(lines_of(old(vs)@), key@, spacesprefix as int) matches Some(b)
                    && b.len() > 0 && valid_utf8(b) && isize_from_radix(trim_seq(decode_utf8(b)), 10) == Some(i),
                Err(_) => !(value_emptyok(lines_of(old(vs)@), key@, spacesprefix as int) matches Some(b)
                    && b.len() > 0 && valid_utf8(b) && isize_from_radix(trim_seq(decode_utf8(b)), 10) is Some),
            },
    {
        let svalue = Self::get_value(vs, key, spacesprefix);
        match svalue {
            Err(e) => Err(e),
            Ok(b) => {
                match string_from_utf8(b) {
                    None => Err(String::from_str("ERRR:FromVS:GetIValue:value is not UTF-8")),
                    Some(s) => {
                        let sc = string_chars(&s);
                        let t = trim_chars(sc.as_slice());
                        match isize_from_str_radix(t.as_slice(), 10) {
                            Some(i) => Ok(i),
                            None => Err(String::from_str("ERRR:FromVS:GetIValue:Conversion to Int err")),
                        }
                    },
                }
            },
        }
    }

    /// The list of values of a key. The key's own value may be a count of the
    /// values that follow, a single value (then that is the list) or empty
    /// (then up to `LIST_MAXVALUES` plus one values follow). Each value is on
    /// its own line, indented further than the key, with an optional trailing
    /// `,` (see `values_of`).
    fn get_values(vs: &mut VecDeque<String>, key: &str, spacesprefix: usize) -> (r: Result<Vec<Vec<u8>>, String>)
        ensures
            match r {
                Ok(v) => values_of(lines_of(old(vs)@), key@, spacesprefix as int) == Some((v.deep_view(), lines_of(final(vs)@))),
                Err(_) => values_of(lines_of(old(vs)@), key@, spacesprefix as int) is None,
            },
    {
        let ghost l0 = lines_of(vs@);
        let sheadval = Self::get_value_emptyok(vs, key, spacesprefix);
        let hb = match sheadval {
            Err(e) => {
                return Err(e);
            },
            Ok(hb) => hb,
        };
        let ghost rest = lines_of(vs@);
        assert(rest == l0.drop_first());
        let hs = match string_from_utf8(hb) {
            None => {
                return Err(String::from_str("ERRR:FromVS:GetValues:head value is not UTF-8"));
            },
            Some(s) => s,
        };
        let h = string_chars(&hs);
        let mut vdata: Vec<Vec<u8>> = Vec::new();
        let numvalues: usize;
        if h.len() != 0 {
            match usize_from_str_radix(h.as_slice(), 10) {
                None => {
                    match strval_process_chars(h.as_slice()) {
                        None => {
                            return Err(String::from_str("ERRR:FromVS:GetValues:invalid value"));
                        },
                        Some(v) => {
                            proof { lemma_bytes_deep_view(&v); }
                            vdata.push(v);
                            assert(vdata.deep_view() =~= seq![v@]);
                            return Ok(vdata);
                        },
                    }
                },
                Some(n) => {
                    numvalues = n;
                },
            }
        } else {
            numvalues = LIST_MAXVALUES;
        }
        let childsp = Self::get_spacesprefix(vs);
        let mut left: usize = numvalues;
        assert(vdata.deep_view() =~= Seq::<Seq<u8>>::empty());
        loop
            invariant
                left <= numvalues,
                l0 == lines_of(old(vs)@),
                childsp as int == front_spaces(rest),
                values_of(l0, key@, spacesprefix as int) == (match collect_values(lines_of(vs@), spacesprefix as int, childsp as int, left as nat) {
                    Some((vs2, rest2)) => Some((vdata.deep_view() + vs2, rest2)),
                    None => None::<(Seq<Seq<u8>>, Seq<Seq<char>>)>,
                }),
            decreases vs@.len(),
        {
            let ghost lv = lines_of(vs@);
            if left == 0 {
                assert(vdata.deep_view() + Seq::<Seq<u8>>::empty() =~= vdata.deep_view());
                return Ok(vdata);
            }
            let cursp = Self::get_spacesprefix(vs);
            if cursp == spacesprefix || cursp == 0 {
                assert(collect_values(lines_of(vs@), spacesprefix as int, childsp as int, left as nat) == Some((Seq::<Seq<u8>>::empty(), lines_of(vs@))));
                assert(vdata.deep_view() + Seq::<Seq<u8>>::empty() =~= vdata.deep_view());
                return Ok(vdata);
            }
            if childsp != cursp {
                assert(collect_values(lines_of(vs@), spacesprefix as int, childsp as int, left as nat) is None);
                return Err(String::from_str("ERRR:FromVS:GetValues:Prefix whitespaces mismatch wrt values"));
            }
            let l = vs.pop_front();
            assert(lines_of(vs@) =~= lv.drop_first());
            let line = match l {
                Some(line) => line,
                None => {
                    return Err(String::from_str("ERRR:FromVS:GetValues:No data"));
                },
            };
            let lc = string_chars(&line);
            let t = trim_chars(lc.as_slice());
            let tn = t.len();
            let t2 = if tn > 0 && t[tn - 1] == ',' { chars_range(t.as_slice(), 0, tn - 1) } else { t };
            proof {
                let tt = trim_seq(lv[0]);
                if tt.len() > 0 && tt[tt.len() - 1] == ',' {
                    assert(tt.subrange(0, tt.len() - 1) =~= tt.drop_last());
                }
            }
            match strval_process_chars(t2.as_slice()) {
                None => {
                    return Err(String::from_str("ERRR:FromVS:GetValues:invalid value"));
                },
                Some(v) => {
                    let ghost old_vd = vdata.deep_view();
                    proof { lemma_bytes_deep_view(&v); }
                    vdata.push(v);
                    assert(vdata.deep_view() =~= old_vd.push(v@));
                    proof {
                        match collect_values(lines_of(vs@), spacesprefix as int, childsp as int, (left - 1) as nat) {
                            Some((vs2, rest2)) => {
                                assert(old_vd + (seq![v@] + vs2) =~= vdata.deep_view() + vs2);
                            },
                            None => {},
                        }
                    }
                },
            }
            left = left - 1;
        }
    }

    /// Reads a key-value line that holds an unsigned decimal number.
    fn get_uvalue(vs: &mut VecDeque<String>, key: &str, spacesprefix: usize, trimmed: bool) -> (r: Result<usize, String>)
        ensures
            lines_of(final(vs)@) == after_value(lines_of(old(vs)@), spacesprefix as int),
            match r {
                Ok(n) => num_value(lines_of(old(vs)@), key@, spacesprefix as int, trimmed) == Some(n),
                Err(_) => num_value(lines_of(old(vs)@), key@, spacesprefix as int, trimmed) is None,
            },
    {
        let b = Self::get_value(vs, key, spacesprefix)?;
        match string_from_utf8(b) {
            None => Err(String::from_str("ERRR:FromVS:GetUValue:value is not UTF-8")),
            Some(s) => {
                let sc = string_chars(&s);
                let t = if trimmed { trim_chars(sc.as_slice()) } else { sc };
                match usize_from_str_radix(t.as_slice(), 10) {
                    Some(n) => Ok(n),
                    None => Err(String::from_str("ERRR:FromVS:GetUValue:not a number")),
                }
            },
        }
    }

    /// The name of the type that implements this trait.
    fn get_name() -> String;

    /// Makes an instance of the implementing type from the lines of a config group.
    fn from_vs(vs: &mut VecDeque<String>) -> Result<Self, String>;
}

/// Whether a char starts a config group: alphabetic or numeric (what
/// `char::is_alphanumeric` checks).
pub open spec fn starts_group(c: char) -> bool {
    spec_is_alphabetic(c) || spec_is_numeric(c)
}

/// Scans for the next config group from line `i`, with the group's lines so
/// far in `vdata`: lines of only white space before a group are skipped, a
/// line of only white space after it ends it, lines starting with `#` are
/// skipped anywhere, and a group's first line must start with an
/// alphanumeric char. Gives the group and the index of the line after it
/// (an empty group at the end of the lines), or `None` when a group starts badly.
pub open spec fn cfg_scan(lines: Seq<Seq<char>>, i: int, vdata: Seq<Seq<char>>) -> Option<(Seq<Seq<char>>, int)>
    decreases lines.len() - i,
{
    if i >= lines.len() || i < 0 {
        Some((vdata, i))
    } else {
        let l = lines[i];
        if trim_seq(l).len() == 0 {
            if vdata.len() > 0 { Some((vdata, i + 1)) } else { cfg_scan(lines, i + 1, vdata) }
        } else if l[0] == '#' {
            cfg_scan(lines, i + 1, vdata)
        } else if vdata.len() == 0 && !starts_group(l[0]) {
            None
        } else {
            cfg_scan(lines, i + 1, vdata.push(l))
        }
    }
}

pub proof fn lemma_cfg_scan_moves(lines: Seq<Seq<char>>, i: int, vdata: Seq<Seq<char>>)
    requires
        0 <= i,
    ensures
        cfg_scan(lines, i, vdata) matches Some((g, j)) ==> j >= i && (g.len() > vdata.len() ==> j > i)
            && g.len() >= vdata.len(),
    decreases lines.len() - i,
{
    if i < lines.len() {
        lemma_cfg_scan_moves(lines, i + 1, vdata);
        lemma_cfg_scan_moves(lines, i + 1, vdata.push(lines[i]));
    }
}

/// Reads the next config group of a config file's lines, from line `pos`
/// (see `cfg_scan`): the group's lines and the index of the line after it.
/// An empty group means that the lines are done.
pub fn get_cfggroup(lines: &Vec<String>, pos: usize) -> (r: Result<(VecDeque<String>, usize), String>)
    ensures
        match r {
            Ok((g, np)) => cfg_scan(lines_of(lines@), pos as int, Seq::empty()) == Some((lines_of(g@), np as int)),
            Err(_) => cfg_scan(lines_of(lines@), pos as int, Seq::empty()) is None,
        },
{
    let ghost ls = lines_of(lines@);
    let mut vdata: VecDeque<String> = VecDeque::new();
    let mut i = pos;
    assert(lines_of(vdata@) =~= Seq::<Seq<char>>::empty());
    while i < lines.len()
        invariant
            ls == lines_of(lines@),
            pos <= i,
            cfg_scan(ls, pos as int, Seq::empty()) == cfg_scan(ls, i as int, lines_of(vdata@)),
        decreases lines.len() - i,
    {
        let lc = string_chars(&lines[i]);
        assert(lc@ == ls[i as int]);
        let t = trim_chars(lc.as_slice());
        if t.len() == 0 {
            if vdata.len() > 0 {
                return Ok((vdata, i + 1));
            }
            i = i + 1;
            continue;
        }
        proof {
            lemma_trim_nonempty(lc@);
        }
        let c = lc[0];
        if c == '#' {
            i = i + 1;
            continue;
        }
        if vdata.len() == 0 {
            if !(char_is_alphabetic(c) || char_is_numeric(c)) {
                return Err(String::from_str("ERRR:CfgFiles:GetCfgGroup:Didnt get the expected start of a new CfgGroup"));
            }
        }
        let ghost before = lines_of(vdata@);
        vdata.push_back(lines[i].clone());
        assert(lines_of(vdata@) =~= before.push(ls[i as int]));
        i = i + 1;
    }
    Ok((vdata, i))
}

proof fn lemma_trim_nonempty(s: Seq<char>)
    requires
        trim_seq(s).len() != 0,
    ensures
        s.len() > 0,
{
    if s.len() == 0 {
        lemma_trim_lo(s, 0);
        assert(trim_lo(s, 0) == 0);
    }
}

/// What handles the config groups of a config file, one at a time.
pub trait HandleCfgGroup: Sized {
    /// Whether handling a config group (its lines) succeeds in this state.
    spec fn accepts(&self, lines: Seq<Seq<char>>) -> bool;

    /// Whether `after` is a state that handling a config group (its lines)
    /// that succeeds may leave of this one.
    spec fn handles(&self, lines: Seq<Seq<char>>, after: Self) -> bool;

    /// Handles one config group, given its lines: it succeeds exactly when
    /// the handler accepts the group, and leaves the handler as it was when
    /// it fails.
    fn handle_cfggroup(&mut self, vs: &mut VecDeque<String>) -> (r: Result<(), String>)
        ensures
            r is Ok <==> old(self).accepts(lines_of(old(vs)@)),
            r is Ok ==> old(self).handles(lines_of(old(vs)@), *final(self)),
            r is Err ==> *final(self) == *old(self),
    ;
}

/// Whether handing the config groups of a config file's lines, from line
/// `i` on, to a handler in state `h0` may leave it in state `h1` with the
/// given outcome: the groups are handed over in order until the lines are
/// done (success), a group starts badly (failure) or the handler refuses a
/// group (failure, the handler left as it was then).
pub open spec fn parse_run<H: HandleCfgGroup>(lines: Seq<Seq<char>>, i: int, h0: H, h1: H, ok: bool) -> bool
    decreases lines.len() - i,
{
    match cfg_scan(lines, i, Seq::empty()) {
        None => !ok && h1 == h0,
        Some((g, j)) => if g.len() == 0 {
            ok && h1 == h0
        } else if !h0.accepts(g) {
            !ok && h1 == h0
        } else if j <= i || i < 0 || j > lines.len() {
            ok && h0.handles(g, h1)
        } else {
            exists|mid: H| #[trigger] h0.handles(g, mid) && parse_run(lines, j, mid, h1, ok)
        },
    }
}

/// Whether the lines of a config file, from line `i`, split into config
/// groups without error.
pub open spec fn cfg_groups_ok(lines: Seq<Seq<char>>, i: int) -> bool
    decreases lines.len() - i,
{
    match cfg_scan(lines, i, Seq::empty()) {
        None => false,
        Some((g, j)) => if g.len() == 0 || j <= i || i < 0 || j > lines.len() { true } else { cfg_groups_ok(lines, j) },
    }
}

/// Hands each config group of a config file's lines, in order, to `handler`,
/// stopping at the first error (of the file or of the handler); see
/// `parse_run`.
pub fn parse_lines<H: HandleCfgGroup>(lines: &Vec<String>, handler: &mut H) -> (r: Result<(), String>)
    ensures
        parse_run(lines_of(lines@), 0, *old(handler), *final(handler), r is Ok),
        r is Ok ==> cfg_groups_ok(lines_of(lines@), 0),
{
    let ghost ls = lines_of(lines@);
    let ghost h0 = *handler;
    let mut pos: usize = 0;
    loop
        invariant
            ls == lines_of(lines@),
            h0 == *old(handler),
            cfg_groups_ok(ls, pos as int) ==> cfg_groups_ok(ls, 0),
            forall|h1: H, ok: bool| parse_run(ls, pos as int, *handler, h1, ok) ==> #[trigger] parse_run(ls, 0, h0, h1, ok),
        decreases lines@.len() - pos,
    {
        let ghost cur = *handler;
        let (mut cgdata, np) = match get_cfggroup(lines, pos) {
            Ok(p) => p,
            Err(e) => {
                assert(parse_run(ls, pos as int, cur, cur, false));
                return Err(e);
            },
        };
        proof {
            lemma_cfg_scan_moves(ls, pos as int, Seq::empty());
        }
        if cgdata.len() == 0 {
            assert(lines_of(cgdata@).len() == 0);
            assert(cfg_groups_ok(ls, pos as int));
            assert(parse_run(ls, pos as int, cur, cur, true));
            return Ok(());
        }
        let ghost g = lines_of(cgdata@);
        match handler.handle_cfggroup(&mut cgdata) {
            Ok(()) => {},
            Err(e) => {
                assert(parse_run(ls, pos as int, cur, *handler, false));
                return Err(e);
            },
        }
        if np <= pos || np > lines.len() {
            assert(cfg_groups_ok(ls, pos as int));
            assert(parse_run(ls, pos as int, cur, *handler, true));
            return Ok(());
        }
        assert(cfg_groups_ok(ls, np as int) ==> cfg_groups_ok(ls, pos as int));
        proof {
            let after = *handler;
            assert forall|h1: H, ok: bool| parse_run(ls, np as int, after, h1, ok) implies #[trigger] parse_run(ls, 0, h0, h1, ok) by {
                assert(cur.handles(g, after));
                assert(parse_run(ls, pos as int, cur, h1, ok));
            }
        }
        pos = np;
    }
}

} // verus!
