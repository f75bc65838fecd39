//! The decisions behind opening an io bridge: which kind of bridge an
//! address names, and what its arguments ask for.

use vstd::prelude::*;
use crate::strmap::StrMap;
use crate::text::{seq_split_once, chars_split_once, chars_are, str_chars, string_chars, string_from_chars};
use crate::datautils::digits_value;

verus! {

/// The kinds of io bridge.
#[derive(Debug, Clone, Copy, PartialEq, Eq, Structural)]
pub enum IobKind {
    /// No io at all.
    NoIo,
    /// Writes to stdout, reads from stdin.
    Console,
    /// A tcp connection to a server.
    TcpClient,
    /// A tls connection (over tcp) to a server.
    TlsClient,
    /// Writes to a file.
    FileWriter,
}

/// What `str::to_lowercase` returns for a text (the Unicode lowercase mapping).
pub uninterp spec fn spec_lowercase(s: Seq<char>) -> Seq<char>;

/// Calls `str::to_lowercase`; the result is named, not restated here.
#[verifier::external_body]
fn str_to_lowercase(s: &str) -> (r: String)
    ensures
        r@ == spec_lowercase(s@),
{
    s.to_lowercase()
}

/// The kind of bridge that a (lower cased) address names, and the address
/// that the bridge gets: `none` and `console` stand alone; otherwise the
/// address is `kind:addr` with kind `tcpclient`, `tlsclient` or
/// `filewriter` (another kind means no io); `None` where there is no `:`.
pub open spec fn target_of(lc: Seq<char>) -> Option<(IobKind, Seq<char>)> {
    if lc == "none"@ {
        Some((IobKind::NoIo, Seq::empty()))
    } else if lc == "console"@ {
        Some((IobKind::Console, Seq::empty()))
    } else {
        match seq_split_once(lc, ':') {
            None => None,
            Some((k, a)) => if k == "tcpclient"@ {
                Some((IobKind::TcpClient, a))
            } else if k == "tlsclient"@ {
                Some((IobKind::TlsClient, a))
            } else if k == "filewriter"@ {
                Some((IobKind::FileWriter, a))
            } else {
                Some((IobKind::NoIo, Seq::empty()))
            },
        }
    }
}

/// The kind of io bridge that an io address names, and the address the
/// bridge gets (see `target_of`); the address is lower cased first.
pub fn iob_target(ioaddr: &str) -> (r: Result<(IobKind, String), String>)
    ensures
        match r {
            Ok((k, a)) => target_of(spec_lowercase(ioaddr@)) == Some((k, a@)),
            Err(_) => target_of(spec_lowercase(ioaddr@)) is None,
        },
{
    let lc = str_to_lowercase(ioaddr);
    let l = string_chars(&lc);
    if chars_are(l.as_slice(), "none") {
        return Ok((IobKind::NoIo, String::new()));
    }
    if chars_are(l.as_slice(), "console") {
        return Ok((IobKind::Console, String::new()));
    }
    match chars_split_once(l.as_slice(), ':') {
        None => Err(String::from_str("IOBridge:New:Address needs a kind and a :")),
        Some((k, a)) => {
            if chars_are(k.as_slice(), "tcpclient") {
                Ok((IobKind::TcpClient, string_from_chars(a.as_slice())))
            } else if chars_are(k.as_slice(), "tlsclient") {
                Ok((IobKind::TlsClient, string_from_chars(a.as_slice())))
            } else if chars_are(k.as_slice(), "filewriter") {
                Ok((IobKind::FileWriter, string_from_chars(a.as_slice())))
            } else {
                Ok((IobKind::NoIo, String::new()))
            }
        },
    }
}

/// How a file writer opens its file.
#[derive(Debug, Clone, Copy, PartialEq, Eq, Structural)]
pub enum FileMode {
    /// Appends to the file, which must exist.
    Append,
    /// Creates the file, or empties an existing one.
    Create,
}

/// The value of an io argument, or a default where it is not given.
pub open spec fn arg_or(m: Map<Seq<char>, String>, k: Seq<char>, dflt: Seq<char>) -> Seq<char> {
    if m.dom().contains(k) { m[k]@ } else { dflt }
}

/// How a file writer opens its file: with neither `append` nor `create`
/// given, it appends; else `append=yes` appends, `create=yes` creates;
/// anything else is refused.
pub open spec fn file_mode_of(m: Map<Seq<char>, String>) -> Option<FileMode> {
    let append = arg_or(m, "append"@, "maybe"@);
    let create = arg_or(m, "create"@, "maybe"@);
    if (append == "maybe"@ && create == "maybe"@) || append == "yes"@ {
        Some(FileMode::Append)
    } else if create == "yes"@ {
        Some(FileMode::Create)
    } else {
        None
    }
}

/// The value of an io argument, or a default.
fn arg_or_exec(ioargs: &StrMap<String>, k: &str, dflt: &str) -> (r: Vec<char>)
    ensures
        r@ == arg_or(ioargs.view(), k@, dflt@),
{
    let key = String::from_str(k);
    match ioargs.get(&key) {
        Some(v) => string_chars(v),
        None => str_chars(dflt),
    }
}

/// How a file writer opens its file (see `file_mode_of`).
pub fn filewriter_mode(ioargs: &StrMap<String>) -> (r: Result<FileMode, String>)
    ensures
        match r {
            Ok(m) => file_mode_of(ioargs.view()) == Some(m),
            Err(_) => file_mode_of(ioargs.view()) is None,
        },
{
    let append = arg_or_exec(ioargs, "append", "maybe");
    let create = arg_or_exec(ioargs, "create", "maybe");
    if (chars_are(append.as_slice(), "maybe") && chars_are(create.as_slice(), "maybe")) || chars_are(append.as_slice(), "yes") {
        Ok(FileMode::Append)
    } else if chars_are(create.as_slice(), "yes") {
        Ok(FileMode::Create)
    } else {
        Err(String::from_str("IOBridge:FileWriter:Either append or create ioarg needs to be specified and inturn yes"))
    }
}

/// What `u64::from_str_radix(s, 10)` returns: an optional `+`, then at least
/// one decimal digit, of a value that fits in a `u64`.
pub open spec fn u64_from_dec(s: Seq<char>) -> Option<u64> {
    if s.len() == 0 || ((s[0] == '+' || s[0] == '-') && s.len() == 1) {
        None
    } else {
        let d = if s[0] == '+' { s.drop_first() } else { s };
        match digits_value(d, 10) {
            Some(v) => if v <= u64::MAX { Some(v as u64) } else { None },
            None => None,
        }
    }
}

proof fn lemma_digits_value_prefix_big(d: Seq<char>, k: int)
    requires
        0 <= k <= d.len(),
        digits_value(d, 10) is Some,
    ensures
        digits_value(d.subrange(0, k), 10) is Some,
        digits_value(d.subrange(0, k), 10).unwrap() <= digits_value(d, 10).unwrap(),
    decreases d.len() - k,
{
    if k < d.len() {
        let dl = d.drop_last();
        assert(d.subrange(0, k) =~= dl.subrange(0, k));
        lemma_digits_value_prefix_big(dl, k);
        assert(digits_value(dl, 10).unwrap() <= digits_value(d, 10).unwrap()) by (nonlinear_arith)
            requires
                digits_value(d, 10).unwrap() == digits_value(dl, 10).unwrap() * 10 + crate::datautils::digit_value(d.last(), 10).unwrap(),
        ;
    } else {
        assert(d.subrange(0, k) =~= d);
    }
}

/// The decimal `u64` of a text (see `u64_from_dec`).
pub fn u64_from_dec_chars(s: &[char]) -> (r: Option<u64>)
    ensures
        r == u64_from_dec(s@),
{
    if s.len() == 0 || ((s[0] == '+' || s[0] == '-') && s.len() == 1) {
        return None;
    }
    let start: usize = if s[0] == '+' { 1 } else { 0 };
    let ghost d = if s@[0] == '+' { s@.drop_first() } else { s@ };
    assert(d =~= s@.subrange(start as int, s@.len() as int));
    let mut acc: u64 = 0;
    let mut i: usize = start;
    assert(d.subrange(0, 0) =~= Seq::<char>::empty());
    while i < s.len()
        invariant
            start <= i <= s@.len(),
            s@.len() > 0,
            !((s@[0] == '+' || s@[0] == '-') && s@.len() == 1),
            start == (if s@[0] == '+' { 1usize } else { 0usize }),
            d == (if s@[0] == '+' { s@.drop_first() } else { s@ }),
            d == s@.subrange(start as int, s@.len() as int),
            digits_value(d.subrange(0, i - start), 10) == Some(acc as nat),
        decreases s.len() - i,
    {
        let c = s[i];
        let ghost nxt = d.subrange(0, i - start + 1);
        assert(nxt.drop_last() =~= d.subrange(0, i - start));
        assert(nxt.last() == c);
        if !('0' <= c && c <= '9') {
            proof {
                assert(digits_value(nxt, 10) is None);
                if digits_value(d, 10) is Some {
                    lemma_digits_value_prefix_big(d, i - start + 1);
                }
            }
            return None;
        }
        let dv = (c as u32 - '0' as u32) as u64;
        assert(digits_value(nxt, 10) == Some(acc as nat * 10 + dv as nat));
        if acc > 1844674407370955161u64 || (acc == 1844674407370955161u64 && dv > 5) {
            proof {
                if digits_value(d, 10) is Some {
                    lemma_digits_value_prefix_big(d, i - start + 1);
                }
            }
            return None;
        }
        acc = acc * 10 + dv;
        i = i + 1;
    }
    assert(d.subrange(0, s@.len() - start) =~= d);
    Some(acc)
}

/// The read timeout that the io arguments ask for, in milliseconds:
/// `read_timeout=millisecs` (the value `INVALID` counts as not given);
/// fails where the value is no decimal `u64`.
pub open spec fn read_timeout_of(m: Map<Seq<char>, String>) -> Option<Option<u64>> {
    let v = arg_or(m, "read_timeout"@, "INVALID"@);
    if v == "INVALID"@ {
        Some(None)
    } else {
        match u64_from_dec(v) {
            Some(ms) => Some(Some(ms)),
            None => None,
        }
    }
}

/// The read timeout that the io arguments ask for (see `read_timeout_of`).
pub fn read_timeout(ioargs: &StrMap<String>) -> (r: Result<Option<u64>, String>)
    ensures
        match r {
            Ok(t) => read_timeout_of(ioargs.view()) == Some(t),
            Err(_) => read_timeout_of(ioargs.view()) is None,
        },
{
    let v = arg_or_exec(ioargs, "read_timeout", "INVALID");
    if chars_are(v.as_slice(), "INVALID") {
        return Ok(None);
    }
    match u64_from_dec_chars(v.as_slice()) {
        Some(ms) => Ok(Some(ms)),
        None => Err(String::from_str("IOBridge:New:ReadTimeout:not a number")),
    }
}

/// What a tls client is asked for: whether to check the server's
/// certificate (unless `server_cert_check=no`), and the domain to connect
/// to (`domain=...`, which must be given).
pub open spec fn tls_args_of(m: Map<Seq<char>, String>) -> Option<(bool, Seq<char>)> {
    if m.dom().contains("domain"@) {
        Some((arg_or(m, "server_cert_check"@, "yes"@) != "no"@, m["domain"@]@))
    } else {
        None
    }
}

/// What a tls client is asked for (see `tls_args_of`).
pub fn tls_args(ioargs: &StrMap<String>) -> (r: Result<(bool, String), String>)
    ensures
        match r {
            Ok((check, d)) => tls_args_of(ioargs.view()) == Some((check, d@)),
            Err(_) => tls_args_of(ioargs.view()) is None,
        },
{
    let scc = arg_or_exec(ioargs, "server_cert_check", "yes");
    let key = String::from_str("domain");
    match ioargs.get(&key) {
        Some(d) => Ok((!chars_are(scc.as_slice(), "no"), d.clone())),
        None => Err(String::from_str("IOBridge:TlsClient:domain missing")),
    }
}

} // verus!
