//! The command line of the fuzzing program: which config file, program,
//! fuzz chain, loop count and io bridge to use.

use vstd::prelude::*;
use crate::strmap::StrMap;
use crate::cfgfiles::lines_of;
use crate::text::{seq_split_once, chars_split_once, chars_are, string_chars, string_from_chars};
use crate::datautils::{usize_from_radix, usize_from_str_radix};
use crate::vm::ops::strmap_view;

verus! {

/// What the command line asks for.
#[derive(Debug)]
pub struct CmdLine {
    /// The config file of the fuzzers and fuzz chains (`--cfgfc`).
    pub cfgfc: String,
    /// The fuzz chain that the built in program runs (`--fc`).
    pub fc: String,
    /// How many times the built in program runs the chain (`--loopcnt`).
    pub loopcnt: usize,
    /// The io bridge of the built in program (`--ioaddr`).
    pub ioaddr: String,
    /// The arguments of that io bridge (`--ioarg key=value`, repeatable).
    pub ioargs: StrMap<String>,
    /// The script to run (`--prgfile`).
    pub prgfile: String,
    /// Whether debug messages are printed (`--blogdebug yes|true`).
    pub blogdebug: bool,
}

/// The abstract view of a command line.
pub struct CmdView {
    pub cfgfc: Seq<char>,
    pub fc: Seq<char>,
    pub loopcnt: usize,
    pub ioaddr: Seq<char>,
    pub ioargs: Map<Seq<char>, Seq<char>>,
    pub prgfile: Seq<char>,
    pub blogdebug: bool,
}

/// The abstract view of a command line.
pub open spec fn cmdv(c: CmdLine) -> CmdView {
    CmdView {
        cfgfc: c.cfgfc@,
        fc: c.fc@,
        loopcnt: c.loopcnt,
        ioaddr: c.ioaddr@,
        ioargs: strmap_view(c.ioargs.view()),
        prgfile: c.prgfile@,
        blogdebug: c.blogdebug,
    }
}

/// What an empty command line asks for: a loop count of 1, the console as
/// io bridge, and nothing else.
pub open spec fn cmd_defaults() -> CmdView {
    CmdView {
        cfgfc: Seq::empty(),
        fc: Seq::empty(),
        loopcnt: 1,
        ioaddr: "console"@,
        ioargs: Map::empty(),
        prgfile: Seq::empty(),
        blogdebug: false,
    }
}

/// Whether an argument is one of the options, each of which takes the next
/// argument as its value.
pub open spec fn is_option(a: Seq<char>) -> bool {
    a == "--cfgfc"@ || a == "--prgfile"@ || a == "--fc"@ || a == "--loopcnt"@ || a == "--ioaddr"@
        || a == "--ioarg"@ || a == "--blogdebug"@
}

/// What an option with its value makes of the command line so far; `None`
/// for a loop count that is no decimal `usize` and an io argument without `=`.
pub open spec fn apply_option(st: CmdView, a: Seq<char>, v: Seq<char>) -> Option<CmdView> {
    if a == "--cfgfc"@ {
        Some(CmdView { cfgfc: v, ..st })
    } else if a == "--prgfile"@ {
        Some(CmdView { prgfile: v, ..st })
    } else if a == "--fc"@ {
        Some(CmdView { fc: v, ..st })
    } else if a == "--loopcnt"@ {
        match usize_from_radix(v, 10) {
            Some(n) => Some(CmdView { loopcnt: n, ..st }),
            None => None,
        }
    } else if a == "--ioaddr"@ {
        Some(CmdView { ioaddr: v, ..st })
    } else if a == "--ioarg"@ {
        match seq_split_once(v, '=') {
            Some((k, x)) => Some(CmdView { ioargs: st.ioargs.insert(k, x), ..st }),
            None => None,
        }
    } else if v == "yes"@ || v == "true"@ {
        Some(CmdView { blogdebug: true, ..st })
    } else {
        Some(st)
    }
}

/// The command line from argument `i` on, given what the arguments before
/// it asked for: options take their values, other arguments are skipped; an
/// option without a value, or with an invalid one, is `None`.
pub open spec fn cmd_scan(args: Seq<Seq<char>>, i: int, st: CmdView) -> Option<CmdView>
    decreases args.len() - i,
{
    if i < 0 || i >= args.len() {
        Some(st)
    } else if is_option(args[i]) {
        if i + 1 >= args.len() {
            None
        } else {
            match apply_option(st, args[i], args[i + 1]) {
                Some(st2) => cmd_scan(args, i + 2, st2),
                None => None,
            }
        }
    } else {
        cmd_scan(args, i + 1, st)
    }
}

/// Whether an argument is one of the options.
fn is_option_exec(a: &[char]) -> (b: bool)
    ensures
        b == is_option(a@),
{
    chars_are(a, "--cfgfc") || chars_are(a, "--prgfile") || chars_are(a, "--fc") || chars_are(a, "--loopcnt")
        || chars_are(a, "--ioaddr") || chars_are(a, "--ioarg") || chars_are(a, "--blogdebug")
}

impl CmdLine {
    /// Applies an option with its value (see `apply_option`).
    fn apply(&mut self, a: &[char], v: &String) -> (r: Result<(), String>)
        requires
            is_option(a@),
        ensures
            match r {
                Ok(()) => apply_option(cmdv(*old(self)), a@, v@) == Some(cmdv(*final(self))),
                Err(_) => apply_option(cmdv(*old(self)), a@, v@) is None,
            },
    {
        let vc = string_chars(v);
        if chars_are(a, "--cfgfc") {
            self.cfgfc = v.clone();
        } else if chars_are(a, "--prgfile") {
            self.prgfile = v.clone();
        } else if chars_are(a, "--fc") {
            self.fc = v.clone();
        } else if chars_are(a, "--loopcnt") {
            match usize_from_str_radix(vc.as_slice(), 10) {
                Some(n) => {
                    self.loopcnt = n;
                },
                None => {
                    return Err(String::from_str("CmdLine:Invalid loopcnt"));
                },
            }
        } else if chars_are(a, "--ioaddr") {
            self.ioaddr = v.clone();
        } else if chars_are(a, "--ioarg") {
            match chars_split_once(vc.as_slice(), '=') {
                Some((k, x)) => {
                    let ghost m = self.ioargs.view();
                    let xs = string_from_chars(x.as_slice());
                    self.ioargs.insert(string_from_chars(k.as_slice()), xs);
                    assert(strmap_view(self.ioargs.view()) =~= strmap_view(m).insert(k@, x@));
                },
                None => {
                    return Err(String::from_str("CmdLine:IOArg needs key=value"));
                },
            }
        } else {
            if chars_are(vc.as_slice(), "yes") || chars_are(vc.as_slice(), "true") {
                self.blogdebug = true;
            }
        }
        Ok(())
    }
}

/// Reads the command line's arguments (without the program's name), see
/// `cmd_scan` and `cmd_defaults`.
pub fn handle_cmdline(args: &Vec<String>) -> (r: Result<CmdLine, String>)
    ensures
        match r {
            Ok(c) => cmd_scan(lines_of(args@), 0, cmd_defaults()) == Some(cmdv(c)),
            Err(_) => cmd_scan(lines_of(args@), 0, cmd_defaults()) is None,
        },
{
    let ghost ls = lines_of(args@);
    let mut c = CmdLine {
        cfgfc: String::new(),
        fc: String::new(),
        loopcnt: 1,
        ioaddr: String::from_str("console"),
        ioargs: StrMap::new(),
        prgfile: String::new(),
        blogdebug: false,
    };
    assert(strmap_view(c.ioargs.view()) =~= Map::<Seq<char>, Seq<char>>::empty());
    assert(cmdv(c) == cmd_defaults());
    let mut i: usize = 0;
    while i < args.len()
        invariant
            ls == lines_of(args@),
            i <= args@.len() + 1,
            cmd_scan(ls, 0, cmd_defaults()) == cmd_scan(ls, i as int, cmdv(c)),
        decreases args@.len() + 1 - i,
    {
        let a = string_chars(&args[i]);
        assert(a@ == ls[i as int]);
        if is_option_exec(a.as_slice()) {
            if i + 1 >= args.len() {
                return Err(String::from_str("CmdLine:Option without a value"));
            }
            assert(args@[i + 1]@ == ls[i + 1]);
            c.apply(a.as_slice(), &args[i + 1])?;
            i = i + 2;
        } else {
            i = i + 1;
        }
    }
    Ok(c)
}

} // verus!
