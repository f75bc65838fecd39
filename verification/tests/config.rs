use std::collections::VecDeque;

use fuzzerk::cfgfiles::{get_cfggroup, parse_lines, FromVecStrings};
use fuzzerk::cmdline::handle_cmdline;
use fuzzerk::fixed::{LoopFixedStringsFuzzer, RandomFixedStringsFuzzer};
use fuzzerk::fuzz::Fuzz;
use fuzzerk::iob::{filewriter_mode, iob_target, read_timeout, tls_args, FileMode, IobKind};
use fuzzerk::random::{Buf8sRandomizeFuzzer, RandomFixedFuzzer, RandomRandomFuzzer};
use fuzzerk::rtm::RunTimeManager;
use fuzzerk::strmap::StrMap;

fn lines(v: &[&str]) -> Vec<String> {
    v.iter().map(|s| s.to_string()).collect()
}

fn deque(v: &[&str]) -> VecDeque<String> {
    v.iter().map(|s| s.to_string()).collect()
}

#[test]
fn cfg_groups_are_split_at_blank_lines() {
    let ls = lines(&["# comment", "", "FuzzerType:A:B", "  x: 1", "# inside", "", "FuzzChain:C:D", "  B"]);
    let (g, np) = get_cfggroup(&ls, 0).unwrap();
    assert_eq!(g, deque(&["FuzzerType:A:B", "  x: 1"]));
    assert_eq!(np, 6);
    let (g, np) = get_cfggroup(&ls, np).unwrap();
    assert_eq!(g, deque(&["FuzzChain:C:D", "  B"]));
    assert_eq!(np, 8);
    let (g, _) = get_cfggroup(&ls, np).unwrap();
    assert!(g.is_empty());
    assert!(get_cfggroup(&lines(&["  indented start"]), 0).is_err());
}

#[test]
fn cfg_values_of_many_kinds() {
    let mut vs = deque(&[
        "  a: 12",
        "  b: some text",
        "  c: \"  spaced  \"",
        "  d: $0x414243",
        "  e: tab\\there",
        "  f:",
        "    one,",
        "    two",
        "  g: 2",
        "    x",
        "    y",
    ]);
    assert_eq!(LoopFixedStringsFuzzer::get_ivalue(&mut vs, "a", 2), Ok(12));
    assert_eq!(LoopFixedStringsFuzzer::get_value(&mut vs, "b", 2), Ok(b"some text".to_vec()));
    assert_eq!(LoopFixedStringsFuzzer::get_value(&mut vs, "c", 2), Ok(b"  spaced  ".to_vec()));
    assert_eq!(LoopFixedStringsFuzzer::get_value(&mut vs, "d", 2), Ok(b"ABC".to_vec()));
    assert_eq!(LoopFixedStringsFuzzer::get_value(&mut vs, "e", 2), Ok(b"tab\there".to_vec()));
    assert_eq!(LoopFixedStringsFuzzer::get_values(&mut vs, "f", 2), Ok(vec![b"one".to_vec(), b"two".to_vec()]));
    assert_eq!(LoopFixedStringsFuzzer::get_values(&mut vs, "g", 2), Ok(vec![b"x".to_vec(), b"y".to_vec()]));
    assert!(vs.is_empty());
}

#[test]
fn cfg_list_with_a_count() {
    let mut vs = deque(&["  list: 2", "    A", "    B", "    C"]);
    assert_eq!(LoopFixedStringsFuzzer::get_values(&mut vs, "list", 2), Ok(vec![b"A".to_vec(), b"B".to_vec()]));
    assert_eq!(vs, deque(&["    C"]));
}

#[test]
fn cfg_value_errors() {
    let mut vs = deque(&["  a: 12"]);
    assert!(LoopFixedStringsFuzzer::get_value(&mut vs, "b", 2).is_err());
    let mut vs = deque(&["  a 12"]);
    assert!(LoopFixedStringsFuzzer::get_value(&mut vs, "a", 2).is_err());
    let mut vs = deque(&["  a: twelve"]);
    assert!(LoopFixedStringsFuzzer::get_ivalue(&mut vs, "a", 2).is_err());
    assert!(LoopFixedStringsFuzzer::str_deescape("a\\qb").is_err());
    assert_eq!(LoopFixedStringsFuzzer::str_deescape("a\\n\\\\b"), Ok("a\n\\b".to_string()));
}

#[test]
fn fuzzers_from_config() {
    let mut vs = deque(&["FuzzerType:RandomRandomFuzzer:R", "  minlen: 3", "  maxlen: 8"]);
    let f = RandomRandomFuzzer::from_vs(&mut vs).unwrap();
    let mut b = Vec::new();
    f.append_fuzzed_immut(0, &mut b);
    assert!(b.len() >= 3 && b.len() <= 8);
    let mut vs = deque(&["FuzzerType:RandomFixedFuzzer:S", "  minlen: 1", "  maxlen: 1", "  charset: $0x20"]);
    let f = RandomFixedFuzzer::from_vs(&mut vs).unwrap();
    let mut b = Vec::new();
    f.append_fuzzed_immut(0, &mut b);
    assert_eq!(b, b" ".to_vec());
    let mut vs = deque(&["FuzzerType:RandomFixedStringsFuzzer:T", "  list:", "    \"GET \",", "    \"PUT \","]);
    let f = RandomFixedStringsFuzzer::from_vs(&mut vs).unwrap();
    let mut b = Vec::new();
    f.append_fuzzed_immut(0, &mut b);
    assert!(b == b"GET ".to_vec() || b == b"PUT ".to_vec());
    let mut vs = deque(&[
        "FuzzerType:Buf8sRandomizeFuzzer:L",
        "  buf8s:",
        "    GET /index.html http/v1",
        "  randcount: 2",
        "  startoffset: -1",
        "  endoffset: -1",
        "  startval: -1",
        "  endval: -1",
    ]);
    let f = Buf8sRandomizeFuzzer::from_vs(&mut vs).unwrap();
    let mut b = Vec::new();
    f.append_fuzzed_immut(0, &mut b);
    assert_eq!(b.len(), "GET /index.html http/v1".len());
    assert_eq!(LoopFixedStringsFuzzer::get_name(), "LoopFixedStringsFuzzer");
}

#[test]
fn run_time_manager_from_config() {
    let ls = lines(&[
        "FuzzerType:LoopFixedStringsFuzzer:HW",
        "  list:",
        "    Hello,",
        "    World",
        "",
        "FuzzChain:FuzzChain:FC",
        "  HW",
        "  HW",
        "",
        "Other:Group:Left:Alone",
    ]);
    let mut rtm = RunTimeManager::new();
    parse_lines(&ls, &mut rtm).unwrap();
    let fc = rtm.fchain("FC").unwrap();
    assert_eq!(fc.get(Some(1)), b"WorldWorld".to_vec());
    assert!(rtm.fchain("NOPE").is_none());
    let mut rtm2 = RunTimeManager::new();
    assert!(parse_lines(&lines(&["FuzzChain:FuzzChain:FC", "  UNKNOWN"]), &mut rtm2).is_err());
    let mut rtm3 = RunTimeManager::new();
    assert!(parse_lines(&lines(&["FuzzerType:NoSuchFuzzer:X", "  a: 1"]), &mut rtm3).is_err());
    let mut rtm4 = RunTimeManager::new();
    assert!(parse_lines(&lines(&["FuzzerType:LoopFixedStringsFuzzer"]), &mut rtm4).is_err());
}

#[test]
fn io_targets() {
    assert_eq!(iob_target("TcpClient:127.0.0.1:80"), Ok((IobKind::TcpClient, "127.0.0.1:80".to_string())));
    assert_eq!(iob_target("tlsclient:example.com:443"), Ok((IobKind::TlsClient, "example.com:443".to_string())));
    assert_eq!(iob_target("filewriter:/tmp/x"), Ok((IobKind::FileWriter, "/tmp/x".to_string())));
    assert_eq!(iob_target("CONSOLE"), Ok((IobKind::Console, String::new())));
    assert_eq!(iob_target("none"), Ok((IobKind::NoIo, String::new())));
    assert_eq!(iob_target("udp:1.2.3.4:5"), Ok((IobKind::NoIo, String::new())));
    assert!(iob_target("bogus").is_err());
}

#[test]
fn io_arguments() {
    let mut m = StrMap::new();
    assert_eq!(filewriter_mode(&m), Ok(FileMode::Append));
    assert_eq!(read_timeout(&m), Ok(None));
    assert!(tls_args(&m).is_err());
    m.insert("append".to_string(), "no".to_string());
    assert!(filewriter_mode(&m).is_err());
    m.insert("create".to_string(), "yes".to_string());
    assert_eq!(filewriter_mode(&m), Ok(FileMode::Create));
    m.insert("read_timeout".to_string(), "250".to_string());
    assert_eq!(read_timeout(&m), Ok(Some(250)));
    m.insert("read_timeout".to_string(), "18446744073709551615".to_string());
    assert_eq!(read_timeout(&m), Ok(Some(u64::MAX)));
    m.insert("read_timeout".to_string(), "18446744073709551616".to_string());
    assert!(read_timeout(&m).is_err());
    m.insert("read_timeout".to_string(), "INVALID".to_string());
    assert_eq!(read_timeout(&m), Ok(None));
    m.insert("domain".to_string(), "example.com".to_string());
    assert_eq!(tls_args(&m), Ok((true, "example.com".to_string())));
    m.insert("server_cert_check".to_string(), "no".to_string());
    assert_eq!(tls_args(&m), Ok((false, "example.com".to_string())));
}

#[test]
fn command_line() {
    let args = lines(&["--cfgfc", "a.cfg", "--fc", "FC", "--loopcnt", "5", "--ioaddr", "tcpclient:h:1", "--ioarg", "k=v=w",
        "stray", "--blogdebug", "yes", "--prgfile", "p.asm"]);
    let c = handle_cmdline(&args).unwrap();
    assert_eq!(c.cfgfc, "a.cfg");
    assert_eq!(c.fc, "FC");
    assert_eq!(c.loopcnt, 5);
    assert_eq!(c.ioaddr, "tcpclient:h:1");
    assert_eq!(c.ioargs.get(&"k".to_string()), Some(&"v=w".to_string()));
    assert!(c.blogdebug);
    assert_eq!(c.prgfile, "p.asm");
    let d = handle_cmdline(&Vec::new()).unwrap();
    assert_eq!((d.loopcnt, d.ioaddr.as_str(), d.blogdebug), (1, "console", false));
    assert!(handle_cmdline(&lines(&["--loopcnt", "x"])).is_err());
    assert!(handle_cmdline(&lines(&["--ioarg", "novalue"])).is_err());
    assert!(handle_cmdline(&lines(&["--fc"])).is_err());
    assert!(!handle_cmdline(&lines(&["--blogdebug", "no"])).unwrap().blogdebug);
}

#[test]
fn chain_of_a_fuzzer_that_can_not_generate() {
    let ls = lines(&[
        "FuzzerType:RandomRandomFuzzer:BAD",
        "  minlen: 5",
        "  maxlen: 3",
        "",
        "FuzzChain:FuzzChain:FC",
        "  BAD",
    ]);
    let mut rtm = RunTimeManager::new();
    parse_lines(&ls, &mut rtm).unwrap();
    assert!(rtm.fchain_get(&"FC".to_string(), Some(0)).is_none());
    let fc = rtm.fchain("FC").unwrap();
    assert!(!fc.is_ready());
}
