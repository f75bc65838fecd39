use fuzzerk::strmap::StrMap;
use fuzzerk::vm::datam::{DataKind, DataM};
use fuzzerk::vm::datas::Variant;
use fuzzerk::vm::ops::{CondOp, Op, ALUOP};
use fuzzerk::vm::run::{buf8_randomize, VmAction};
use fuzzerk::vm::xopdata::XOpData;
use fuzzerk::vm::VM;

fn chars(s: &str) -> Vec<char> {
    s.chars().collect()
}

fn dm(s: &str) -> Result<DataM, String> {
    DataM::compile_chars(None, &chars(s))
}

fn lines(v: &[&str]) -> Vec<String> {
    v.iter().map(|s| s.to_string()).collect()
}

/// Runs a program until it ends, answering each read with `reads` in turn;
/// gives the actions other than `Continue`, or the first error.
fn run_prg(prg: &[&str], reads: &[&[u8]]) -> Result<Vec<VmAction>, String> {
    let mut vm = VM::new();
    vm.compile(lines(prg))?;
    run_vm(&mut vm, reads)
}

fn run_vm(vm: &mut VM, reads: &[&[u8]]) -> Result<Vec<VmAction>, String> {
    let mut out = Vec::new();
    let mut nread = 0;
    for _ in 0..10000 {
        let a = vm.step_at(1234, cfg_le(), vec![1, 2, 3, 4, 5, 6, 7, 8, 9, 10])?;
        match a {
            VmAction::Halt => return Ok(out),
            VmAction::Continue => {}
            VmAction::IobRead(_, _) => {
                vm.read_done(reads[nread].to_vec())?;
                nread += 1;
                out.push(a);
            }
            _ => out.push(a),
        }
    }
    Err("too many steps".to_string())
}

fn cfg_le() -> bool {
    u16::from_ne_bytes([1, 0]) == 1
}

fn writes(acts: &[VmAction]) -> Vec<Vec<u8>> {
    acts.iter()
        .filter_map(|a| match a {
            VmAction::IobWrite(_, b) => Some(b.clone()),
            _ => None,
        })
        .collect()
}

#[test]
fn operand_int_literals() {
    assert!(matches!(dm("123"), Ok(DataM::Value(Variant::IntValue(123)))));
    assert!(matches!(dm("  -5 "), Ok(DataM::Value(Variant::IntValue(-5)))));
    assert!(matches!(dm("+7"), Ok(DataM::Value(Variant::IntValue(7)))));
    assert!(matches!(dm("0x1F"), Ok(DataM::Value(Variant::IntValue(31)))));
    assert!(dm("12ab").is_err());
    assert!(dm("-").is_err());
}

#[test]
fn operand_string_literals() {
    match dm("\" a b \"") {
        Ok(DataM::Value(Variant::StrValue(s))) => assert_eq!(s, " a b "),
        other => panic!("{:?}", other),
    }
    match dm("\"a\\tb\\\"c\"") {
        Ok(DataM::Value(Variant::StrValue(s))) => assert_eq!(s, "a\tb\"c"),
        other => panic!("{:?}", other),
    }
    assert!(dm("\"abc").is_err());
    assert!(dm("abc\"").is_err());
    assert!(dm("\"ab\"cd\"").is_err());
    assert!(dm("\"a\\qb\"").is_err());
}

#[test]
fn operand_buffer_and_special_literals() {
    match dm("$0x41420a") {
        Ok(DataM::Value(Variant::BufValue(b))) => assert_eq!(b, vec![0x41, 0x42, 0x0a]),
        other => panic!("{:?}", other),
    }
    assert!(dm("$0x4").is_err());
    assert!(dm("$0xZZ").is_err());
    assert!(matches!(dm("__TIME__STAMP__"), Ok(DataM::Value(Variant::XTimeStamp))));
    assert!(matches!(dm("__RANDOM__BYTES__12"), Ok(DataM::Random(12))));
    assert!(dm("__RANDOM__BYTES__x").is_err());
    assert!(dm("__RANDOM__").is_err());
}

#[test]
fn operand_variables_and_operations() {
    match dm("abc") {
        Ok(DataM::Variable(DataKind::Variable, n)) => assert_eq!(n, "abc"),
        other => panic!("{:?}", other),
    }
    match dm("buf[3]") {
        Ok(DataM::XOp(XOpData::ByteEle(v, i))) => {
            assert!(matches!(*v, DataM::Variable(DataKind::Variable, ref n) if n == "buf"));
            assert!(matches!(*i, DataM::Value(Variant::IntValue(3))));
        }
        other => panic!("{:?}", other),
    }
    assert!(matches!(dm("!str(abc)"), Ok(DataM::XOp(XOpData::Str(_)))));
    assert!(matches!(dm("!strhex(abc)"), Ok(DataM::XOp(XOpData::StrHex(_)))));
    assert!(matches!(dm("!strtrim( abc )"), Ok(DataM::XOp(XOpData::StrTrim(_)))));
    assert!(matches!(dm("!be(abc, 2)"), Ok(DataM::XOp(XOpData::ByteEle(_, _)))));
    assert!(matches!(dm("!ae(abc,2)"), Ok(DataM::XOp(XOpData::ArrayEle(_, _)))));
    assert!(dm("!be(abc)").is_err());
    assert!(dm("!foo(abc)").is_err());
    assert!(dm("#abc").is_err());
    assert!(dm("").is_err());
    let fa = vec!["x".to_string()];
    assert!(matches!(DataM::compile_chars(Some(&fa), &chars("x")), Ok(DataM::Variable(DataKind::FuncArg, _))));
    assert!(matches!(DataM::compile_chars(Some(&fa), &chars("y")), Ok(DataM::Variable(DataKind::Variable, _))));
}

#[test]
fn compile_instructions() {
    let c = |sop: &str, sargs: &str| Op::compile_parts(None, &chars(sop), &chars(sargs));
    assert!(matches!(c("nop", ""), Ok(Op::Nop)));
    assert!(matches!(c("letint", "a 5"), Ok(Op::LetGlobal('i', _, _))));
    assert!(matches!(c("letglobal", "a \"x\""), Ok(Op::LetGlobal('s', _, _))));
    assert!(matches!(c("letglobal", "a b"), Ok(Op::LetGlobal('?', _, _))));
    assert!(matches!(c("letlocal.b", "a b"), Ok(Op::LetLocal('b', _, _))));
    assert!(c("letlocal.q", "a b").is_err());
    assert!(matches!(c("mod", "a  b   c"), Ok(Op::Alu(ALUOP::Mod, _, _, _))));
    assert!(c("add", "a b").is_err());
    assert!(matches!(c("ifge.i", "a 3 goto L"), Ok(Op::If(CondOp::IfGeInt, _, _, _, _, _))));
    assert!(matches!(c("ifeq.s", "a 3 goto L"), Ok(Op::If(CondOp::IfEqStr, _, _, _, _, _))));
    assert!(matches!(c("ifne.i", "a 3 goto L"), Ok(Op::If(CondOp::IfNeInt, _, _, _, _, _))));
    assert!(matches!(c("ifeq.b", "a 3 goto L"), Ok(Op::If(CondOp::IfEqBuf, _, _, _, _, _))));
    match c("ifne", "\"a b\" c call f x y") {
        Ok(Op::If(CondOp::IfNeBuf, _, _, t, n, args)) => {
            assert_eq!(t, "call");
            assert_eq!(n, "f");
            assert_eq!(args, vec!["x".to_string(), "y".to_string()]);
        }
        other => panic!("{:?}", other),
    }
    assert!(c("iflt", "a 3 jump L").is_err());
    assert!(c("iflt", "a 3").is_err());
    match c("checkjump", "a 3 L1 __NEXT__ L3") {
        Ok(Op::CheckJump(_, _, l1, l2, l3)) => {
            assert_eq!((l1.as_str(), l2.as_str(), l3.as_str()), ("L1", "__NEXT__", "L3"));
        }
        other => panic!("{:?}", other),
    }
    match c("iobnew", "srv tcpclient:127.0.0.1:80 read_timeout=100 a=b") {
        Ok(Op::IobNew(id, addr, args)) => {
            assert_eq!(id, "srv");
            assert_eq!(addr, "tcpclient:127.0.0.1:80");
            assert_eq!(args.len(), 2);
            assert_eq!(args.get(&"read_timeout".to_string()), Some(&"100".to_string()));
        }
        other => panic!("{:?}", other),
    }
    assert!(c("iobnew", "srv console bad").is_err());
    assert!(c("iobnew", "srv").is_err());
    match c("buf8randomize", "b") {
        Ok(Op::Buf8Randomize(_, rc, so, eo, sv, ev)) => {
            assert!(matches!(rc, DataM::Value(Variant::IntValue(-1))));
            assert!(matches!(so, DataM::Value(Variant::IntValue(-1))));
            assert!(matches!(eo, DataM::Value(Variant::IntValue(-1))));
            assert!(matches!(sv, DataM::Value(Variant::IntValue(0))));
            assert!(matches!(ev, DataM::Value(Variant::IntValue(255))));
        }
        other => panic!("{:?}", other),
    }
    assert!(c("buf8randomize", "b 1 2 3 4 5 6").is_err());
    match c("bufmerged.s", "d \"a b\" c $0x41") {
        Ok(Op::BufMerged(t, _, srcs)) => {
            assert_eq!(t, 's');
            assert_eq!(srcs.len(), 3);
        }
        other => panic!("{:?}", other),
    }
    assert!(matches!(c("bufmerged", "d a"), Ok(Op::BufMerged('b', _, _))));
    assert!(matches!(c("call", "f a b"), Ok(Op::Call(_, _))));
    assert!(matches!(c("ret", ""), Ok(Op::Ret)));
    assert!(c("frobnicate", "x").is_err());
}

#[test]
fn vm_inc_and_text() {
    let acts = run_prg(&["letint a 5", "inc a", "bufmerged.s m a", "iobwrite out m"], &[]).unwrap();
    assert_eq!(writes(&acts), vec![b"6".to_vec()]);
}

#[test]
fn vm_alu_truncates_like_rust() {
    let prg = [
        "letint a -7",
        "letint b 2",
        "div c a b",
        "mod d a b",
        "mult e a b",
        "sub f a b",
        "bufmerged.s m c \",\" d \",\" e \",\" f",
        "iobwrite o m",
    ];
    let acts = run_prg(&prg, &[]).unwrap();
    assert_eq!(writes(&acts), vec![b"-3,-1,-14,-9".to_vec()]);
}

#[test]
fn vm_alu_errors() {
    assert!(run_prg(&["letint a 1", "div c a 0"], &[]).is_err());
    assert!(run_prg(&["letint a 1", "mod c a 0"], &[]).is_err());
    assert!(run_prg(&["letint a 0x7fffffffffffffff", "inc a"], &[]).is_err());
    assert!(run_prg(&["letint a -0x7fffffffffffffff", "dec a", "dec a"], &[]).is_err());
    assert!(run_prg(&["inc nosuchvar"], &[]).is_err());
}

#[test]
fn vm_loop_with_label() {
    let prg = ["letint i 0", "!label top", "inc i", "iflt i 3 goto top", "bufmerged.s m i", "iobwrite o m"];
    let acts = run_prg(&prg, &[]).unwrap();
    assert_eq!(writes(&acts), vec![b"3".to_vec()]);
}

#[test]
fn vm_call_and_ret() {
    let prg = [
        "jump main",
        "!func f x",
        "letlocal.i t x",
        "add r t 1",
        "ret",
        "!label main",
        "letint v 41",
        "call f v",
        "bufmerged.s m r",
        "iobwrite o m",
    ];
    let acts = run_prg(&prg, &[]).unwrap();
    assert_eq!(writes(&acts), vec![b"42".to_vec()]);
}

#[test]
fn vm_checkjump_and_next() {
    let prg = [
        "letint a 2",
        "checkjump a 3 LT __NEXT__ GT",
        "!label EQ",
        "iobwrite o \"eq\"",
        "jump END",
        "!label LT",
        "iobwrite o \"lt\"",
        "jump END",
        "!label GT",
        "iobwrite o \"gt\"",
        "!label END",
    ];
    let acts = run_prg(&prg, &[]).unwrap();
    assert_eq!(writes(&acts), vec![b"lt".to_vec()]);
    let mut prg2 = prg;
    prg2[0] = "letint a 3";
    assert_eq!(writes(&run_prg(&prg2, &[]).unwrap()), vec![b"eq".to_vec()]);
    prg2[0] = "letint a 4";
    assert_eq!(writes(&run_prg(&prg2, &[]).unwrap()), vec![b"gt".to_vec()]);
}

#[test]
fn vm_conditions() {
    let check = |cond: &str, a: &str, b: &str| -> bool {
        let l = format!("{} {} {} goto YES", cond, a, b);
        let prg = [l.as_str(), "iobwrite o \"no\"", "jump END", "!label YES", "iobwrite o \"yes\"", "!label END"];
        writes(&run_prg(&prg, &[]).unwrap()) == vec![b"yes".to_vec()]
    };
    assert!(check("iflt", "1", "2"));
    assert!(!check("iflt", "2", "2"));
    assert!(check("ifgt", "3", "2"));
    assert!(check("ifle", "2", "2"));
    assert!(!check("ifle", "3", "2"));
    assert!(check("ifge", "2", "2"));
    assert!(!check("ifge", "1", "2"));
    assert!(check("ifeq", "\"ab\"", "$0x6162"));
    assert!(check("ifne", "\"ab\"", "\"ac\""));
    assert!(!check("ifne", "\"ab\"", "\"ab\""));
    assert!(check("ifle", "0", "0x7fffffffffffffff"));
    assert!(check("ifge", "0x7fffffffffffffff", "0"));
    assert!(check("ifeq.s", "5", "\"5\""));
    assert!(!check("ifeq", "5", "\"5\""));
    assert!(check("ifeq.i", "5", "\"5\""));
    assert!(check("ifne.i", "5", "6"));
    assert!(!check("ifne.s", "5", "\"5\""));
}

#[test]
fn vm_io_actions_and_read() {
    let prg = [
        "iobnew io tcpclient:127.0.0.1:9 read_timeout=5",
        "bufnew b 4",
        "iobread io b",
        "iobwrite io b",
        "iobflush io",
        "sleepmsec 7",
        "iobclose io",
    ];
    let acts = run_prg(&prg, &[b"xy"]).unwrap();
    assert_eq!(acts.len(), 6);
    assert!(matches!(&acts[0], VmAction::IobNew(id, a, m) if id == "io" && a == "tcpclient:127.0.0.1:9" && m.len() == 1));
    assert!(matches!(&acts[1], VmAction::IobRead(id, 4) if id == "io"));
    assert!(matches!(&acts[2], VmAction::IobWrite(id, b) if id == "io" && b == b"xy"));
    assert!(matches!(&acts[3], VmAction::IobFlush(id) if id == "io"));
    assert!(matches!(&acts[4], VmAction::Sleep(7)));
    assert!(matches!(&acts[5], VmAction::IobClose(id) if id == "io"));
}

#[test]
fn vm_read_done_without_read_fails() {
    let mut vm = VM::new();
    assert!(vm.read_done(vec![1]).is_err());
}

#[test]
fn vm_ret_outside_call_fails() {
    assert!(run_prg(&["ret"], &[]).is_err());
    assert!(run_prg(&["call nosuchfunc"], &[]).is_err());
    assert!(run_prg(&["jump nosuchlabel"], &[]).is_err());
}

#[test]
fn vm_compile_errors() {
    let mut vm = VM::new();
    assert!(vm.compile(lines(&["frob a"])).is_err());
    let mut vm = VM::new();
    assert!(vm.compile(lines(&["!func f", "!func g"])).is_err());
    let mut vm = VM::new();
    assert!(vm.compile(lines(&["!bogus x"])).is_err());
    let mut vm = VM::new();
    assert!(vm.compile(lines(&["# a comment", "", "   ", "nop"])).is_ok());
}

#[test]
fn vm_funcarg_is_read_only() {
    let prg = ["jump main", "!func f x", "inc x", "ret", "!label main", "letint v 1", "call f v"];
    assert!(run_prg(&prg, &[]).is_err());
}

#[test]
fn vm_buffers_and_elements() {
    let prg = [
        "letbuf b $0x010203",
        "letint i b[1]",
        "bufmerged.s m i \":\" !strhex(b) \":\" !str($0x4142)",
        "iobwrite o m",
    ];
    let acts = run_prg(&prg, &[]).unwrap();
    assert_eq!(writes(&acts), vec![b"2:010203:AB".to_vec()]);
}

#[test]
fn vm_buf8randomize_in_range() {
    let prg = ["bufnew b 16", "buf8randomize b 5 2 6 10 20", "iobwrite o b"];
    for _ in 0..20 {
        let acts = run_prg(&prg, &[]).unwrap();
        let w = &writes(&acts)[0];
        assert_eq!(w.len(), 16);
        for (k, v) in w.iter().enumerate() {
            if *v != 0 {
                assert!((2..=6).contains(&k) && (10..=20).contains(v));
            }
        }
    }
    assert!(run_prg(&["bufnew b 4", "buf8randomize b 1 0 9"], &[]).is_err());
    assert!(run_prg(&["bufnew b 4", "buf8randomize b 1 3 1"], &[]).is_err());
    assert!(run_prg(&["bufnew b 4", "buf8randomize b 1 0 3 9 8"], &[]).is_err());
}

#[test]
fn buf8_randomize_exact_edges() {
    assert_eq!(buf8_randomize(vec![7, 7, 7], 0, 0, 9, 0, 255), Ok(vec![7, 7, 7]));
    assert_eq!(buf8_randomize(vec![7, 7, 7], 3, 1, 1, 5, 5), Ok(vec![7, 5, 7]));
    assert!(buf8_randomize(vec![], -1, 0, 0, 0, 0).is_err());
}

#[test]
fn vm_fuzz_chain_get() {
    let cfg = lines(&[
        "FuzzerType:LoopFixedStringsFuzzer:HW",
        "  list:",
        "    Hello,",
        "    World,",
        "",
        "FuzzChain:FuzzChain:FC1",
        "  HW",
        "  HW",
    ]);
    let mut vm = VM::new();
    vm.load_fcrtm(&cfg).unwrap();
    vm.compile(lines(&["fcget FC1 b", "iobwrite o b", "fcget FC1 b", "iobwrite o b"])).unwrap();
    let acts = run_vm(&mut vm, &[]).unwrap();
    assert_eq!(writes(&acts), vec![b"HelloHello".to_vec(), b"WorldWorld".to_vec()]);
    assert!(run_prg(&["fcget NOFC b"], &[]).is_err());
}

#[test]
fn vm_predefined_program() {
    let cfg = lines(&["FuzzerType:LoopFixedStringsFuzzer:HW", "  list:", "    Hi", "", "FuzzChain:FuzzChain:FC1", "  HW"]);
    let mut vm = VM::new();
    vm.load_fcrtm(&cfg).unwrap();
    let mut args = StrMap::new();
    args.insert("k".to_string(), "v".to_string());
    vm.predefined_prg("FC1", 3, "console", &args).unwrap();
    let acts = run_vm(&mut vm, &[]).unwrap();
    assert_eq!(writes(&acts), vec![b"Hi".to_vec(), b"Hi".to_vec(), b"Hi".to_vec()]);
    let news: Vec<&VmAction> = acts.iter().filter(|a| matches!(a, VmAction::IobNew(_, _, _))).collect();
    assert_eq!(news.len(), 3);
    assert!(matches!(news[0], VmAction::IobNew(id, a, m) if id == "srvX" && a == "console" && m.get(&"k".to_string()) == Some(&"v".to_string())));
}

#[test]
fn vm_load_prg_text() {
    let mut vm = VM::new();
    vm.load_prg("letstr  s   \"a   b\"\n\niobwrite   o s\n").unwrap();
    let acts = run_vm(&mut vm, &[]).unwrap();
    assert_eq!(writes(&acts), vec![b"a   b".to_vec()]);
}

#[test]
fn vm_time_stamp_is_given_time() {
    let acts = run_prg(&["letint t __TIME__STAMP__", "bufmerged.s m t", "iobwrite o m"], &[]).unwrap();
    assert_eq!(writes(&acts), vec![b"1234".to_vec()]);
}

#[test]
fn vm_int_bytes_native() {
    let acts = run_prg(&["letint a 258", "iobwrite o a"], &[]).unwrap();
    assert_eq!(writes(&acts), vec![(258isize).to_ne_bytes().to_vec()]);
}

#[test]
fn vm_logic_ops_and_size() {
    let prg = [
        "letbuf a $0x0ff0",
        "letbuf b $0x3c3c",
        "and c a b",
        "or d a b",
        "xor e a b",
        "not f a",
        "getsize \"hello\" n",
        "bufmerged.b m c d e f",
        "iobwrite o m",
        "bufmerged.s s n",
        "iobwrite o s",
    ];
    let acts = run_prg(&prg, &[]).unwrap();
    assert_eq!(
        writes(&acts),
        vec![vec![0x0c, 0x30, 0x3f, 0xfc, 0x33, 0xcc, 0xf0, 0x0f], b"5".to_vec()]
    );
    assert!(run_prg(&["letbuf a $0x01", "and c a $0x0102"], &[]).is_err());
    assert!(Op::compile_parts(None, &chars("xor"), &chars("a b")).is_err());
}

#[test]
fn vm_call_with_literal_arguments() {
    let prg = [
        "jump main",
        "!func add1 x",
        "add r x 1",
        "ret",
        "!func twice y",
        "call add1 y",
        "call add1 r",
        "ret",
        "!label main",
        "call add1 41",
        "bufmerged.s m r",
        "iobwrite o m",
        "iflt 1 2 call twice 10",
        "bufmerged.s m r",
        "iobwrite o m",
    ];
    let acts = run_prg(&prg, &[]).unwrap();
    assert_eq!(writes(&acts), vec![b"42".to_vec(), b"12".to_vec()]);
}

#[test]
fn vm_random_bytes() {
    let acts = run_prg(&["letbuf b __RANDOM__BYTES__4", "iobwrite o b", "bufmerged.s s !str(__RANDOM__BYTES__2)", "iobwrite o s"], &[]).unwrap();
    assert_eq!(writes(&acts), vec![vec![1, 2, 3, 4], vec![1, 2]]);
    let mut vm = VM::new();
    vm.compile(lines(&["getsize __RANDOM__BYTES__7 n", "bufmerged.s m n", "iobwrite o m"])).unwrap();
    let mut out = Vec::new();
    loop {
        match vm.step().unwrap() {
            VmAction::Halt => break,
            VmAction::IobWrite(_, b) => out.push(b),
            _ => {}
        }
    }
    assert_eq!(out, vec![b"7".to_vec()]);
}
