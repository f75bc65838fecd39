use fuzzerk::fixed::{LoopFixedStringsFuzzer, RandomFixedStringsFuzzer};
use fuzzerk::fuzz::{Fuzz, Fuzzer};
use fuzzerk::random::{Buf8sRandomizeFuzzer, RandomFixedFuzzer, RandomRandomFuzzer};
use fuzzerk::FuzzChain;

#[test]
fn it_works() {
    let result = 2 + 2;
    assert_eq!(result, 4);
}

#[test]
fn fuzzer_fixedstrings() {
    // LoopFixedStringsFuzzer
    let mut fsf = LoopFixedStringsFuzzer::new(vec![Vec::from("Hello"), Vec::from("World")]);
    let mut buf: Vec<u8> = Vec::new();
    for i in 0..16 {
        fsf.append_fuzzed(i, &mut buf)
    }
    println!("TEST:FuzzerLoopFixedStrings:{:?}", buf);
    println!("TEST:FuzzerLoopFixedStrings:{:?}", String::from_utf8(buf));
    // RandomFixedStringsFuzzer
    let mut fsf = RandomFixedStringsFuzzer::new(vec![Vec::from("Hello"), Vec::from("World")]);
    let mut buf: Vec<u8> = Vec::new();
    for i in 0..16 {
        fsf.append_fuzzed(i, &mut buf)
    }
    println!("TEST:FuzzerRandomFixedStrings:{:?}", buf);
    println!("TEST:FuzzerRandomFixedStrings:{:?}", String::from_utf8(buf));
}

#[test]
fn fuzzer_randomrandom() {
    const MINLEN: usize = 3;
    const MAXLEN: usize = 5;
    let mut rrf = RandomRandomFuzzer::new(MINLEN, MAXLEN);
    let mut buf: Vec<u8> = Vec::new();
    for i in 0..16 {
        rrf.append_fuzzed(i, &mut buf);
        println!("TEST:FuzzerRandomRandom:{}:BufLen:{}", i, buf.len());
    }
    println!("TEST:FuzzerRandomRandom:{:?}", buf);
}

fn gen_randbytes(size: usize) -> Vec<u8> {
    let mut randbytes = Vec::new();
    for _i in 0..size {
        randbytes.push(rand::random());
    }
    randbytes
}

#[test]
fn fuzzer_randomfixed() {
    const MINLEN: usize = 3;
    const MAXLEN: usize = 10;
    // RandomFixedFuzzer - binary
    let mut rfb = RandomFixedFuzzer::new(MINLEN, MAXLEN, gen_randbytes(128));
    let mut buf: Vec<u8> = Vec::new();
    for i in 0..16 {
        rfb.append_fuzzed(i, &mut buf);
        println!("TEST:FuzzerRandomFixed<Binary>:{}:BufLen:{}", i, buf.len());
    }
    println!("TEST:FuzzerRandomFixed<Binary>:{:?}", buf);
    // RandomFixedFuzzer - Printable chars
    buf.clear();
    let mut rfp = RandomFixedFuzzer::new_printables(MINLEN, MAXLEN);
    for i in 0..16 {
        rfp.append_fuzzed(i, &mut buf);
        println!("TEST:FuzzerRandomFixed<Printables>:{}:BufLen:{}", i, buf.len());
    }
    println!("TEST:FuzzerRandomFixed<Printables>:{:?}", String::from_utf8(buf));
}

#[test]
fn fuzzchain_t1() {
    let mut fc1 = FuzzChain::new();

    let rfsf = RandomFixedStringsFuzzer::new(vec![Vec::from("Hello"), Vec::from("World")]);
    let rspacesf1 = RandomFixedStringsFuzzer::new(vec![Vec::from(" "), Vec::from("  ")]);
    let rspacesf2 = RandomFixedFuzzer::new(1, 5, vec![b' ']);
    let rfpf = RandomFixedFuzzer::new_printables(3, 10);
    let rfpf2 = RandomFixedFuzzer::new_printables(3, 10);

    fc1.append(Fuzzer::RandomFixedStrings(rfsf));
    fc1.append(Fuzzer::RandomFixedStrings(rspacesf1));
    fc1.append(Fuzzer::RandomFixed(rfpf.duplicate()));
    fc1.append(Fuzzer::RandomFixed(rspacesf2));
    // The same fuzzer can be chained multiple times, if the data pattern needs it.
    fc1.append(Fuzzer::RandomFixed(rfpf));
    fc1.append(Fuzzer::RandomFixed(rfpf2));
    for i in 0..8 {
        let fuzzed = fc1.get(None);
        println!("TEST:FuzzChainT1:{}:{:?}:{:?}", i, fuzzed.clone(), String::from_utf8(fuzzed));
    }
}

#[test]
fn loop_fixed_strings_cycle_through_the_list() {
    let mut f = LoopFixedStringsFuzzer::new(vec![Vec::from("Hello"), Vec::from("World")]);
    let mut buf: Vec<u8> = Vec::new();
    for i in 0..4 {
        f.append_fuzzed(i, &mut buf);
    }
    assert_eq!(buf, b"HelloWorldHelloWorld".to_vec());
}

#[test]
fn random_fixed_strings_pick_one_of_the_list() {
    let f = RandomFixedStringsFuzzer::new(vec![Vec::from("Hello"), Vec::from("World")]);
    let mut buf: Vec<u8> = Vec::new();
    f.append_picked(3, &mut buf);
    assert_eq!(buf, b"World".to_vec());
    for i in 0..10 {
        let mut b: Vec<u8> = Vec::new();
        f.append_fuzzed_immut(i, &mut b);
        assert!(b == b"Hello".to_vec() || b == b"World".to_vec());
    }
}

#[test]
fn random_random_lengths_stay_in_range() {
    let f = RandomRandomFuzzer::new(3, 5);
    for i in 0..50 {
        let mut b: Vec<u8> = Vec::new();
        f.append_fuzzed_immut(i, &mut b);
        assert!(b.len() >= 3 && b.len() <= 5);
    }
    assert_eq!(f.pick_len(7), 3 + 7 % 3);
}

#[test]
fn random_fixed_uses_only_its_chars() {
    let f = RandomFixedFuzzer::new(2, 4, vec![b'a', b'b']);
    for i in 0..50 {
        let mut b: Vec<u8> = Vec::new();
        f.append_fuzzed_immut(i, &mut b);
        assert!(b.len() >= 2 && b.len() <= 4);
        assert!(b.iter().all(|c| *c == b'a' || *c == b'b'));
    }
    assert_eq!(f.pick_char(3), b'b');
}

#[test]
fn printables_are_printable_ascii() {
    let f = RandomFixedFuzzer::new_printables(5, 5);
    let mut b: Vec<u8> = Vec::new();
    f.append_fuzzed_immut(0, &mut b);
    assert_eq!(b.len(), 5);
    assert!(b.iter().all(|c| *c >= 0x20 && *c < 0x7f));
}

#[test]
fn chain_of_fixed_strings_is_exact() {
    let mut fc = FuzzChain::new();
    fc.append(Fuzzer::LoopFixedStrings(LoopFixedStringsFuzzer::new(vec![Vec::from("A"), Vec::from("B")])));
    fc.append(Fuzzer::LoopFixedStrings(LoopFixedStringsFuzzer::new(vec![Vec::from("x")])));
    assert_eq!(fc.get(None), b"Ax".to_vec());
    assert_eq!(fc.get(None), b"Bx".to_vec());
    assert_eq!(fc.get(Some(5)), b"Bx".to_vec());
    // the chain's step is now 5, which the next call uses
    assert_eq!(fc.get(None), b"Bx".to_vec());
    assert_eq!(fc.get(None), b"Ax".to_vec());
}

#[test]
fn buf8s_randomize_keeps_length() {
    let f = Buf8sRandomizeFuzzer::new(vec![vec![0u8; 8]], 3, 2, 5, 10, 20);
    for i in 0..20 {
        let mut b: Vec<u8> = Vec::new();
        f.append_fuzzed_immut(i, &mut b);
        assert_eq!(b.len(), 8);
        for (k, v) in b.iter().enumerate() {
            if *v != 0 {
                assert!(k >= 2 && k <= 5 && *v >= 10 && *v <= 20);
            }
        }
    }
}

#[test]
fn buf8s_randomize_end_is_inclusive() {
    let f = Buf8sRandomizeFuzzer::new(vec![b"AAAA".to_vec()], 1, 1, 1, 66, 66);
    let mut buf = Vec::new();
    f.append_fuzzed_immut(0, &mut buf);
    assert_eq!(buf, b"ABAA".to_vec());
}
