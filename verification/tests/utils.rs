use fuzzerk::datautils::{
    hex_from_vu8, intvalue, intvalue_chars, next_token_chars, remove_extra_whitespaces, splitn_chars, tokens_chars, vu8_from_hex, U8X,
};
use fuzzerk::strmap::StrMap;
use fuzzerk::vm::datas::Variant;

fn chars(s: &str) -> Vec<char> {
    s.chars().collect()
}

fn text(v: &[char]) -> String {
    v.iter().collect()
}

#[test]
fn hex_strings() {
    assert_eq!(vu8_from_hex("0aFF10"), Ok(vec![0x0a, 0xff, 0x10]));
    assert_eq!(vu8_from_hex(""), Ok(vec![]));
    assert!(vu8_from_hex("abc").is_err());
    assert!(vu8_from_hex("zz").is_err());
    assert_eq!(hex_from_vu8(&vec![0x12, 0xab]), "12ab");
    assert_eq!(hex_from_vu8(&vec![0x0a, 0xff]), "0aff");
}

#[test]
fn hex_roundtrip() {
    let v = vec![0x00, 0x19, 0x90, 0x45, 0xab, 0xff];
    assert_eq!(hex_from_vu8(&v).len(), 2 * v.len());
    assert_eq!(vu8_from_hex(&hex_from_vu8(&v)), Ok(v));
    assert!(vu8_from_hex("+a").is_err());
}

#[test]
fn extra_white_space() {
    assert_eq!(remove_extra_whitespaces("  a \t\t b  "), " a b ");
    assert_eq!(remove_extra_whitespaces("x \"a   b\"   y"), "x \"a   b\" y");
    assert_eq!(remove_extra_whitespaces("\"a\\\"  b\"  c"), "\"a\\\"  b\" c");
    let once = remove_extra_whitespaces(" p  \" q  \\\" r \"  s\t\n");
    assert_eq!(remove_extra_whitespaces(&once), once);
}

#[test]
fn int_values() {
    assert_eq!(intvalue(" 42 "), 42);
    assert_eq!(intvalue("-17"), -17);
    assert_eq!(intvalue("0x1f"), 31);
    let c = |s: &str| -> Vec<char> { s.chars().collect() };
    assert_eq!(intvalue_chars(&c("0x1f")), Some(31));
    assert_eq!(intvalue_chars(&c("0x")), None);
    assert_eq!(intvalue_chars(&c("abc")), None);
    assert_eq!(intvalue_chars(&c("99999999999999999999999")), None);
}

#[test]
fn int_text_roundtrip() {
    for i in [0isize, 7, -7, 1234567, isize::MAX, isize::MIN] {
        let v = Variant::IntValue(i);
        let s = Variant::StrValue(v.get_string());
        assert_eq!(s.get_isize(), Ok(i));
    }
}

#[test]
fn bytes_from_isize() {
    assert_eq!(U8X::from_isize(200).into_u8(), 200);
    assert_eq!(U8X::from_isize(0).into_u8(), 0);
}

#[test]
fn tokens_of_a_line() {
    let (t, r) = next_token_chars(&chars("  \"a b\"  c d")).unwrap();
    assert_eq!((text(&t), text(&r)), ("\"a b\"".to_string(), "c d".to_string()));
    let (t, r) = next_token_chars(&chars("word rest")).unwrap();
    assert_eq!((text(&t), text(&r)), ("word".to_string(), "rest".to_string()));
    assert!(next_token_chars(&chars("\"open")).is_none());
    let ts = tokens_chars(&chars("a \"b \\\" c\" d")).unwrap();
    let ts: Vec<String> = ts.iter().map(|t| text(t)).collect();
    assert_eq!(ts, vec!["a", "\"b \\\" c\"", "d"]);
    let p = splitn_chars(&chars("a b c d"), ' ', 3);
    let p: Vec<String> = p.iter().map(|t| text(t)).collect();
    assert_eq!(p, vec!["a", "b", "c d"]);
}

#[test]
fn variant_conversions() {
    assert_eq!(Variant::IntValue(-3).get_string(), "-3");
    assert_eq!(Variant::StrValue("12".to_string()).get_isize(), Ok(12));
    assert!(Variant::StrValue("x".to_string()).get_isize().is_err());
    assert_eq!(Variant::BufValue(vec![1, 0x2f]).get_string(), "012f");
    assert_eq!(Variant::BufValue(vec![0x41, 0x4f]).get_string(), "414f");
    assert_eq!(Variant::StrValue("hi".to_string()).get_bufvu8(), b"hi".to_vec());
    assert_eq!(Variant::IntValue(5).get_bufvu8(), 5isize.to_ne_bytes().to_vec());
    assert_eq!(Variant::BufValue(5isize.to_ne_bytes().to_vec()).get_isize(), Ok(5));
    assert!(Variant::BufValue(vec![1, 2]).get_isize().is_err());
    assert_eq!(Variant::IntValue(-1).get_usize().is_err(), true);
    assert_eq!(Variant::BufValue(vec![7, 8]).get_byteelement(1), 8);
    assert_eq!(Variant::StrValue("AB".to_string()).get_byteelement(1), 0x42);
    assert_eq!(Variant::IntValue(258).get_byteelement(0), 258isize.to_ne_bytes()[0]);
}

#[test]
fn string_maps() {
    let mut m: StrMap<usize> = StrMap::new();
    m.insert("a".to_string(), 1);
    m.insert("b".to_string(), 2);
    m.insert("a".to_string(), 3);
    assert_eq!(m.len(), 2);
    assert_eq!(m.get(&"a".to_string()), Some(&3));
    assert_eq!(m.get(&"b".to_string()), Some(&2));
    assert!(!m.contains_key(&"c".to_string()));
    assert_eq!(m.key_at(0), "a");
}
