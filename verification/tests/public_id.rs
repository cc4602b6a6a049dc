use standards::base32::decode_symbol;
use standards::public_id::{ParseError, PublicId, CODE_MASK};
use std::collections::HashSet;

#[derive(Debug)]
struct Order;

type OrderId = PublicId<Order>;

#[test]
fn from_bits_writes_most_significant_symbol_first() {
    assert_eq!(OrderId::from_bits(0).as_str(), "00000000000");
    assert_eq!(OrderId::from_bits(1).as_str(), "00000000001");
    assert_eq!(OrderId::from_bits(31).as_str(), "0000000000Z");
    assert_eq!(OrderId::from_bits(32).as_str(), "00000000010");
    assert_eq!(OrderId::from_bits(10).as_str(), "0000000000A");
    assert_eq!(OrderId::from_bits(18).as_str(), "0000000000J");
    assert_eq!(OrderId::from_bits(CODE_MASK).as_str(), "ZZZZZZZZZZZ");
}

#[test]
fn from_bits_keeps_only_the_lowest_55_bits() {
    assert_eq!(OrderId::from_bits(u64::MAX).as_str(), "ZZZZZZZZZZZ");
    assert_eq!(OrderId::from_bits(1u64 << 55).as_str(), "00000000000");
    assert!(OrderId::from_bits(1u64 << 55) == OrderId::from_bits(0));
}

#[test]
fn alphabet_skips_confusable_letters() {
    let mut seen = String::new();
    for d in 0..32u64 {
        seen.push_str(&OrderId::from_bits(d).as_str()[10..]);
    }
    assert_eq!(seen, "0123456789ABCDEFGHJKMNPQRSTVWXYZ");
}

#[test]
fn parse_reads_back_what_as_str_writes() {
    for bits in [0u64, 1, 31, 32, 12345678901234, CODE_MASK, CODE_MASK - 1] {
        let id = OrderId::from_bits(bits);
        let back = OrderId::parse(id.as_str()).unwrap();
        assert!(back == id);
        assert_eq!(back.as_str(), id.as_str());
    }
}

#[test]
fn parse_is_case_blind_and_folds_confusables() {
    let canonical = OrderId::parse("ZZZZZZZZZZZ").unwrap();
    let lower = OrderId::parse("zzzzzzzzzzz").unwrap();
    assert!(canonical == lower);
    assert_eq!(lower.as_str(), "ZZZZZZZZZZZ");
    let zeros = OrderId::parse("OoOoOoOoOoO").unwrap();
    assert_eq!(zeros.as_str(), "00000000000");
    let ones = OrderId::parse("IiLl0000000").unwrap();
    assert_eq!(ones.as_str(), "11110000000");
    let mixed = OrderId::parse("abcdefghjkm").unwrap();
    assert_eq!(mixed.as_str(), "ABCDEFGHJKM");
}

#[test]
fn parse_rejects_wrong_lengths() {
    assert_eq!(OrderId::parse("").unwrap_err(), ParseError::Length(0));
    assert_eq!(OrderId::parse("ABC").unwrap_err(), ParseError::Length(3));
    assert_eq!(OrderId::parse("000000000000").unwrap_err(), ParseError::Length(12));
    // Length counts UTF-8 bytes: five two-byte characters make ten.
    assert_eq!(OrderId::parse("ééééé").unwrap_err(), ParseError::Length(10));
}

#[test]
fn parse_reports_the_first_bad_byte() {
    assert_eq!(OrderId::parse("0000000000U").unwrap_err(), ParseError::Char('U'));
    assert_eq!(OrderId::parse("000000000u0").unwrap_err(), ParseError::Char('u'));
    assert_eq!(OrderId::parse("U*000000000").unwrap_err(), ParseError::Char('U'));
    assert_eq!(OrderId::parse("0-000000000").unwrap_err(), ParseError::Char('-'));
    // A non-ASCII character reports its first UTF-8 byte, read as a char.
    assert_eq!(OrderId::parse("ééééé0").unwrap_err(), ParseError::Char('\u{c3}'));
}

#[test]
fn from_str_parses() {
    let id: OrderId = "0000000000a".parse().unwrap();
    assert_eq!(id.as_str(), "0000000000A");
    assert_eq!("x".parse::<OrderId>().unwrap_err(), ParseError::Length(1));
}

#[test]
fn new_mints_canonical_codes() {
    for _ in 0..64 {
        let id = OrderId::new();
        let s = id.as_str();
        assert_eq!(s.len(), 11);
        assert!(s.bytes().all(|c| b"0123456789ABCDEFGHJKMNPQRSTVWXYZ".contains(&c)));
        assert!(OrderId::parse(s).unwrap() == id);
    }
    let d = OrderId::default();
    assert_eq!(d.as_str().len(), 11);
}

#[test]
fn codes_order_as_their_values() {
    let a = OrderId::from_bits(1);
    let b = OrderId::from_bits(2);
    let c = OrderId::from_bits(32);
    assert!(a < b);
    assert!(b < c);
    assert!(OrderId::from_bits(CODE_MASK - 1) < OrderId::from_bits(CODE_MASK));
    assert_eq!(a.cmp(&b), std::cmp::Ordering::Less);
    assert_eq!(c.partial_cmp(&c), Some(std::cmp::Ordering::Equal));
    assert_eq!(c.compare_codes(&a), std::cmp::Ordering::Greater);
}

#[test]
fn ids_are_copy_and_hash_by_code() {
    let a = OrderId::from_bits(7);
    let b = a;
    let c = a.clone();
    assert!(a == b && b == c);
    assert!(a != OrderId::from_bits(8));
    let mut set = HashSet::new();
    set.insert(a);
    set.insert(OrderId::parse("00000000007").unwrap());
    set.insert(OrderId::from_bits(8));
    assert_eq!(set.len(), 2);
}

#[test]
fn decode_symbol_values() {
    assert_eq!(decode_symbol(b'0'), Some(0));
    assert_eq!(decode_symbol(b'9'), Some(9));
    assert_eq!(decode_symbol(b'A'), Some(10));
    assert_eq!(decode_symbol(b'h'), Some(17));
    assert_eq!(decode_symbol(b'J'), Some(18));
    assert_eq!(decode_symbol(b'Z'), Some(31));
    assert_eq!(decode_symbol(b'z'), Some(31));
    assert_eq!(decode_symbol(b'O'), Some(0));
    assert_eq!(decode_symbol(b'o'), Some(0));
    assert_eq!(decode_symbol(b'I'), Some(1));
    assert_eq!(decode_symbol(b'l'), Some(1));
    assert_eq!(decode_symbol(b'U'), None);
    assert_eq!(decode_symbol(b'u'), None);
    assert_eq!(decode_symbol(b' '), None);
    assert_eq!(decode_symbol(0xff), None);
}

#[test]
fn parse_error_messages() {
    assert_eq!(ParseError::Length(3).message(), "public id must be 11 chars, got 3");
    assert_eq!(ParseError::Length(120).message(), "public id must be 11 chars, got 120");
    assert_eq!(ParseError::Char('U').message(), "invalid public-id character 'U'");
    assert_eq!(ParseError::Char('\n').message(), "invalid public-id character '\\n'");
}

#[test]
fn debug_text_wraps_the_code() {
    let id: OrderId = "0000000000o".parse().unwrap();
    assert_eq!(id.as_str(), "00000000000");
    assert_eq!(id.debug_text(), "PublicId(00000000000)");
    assert_eq!(OrderId::from_bits(CODE_MASK).debug_text(), "PublicId(ZZZZZZZZZZZ)");
}

#[test]
fn char_messages_use_debug_escapes() {
    assert_eq!(ParseError::Char('\u{c3}').message(), "invalid public-id character 'Ã'");
    assert_eq!(ParseError::Char('\0').message(), "invalid public-id character '\\0'");
    assert_eq!(ParseError::Char('\\').message(), "invalid public-id character '\\\\'");
    let err = OrderId::parse("ééééé0").unwrap_err();
    assert_eq!(err.message(), format!("invalid public-id character {:?}", '\u{c3}'));
}

#[test]
fn cmp_is_lexicographic_on_the_code() {
    let p = OrderId::from_bits(1);
    let q = OrderId::from_bits(2);
    assert_eq!(p.cmp(&q), p.as_str().cmp(q.as_str()));
    assert_eq!(p.partial_cmp(&q), Some(p.cmp(&q)));
    let mut v = vec![OrderId::from_bits(40), OrderId::from_bits(3), OrderId::from_bits(1000)];
    v.sort();
    let texts: Vec<&str> = v.iter().map(|i| i.as_str()).collect();
    assert_eq!(texts, vec!["00000000003", "00000000018", "000000000Z8"]);
}
