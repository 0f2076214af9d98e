use cageforge_windows::addresses::{parse_address, parse_ipv4, parse_ipv6, Address};
use cageforge_windows::bytes::{push_little_endian, read_u32, read_word, same_bytes};
use cageforge_windows::keyed::Keyed;
use cageforge_windows::ordering::{find_slot, sorted_positions, words_le};
use cageforge_windows::text::{
    decimal_text, find, hex_text, hex_word_text, same_text_ignoring_case, split, split_at_first,
    trimmed, unsigned, upper_case,
};
use cageforge_windows::utf16::{decode_units, decode_units_lossy, encode_text};

fn chars(text: &str) -> Vec<char> {
    text.chars().collect()
}

fn string(chars: &[char]) -> String {
    chars.iter().collect()
}

#[test]
fn texts_are_searched_and_split() {
    assert_eq!(find(&chars("abcabc"), &chars("ca")), Some(2));
    assert_eq!(find(&chars("abc"), &chars("x")), None);
    let (left, right) = split_at_first(&chars("a--b--c"), &chars("--")).unwrap();
    assert_eq!((string(&left), string(&right)), ("a".into(), "b--c".into()));
    let parts: Vec<String> = split(&chars("a,,b"), ',').iter().map(|p| string(p)).collect();
    assert_eq!(parts, vec!["a", "", "b"]);
    assert_eq!(string(&trimmed(&chars(" \t a b \u{2003}"))), "a b");
}

#[test]
fn numbers_are_read_and_written() {
    assert_eq!(unsigned(&chars("65535"), 65535), Some(65535));
    assert_eq!(unsigned(&chars("65536"), 65535), None);
    assert_eq!(unsigned(&chars("+5"), 65535), Some(5));
    assert_eq!(unsigned(&chars(""), 65535), None);
    assert_eq!(unsigned(&chars("1a"), 65535), None);
    assert_eq!(decimal_text(0), "0");
    assert_eq!(decimal_text(u64::MAX), "18446744073709551615");
    assert_eq!(hex_text(&[0, 0xab, 0xff]), "00abff");
    assert_eq!(hex_word_text(0x1f01ff), "001f01ff");
}

#[test]
fn case_is_ignored_in_ascii_only() {
    assert!(same_text_ignoring_case("S-1-5-X", "s-1-5-x"));
    assert!(!same_text_ignoring_case("Ä", "ä"));
    assert_eq!(upper_case("abÄc"), "ABÄC");
}

#[test]
fn units_round_trip_through_texts() {
    for text in ["", "abc", "\u{10000}x\u{fffd}", "Ä"] {
        let units = encode_text(text);
        assert_eq!(units, text.encode_utf16().collect::<Vec<u16>>());
        assert_eq!(string(&decode_units(&units).unwrap()), text);
        assert_eq!(decode_units_lossy(&units), text);
    }
    let broken = [0x61, 0xd800, 0x62, 0xdc00, 0xd800];
    assert_eq!(decode_units(&broken), None);
    assert_eq!(decode_units_lossy(&broken), String::from_utf16_lossy(&broken));
}

#[test]
fn addresses_are_parsed_as_the_system_writes_them() {
    for text in ["127.0.0.1", "0.0.0.0", "255.255.255.255", "1.2.3", "01.2.3.4", "256.1.1.1"] {
        let expected = text
            .parse::<core::net::Ipv4Addr>()
            .ok()
            .map(|address| u32::from_be_bytes(address.octets()));
        assert_eq!(parse_ipv4(&chars(text)), expected, "{text}");
    }
    for text in [
        "::", "::1", "1::", "2001:db8::8:800:200c:417a", "::ffff:1.2.3.4", "1:2:3:4:5:6:7:8",
        "1:2:3:4:5:6:7::", "1::2::3", "12345::", "1:2:3", "::1.2.3.4:5", "fe80::1%1",
    ] {
        let expected = text
            .parse::<core::net::Ipv6Addr>()
            .ok()
            .map(|address| u128::from_be_bytes(address.octets()));
        assert_eq!(parse_ipv6(&chars(text)), expected, "{text}");
    }
    assert!(matches!(
        parse_address(&chars("1.2.3.4")),
        Some(Address::V4(0x0102_0304))
    ));
    assert!(matches!(parse_address(&chars("::2")), Some(Address::V6(2))));
    assert!(parse_address(&chars("x")).is_none());
}

#[test]
fn words_are_ordered_and_found() {
    assert!(words_le(&vec![1, 2], &vec![1, 2]));
    assert!(words_le(&vec![1], &vec![1, 0]));
    assert!(!words_le(&vec![2], &vec![1, 9]));
    assert_eq!(
        sorted_positions(&vec![vec![3], vec![1], vec![3], vec![2]]),
        vec![1, 3, 0, 2]
    );
    let keys = vec![vec![1], vec![3]];
    assert_eq!(find_slot(&keys, &vec![0]), 0);
    assert_eq!(find_slot(&keys, &vec![3]), 1);
    assert_eq!(find_slot(&keys, &vec![4]), 2);
}

#[test]
fn keyed_lists_stay_in_order() {
    let mut list: Keyed<char> = Keyed::new();
    for (key, item) in [(5, 'e'), (1, 'a'), (3, 'c')] {
        let (at, present) = list.locate(&vec![key]);
        assert!(!present);
        list.insert(at, vec![key], item);
    }
    assert_eq!(list.locate(&vec![3]), (1, true));
    list.replace(1, 'C');
    *list.get_mut(0) = 'A';
    assert_eq!(list.len(), 3);
    assert_eq!(*list.get(2), 'e');
    assert_eq!(list.into_items(), vec!['A', 'C', 'e']);
}

#[test]
fn words_are_little_endian() {
    let mut bytes = vec![9];
    push_little_endian(&mut bytes, 0x0102_0304, 4);
    assert_eq!(bytes, vec![9, 4, 3, 2, 1]);
    assert_eq!(read_u32(&bytes[1..]), 0x0102_0304);
    assert_eq!(read_word(&bytes, 1), 0x0102_0304);
    assert!(same_bytes(&[1, 2], &[1, 2]));
    assert!(!same_bytes(&[1, 2], &[1]));
}
