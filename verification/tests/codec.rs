use postfix_rest_gateway::netstring::{decode_netstring, encode_netstring};
use postfix_rest_gateway::percent::{encode_list, encode_response, keeps_byte};
use postfix_rest_gateway::text::{
    find_byte, find_token_end, has_prefix, skip_spaces, space_width_at, space_width_ending_at,
    trim_bounds,
};

#[test]
fn percent_keeps_unreserved_bytes() {
    let text = b"ABCxyz0189-._~@:!";
    assert_eq!(encode_response(text), text.to_vec());
}

#[test]
fn percent_escapes_space_and_slash() {
    assert_eq!(encode_response(b"a b/c"), b"a%20b%2Fc".to_vec());
}

#[test]
fn percent_escapes_with_upper_case_digits() {
    assert_eq!(encode_response(b"\n"), b"%0A".to_vec());
    assert_eq!(encode_response(b"\xff\x00\x7f"), b"%FF%00%7F".to_vec());
    assert_eq!(encode_response(b","), b"%2C".to_vec());
    assert_eq!(encode_response(b"%"), b"%25".to_vec());
}

#[test]
fn percent_escapes_each_byte_of_a_character() {
    assert_eq!(encode_response("é".as_bytes()), b"%C3%A9".to_vec());
}

#[test]
fn percent_of_nothing_is_nothing() {
    assert_eq!(encode_response(b""), Vec::<u8>::new());
}

#[test]
fn percent_every_byte_by_the_rule() {
    for b in 0u8..=255 {
        let out = encode_response(&[b]);
        let literal = b.is_ascii_alphanumeric() || b"-._~@:!".contains(&b);
        assert_eq!(keeps_byte(b), literal);
        if literal {
            assert_eq!(out, vec![b]);
        } else {
            assert_eq!(out, format!("%{:02X}", b).into_bytes());
        }
    }
}

#[test]
fn percent_of_two_texts_is_both_encodings() {
    let a = b"user name";
    let b = b"@host/x";
    let mut both = a.to_vec();
    both.extend_from_slice(b);
    let mut expected = encode_response(a);
    expected.extend(encode_response(b));
    assert_eq!(encode_response(&both), expected);
}

#[test]
fn list_joins_with_plain_commas() {
    let values = vec![b"a b".to_vec(), b"c,d".to_vec(), b"e".to_vec()];
    assert_eq!(encode_list(&values), b"a%20b,c%2Cd,e".to_vec());
    assert_eq!(encode_list(&vec![b"one".to_vec()]), b"one".to_vec());
    assert_eq!(encode_list(&Vec::new()), Vec::<u8>::new());
}

#[test]
fn netstring_encode_examples() {
    assert_eq!(encode_netstring(b"hello"), b"5:hello,".to_vec());
    assert_eq!(encode_netstring(b""), b"0:,".to_vec());
    assert_eq!(encode_netstring(b"NOTFOUND "), b"9:NOTFOUND ,".to_vec());
    assert_eq!(encode_netstring(b"0123456789"), b"10:0123456789,".to_vec());
}

#[test]
fn netstring_length_counts_bytes() {
    assert_eq!(encode_netstring("é".as_bytes()), b"2:\xc3\xa9,".to_vec());
    let long = vec![b'x'; 12345];
    let framed = encode_netstring(&long);
    assert!(framed.starts_with(b"12345:"));
    assert_eq!(framed.len(), 6 + 12345 + 1);
}

#[test]
fn netstring_decode_examples() {
    assert_eq!(decode_netstring(b"5:hello,"), Some(b"hello".to_vec()));
    assert_eq!(decode_netstring(b"0:,"), Some(Vec::new()));
    assert_eq!(decode_netstring(b"3:a:b,"), Some(b"a:b".to_vec()));
    assert_eq!(decode_netstring(b"3:a,b,"), Some(b"a,b".to_vec()));
}

#[test]
fn netstring_decode_rejects_length_mismatch() {
    assert_eq!(decode_netstring(b"5:ab,"), None);
}

#[test]
fn netstring_decode_rejects_missing_comma() {
    assert_eq!(decode_netstring(b"3:abc"), None);
}

#[test]
fn netstring_decode_rejects_comma_at_the_boundary() {
    // The payload fills the buffer: the comma would be the next byte.
    assert_eq!(decode_netstring(b"5:hello"), None);
    assert_eq!(decode_netstring(b"0:"), None);
}

#[test]
fn netstring_decode_rejects_wrong_terminator() {
    assert_eq!(decode_netstring(b"3:abc;"), None);
    assert_eq!(decode_netstring(b"2:abc,"), None);
}

#[test]
fn netstring_decode_rejects_missing_colon() {
    assert_eq!(decode_netstring(b""), None);
    assert_eq!(decode_netstring(b"5hello,"), None);
}

#[test]
fn netstring_decode_rejects_bad_length() {
    assert_eq!(decode_netstring(b":abc,"), None);
    assert_eq!(decode_netstring(b"x:abc,"), None);
    assert_eq!(decode_netstring(b"3a:abc,"), None);
    assert_eq!(decode_netstring(b" 3:abc,"), None);
    assert_eq!(decode_netstring(b"-3:abc,"), None);
    assert_eq!(decode_netstring(b"+:abc,"), None);
    assert_eq!(decode_netstring(b"3+:abc,"), None);
    assert_eq!(decode_netstring(b"3 :abc,"), None);
    assert_eq!(decode_netstring(b"0x3:abc,"), None);
    assert_eq!(decode_netstring(b"3.0:abc,"), None);
}

#[test]
fn netstring_decode_rejects_signed_length() {
    assert_eq!(decode_netstring(b"+3:abc,"), None);
    assert_eq!(decode_netstring(b"+0:,"), None);
    assert_eq!(decode_netstring(b"-0:,"), None);
}

#[test]
fn netstring_decode_accepts_leading_zeros() {
    assert_eq!(decode_netstring(b"003:abc,"), Some(b"abc".to_vec()));
    assert_eq!(decode_netstring(b"00:,"), Some(Vec::new()));
}

#[test]
fn netstring_decode_rejects_huge_length() {
    assert_eq!(decode_netstring(b"99999999999999999999999999999999:abc,"), None);
    assert_eq!(decode_netstring(b"18446744073709551615:abc,"), None);
    assert_eq!(decode_netstring(b"18446744073709551614:abc,"), None);
}

#[test]
fn netstring_decode_rejects_payload_that_is_no_text() {
    assert_eq!(decode_netstring(b"1:\xff,"), None);
    assert_eq!(decode_netstring(b"2:\xc3\x28,"), None);
    assert_eq!(decode_netstring(b"1:\xc3,"), None);
    assert_eq!(decode_netstring(b"3:\xed\xa0\x80,"), None);
    assert_eq!(decode_netstring(b"2:\xc3\xa9,"), Some("\u{e9}".as_bytes().to_vec()));
    let all: Vec<u8> = (0u8..=255).collect();
    assert_eq!(decode_netstring(&encode_netstring(&all)), None);
}

#[test]
fn netstring_decode_ignores_what_follows() {
    assert_eq!(decode_netstring(b"3:abc,4:defg,"), Some(b"abc".to_vec()));
    assert_eq!(decode_netstring(b"3:abc,\n"), Some(b"abc".to_vec()));
}

#[test]
fn netstring_round_trip() {
    let samples: Vec<Vec<u8>> = vec![
        Vec::new(),
        b"a".to_vec(),
        b"vmap alice@example.com".to_vec(),
        b"1:2,3:".to_vec(),
        (0u8..=127).collect(),
        "gr\u{fc}\u{df}e, \u{4e16}\u{754c} \u{1f600}".as_bytes().to_vec(),
        vec![b','; 1000],
    ];
    for s in samples {
        assert_eq!(decode_netstring(&encode_netstring(&s)), Some(s.clone()));
        let mut followed = encode_netstring(&s);
        followed.extend_from_slice(b"5:next,");
        assert_eq!(decode_netstring(&followed), Some(s));
    }
}

#[test]
fn white_space_widths() {
    assert_eq!(space_width_at(b" x", 0), 1);
    assert_eq!(space_width_at(b"\tx", 0), 1);
    assert_eq!(space_width_at(b"\x0bx", 0), 1);
    assert_eq!(space_width_at(b"x ", 0), 0);
    assert_eq!(space_width_at(b"x", 5), 0);
    assert_eq!(space_width_at("\u{a0}".as_bytes(), 0), 2);
    assert_eq!(space_width_at("\u{85}".as_bytes(), 0), 2);
    assert_eq!(space_width_at("\u{3000}".as_bytes(), 0), 3);
    assert_eq!(space_width_at("\u{2003}".as_bytes(), 0), 3);
    assert_eq!(space_width_at("\u{200b}".as_bytes(), 0), 0);
    assert_eq!(space_width_at(b"\xc2", 0), 0);
    assert_eq!(space_width_ending_at(b"ab ", 0, 3), 1);
    assert_eq!(space_width_ending_at("a\u{2028}".as_bytes(), 0, 4), 3);
    assert_eq!(space_width_ending_at("a\u{2028}".as_bytes(), 2, 4), 0);
    assert_eq!(space_width_ending_at(b"ab", 0, 2), 0);
}

#[test]
fn white_space_agrees_with_char_is_whitespace() {
    for code in 0u32..0x3100 {
        if let Some(c) = char::from_u32(code) {
            let mut buf = [0u8; 4];
            let encoded = c.encode_utf8(&mut buf).as_bytes();
            let expected = if c.is_whitespace() { encoded.len() } else { 0 };
            assert_eq!(space_width_at(encoded, 0), expected, "U+{:04X}", code);
            assert_eq!(space_width_ending_at(encoded, 0, encoded.len()), expected, "U+{:04X}", code);
        }
    }
}

#[test]
fn tokens_and_trimming() {
    let s = b"  get   key  ";
    let a = skip_spaces(s, 0);
    assert_eq!(a, 2);
    let e = find_token_end(s, a);
    assert_eq!(e, 5);
    assert_eq!(skip_spaces(s, e), 8);
    assert_eq!(find_token_end(s, 8), 11);
    assert_eq!(skip_spaces(s, 11), 13);
    assert_eq!(trim_bounds(s), (2, 11));
    assert_eq!(trim_bounds(b""), (0, 0));
    assert_eq!(trim_bounds(b" \t\r\n"), (4, 4));
    assert_eq!(trim_bounds(b"x"), (0, 1));
    let t = "\u{a0}a b\u{3000}\n".as_bytes();
    assert_eq!(trim_bounds(t), (2, 5));
}

#[test]
fn trimming_agrees_with_str_trim() {
    let samples = [
        "", " ", "a", " a", "a ", "  action=DUNNO \r\n", "\u{2003}x y\u{85}", "\u{feff}x", "é ",
        "\t\u{1680}\u{205f}z\u{202f}\u{2029}",
    ];
    for s in samples {
        let (a, e) = trim_bounds(s.as_bytes());
        assert_eq!(&s.as_bytes()[a..e], s.trim().as_bytes(), "{:?}", s);
    }
}

#[test]
fn prefix_and_search() {
    assert!(has_prefix(b"action=DUNNO", b"action="));
    assert!(has_prefix(b"action=", b"action="));
    assert!(!has_prefix(b"action", b"action="));
    assert!(!has_prefix(b"Action=x", b"action="));
    assert!(has_prefix(b"x", b""));
    assert_eq!(find_byte(b"abc:def:", b':'), 3);
    assert_eq!(find_byte(b"abc", b':'), 3);
    assert_eq!(find_byte(b"", b':'), 0);
}
