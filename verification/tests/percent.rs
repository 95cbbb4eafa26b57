use wim::numbers::{parse_hex_pair, parse_u64, to_decimal, to_hex_digit};
use wim::percent::{percent_decode, percent_decode_bytes, percent_encode, query_param};

#[test]
fn encodes_all_but_the_unreserved() {
    assert_eq!(percent_encode("AZaz09-_.~"), "AZaz09-_.~");
    assert_eq!(percent_encode("a b&c=d/é"), "a%20b%26c%3Dd%2F%C3%A9");
    assert_eq!(percent_encode(""), "");
}

#[test]
fn decodes_what_it_can() {
    assert_eq!(percent_decode("a%20b+c%2"), "a b c%2");
    assert_eq!(percent_decode("%41%4a%4A"), "AJJ");
    assert_eq!(percent_decode("%zz%"), "%zz%");
    assert_eq!(percent_decode("100%"), "100%");
    assert_eq!(percent_decode("%C3%A9"), "é");
}

#[test]
fn reads_a_sign_before_a_digit() {
    assert_eq!(percent_decode("%+A"), "\n");
    assert_eq!(parse_hex_pair(0x2b, 0x41), Some(10));
    assert_eq!(parse_hex_pair(0x2d, 0x41), None);
    assert_eq!(parse_hex_pair(0x41, 0x2b), None);
    assert_eq!(parse_hex_pair(0x66, 0x46), Some(255));
}

#[test]
fn replaces_what_is_not_utf8() {
    assert_eq!(percent_decode_bytes(b"%FFa"), vec![255, 97]);
    assert_eq!(percent_decode("%FFa"), "\u{fffd}a");
    assert_eq!(percent_decode("%E2%82x"), "\u{fffd}x");
}

#[test]
fn decoding_undoes_encoding() {
    for s in ["", "a b+c", "100% é—😀", "k=v&k=w", "%41", "\u{0}\u{10ffff}"] {
        assert_eq!(percent_decode(&percent_encode(s)), s);
    }
}

#[test]
fn plain_text_is_left_alone() {
    assert_eq!(percent_decode("plain é—😀 text"), "plain é—😀 text");
    assert_eq!(percent_decode("a+é+"), "a é ");
    assert_eq!(percent_decode(""), "");
}

#[test]
fn decoding_does_not_grow() {
    for s in ["%41%42", "a+b", "%FF%FE", "%", "%E2%82%AC", "é%C3", "%F0%9Fé%80x%C3%C3%A9", "%ED%A0%80"] {
        assert!(percent_decode_bytes(s.as_bytes()).len() <= s.len());
        assert!(percent_decode(s).len() <= s.len());
    }
}

#[test]
fn encoded_text_keeps_to_its_alphabet() {
    for c in percent_encode("Ünïcode & more? \u{7f}").chars() {
        assert!(c.is_ascii_alphanumeric() || "-_.~%".contains(c));
    }
}

#[test]
fn different_texts_are_encoded_differently() {
    assert_ne!(percent_encode("a b"), percent_encode("a+b"));
    assert_ne!(percent_encode("%20"), percent_encode(" "));
}

#[test]
fn finds_parameters() {
    assert_eq!(query_param("a=1&b=2", "b"), Some("2".to_string()));
    assert_eq!(query_param("a=1&a=2", "a"), Some("1".to_string()));
    assert_eq!(query_param("a=b=c", "a"), Some("b=c".to_string()));
    assert_eq!(query_param("code&x=1", "code"), Some("".to_string()));
    assert_eq!(query_param("a=%26%3D+x", "a"), Some("&= x".to_string()));
    assert_eq!(query_param("a=1", "b"), None);
    assert_eq!(query_param("", ""), Some("".to_string()));
    assert_eq!(query_param("", "a"), None);
    assert_eq!(query_param("a=1&", ""), Some("".to_string()));
    assert_eq!(query_param("%61=1", "a"), None);
    assert_eq!(query_param("?a=1&b=2", "a"), Some("1".to_string()));
    assert_eq!(query_param("?a=1&b=2", "b"), Some("2".to_string()));
    assert_eq!(query_param("?a=1", "?a"), None);
    assert_eq!(query_param("??a=1", "?a"), Some("1".to_string()));
    assert_eq!(query_param("b=2&?a=1", "?a"), Some("1".to_string()));
    assert_eq!(query_param("?", ""), Some("".to_string()));
}

#[test]
fn query_strings_are_read_back() {
    let code = "v^1.1#i^1&=+ %";
    let state = "Zz9";
    let query = format!("code={}&state={}", percent_encode(code), percent_encode(state));
    assert_eq!(query_param(&query, "code"), Some(code.to_string()));
    assert_eq!(query_param(&query, "state"), Some(state.to_string()));
    assert_eq!(query_param(&format!("?{}", query), "code"), Some(code.to_string()));
}

#[test]
fn joined_query_strings() {
    for (p, q) in [("a=1", "a=2&b=3"), ("?a=1", "b=2"), ("", "a=1"), ("b", ""), ("c=1&", "a=4")] {
        let joined = format!("{}&{}", p, q);
        for key in ["a", "b", "c", ""] {
            assert_eq!(query_param(&joined, key), query_param(p, key).or(query_param(q, key)));
        }
    }
    assert_eq!(query_param("b=1&?a=1", "a"), None);
}

#[test]
fn decimals() {
    assert_eq!(to_decimal(0), "0");
    assert_eq!(to_decimal(90), "90");
    assert_eq!(to_decimal(u64::MAX), "18446744073709551615");
    assert_eq!(parse_u64("18446744073709551615"), Some(u64::MAX));
    assert_eq!(parse_u64("18446744073709551616"), None);
    assert_eq!(parse_u64("99999999999999999999999x"), None);
    assert_eq!(parse_u64("+007"), Some(7));
    assert_eq!(parse_u64("+"), None);
    assert_eq!(parse_u64(""), None);
    assert_eq!(parse_u64("-1"), None);
    assert_eq!(parse_u64(" 1"), None);
}

#[test]
fn decimals_are_read_back() {
    for n in [0, 1, 9, 10, 3600, 65535, u64::MAX - 1] {
        assert_eq!(parse_u64(&to_decimal(n)), Some(n));
        assert_eq!(to_decimal(n), n.to_string());
    }
}

#[test]
fn hexadecimal_digits() {
    assert_eq!(to_hex_digit(9), '9');
    assert_eq!(to_hex_digit(10), 'A');
    assert_eq!(to_hex_digit(15), 'F');
}
