use strfuscator::b64::{decode_base64, obfuscate_base64, Base64Expansion};
use strfuscator::literal::literal_text;
use strfuscator::tokens::{parse_key, ObfuscateError, Token};
use strfuscator::xor::{decode_xor, obfuscate_xor, xor_bytes, XorExpansion};

fn lit(s: &str) -> Token {
    Token::Literal(s.to_string())
}

/// A string literal token whose value is `s`, escaped as the compiler would
/// print it.
fn quoted(s: &str) -> Token {
    Token::Literal(format!("{:?}", s))
}

fn xor_args(s: &str, key: &str) -> Vec<Token> {
    vec![quoted(s), Token::Punct(','), lit(key)]
}

fn xor_round_trip(s: &str, key: &str) -> String {
    let e = obfuscate_xor(&xor_args(s, key)).unwrap();
    decode_xor(&e).unwrap()
}

fn base64_round_trip(s: &str) -> String {
    let e = obfuscate_base64(&vec![quoted(s)]).unwrap();
    decode_base64(&e).unwrap()
}

#[test]
fn base64_hello_world() {
    let e = obfuscate_base64(&vec![quoted("Hello, World!")]).unwrap();
    assert_eq!(e.encoded, "SGVsbG8sIFdvcmxkIQ==");
    assert_eq!(decode_base64(&e).unwrap(), "Hello, World!");
}

#[test]
fn xor_hello_world() {
    let e = obfuscate_xor(&xor_args("Hello, World!", "123")).unwrap();
    assert_eq!(e.key, 123);
    let expected: Vec<u8> = "Hello, World!".bytes().map(|b| b ^ 123).collect();
    assert_eq!(e.encoded, expected);
    assert_eq!(decode_xor(&e).unwrap(), "Hello, World!");
}

#[test]
fn base64_empty_string() {
    let e = obfuscate_base64(&vec![quoted("")]).unwrap();
    assert_eq!(e.encoded, "");
    assert_eq!(decode_base64(&e).unwrap(), "");
}

#[test]
fn xor_zero_key_is_identity() {
    let e = obfuscate_xor(&xor_args("A", "0")).unwrap();
    assert_eq!(e.encoded, b"A".to_vec());
    assert_eq!(decode_xor(&e).unwrap(), "A");
}

#[test]
fn xor_multibyte_text() {
    let e = obfuscate_xor(&xor_args("日本語", "42")).unwrap();
    let expected: Vec<u8> = "日本語".bytes().map(|b| b ^ 42).collect();
    assert_eq!(e.encoded, expected);
    assert_eq!(decode_xor(&e).unwrap(), "日本語");
}

#[test]
fn round_trips_in_both_modes() {
    for s in ["", "a", "ab", "abc", "abcd", "Grüße, 世界 🦀", "tab\tand \"quote\" \\ back", "line\nbreak\r\0"] {
        assert_eq!(base64_round_trip(s), s);
        for key in ["0", "1", "42", "128", "255"] {
            assert_eq!(xor_round_trip(s, key), s);
        }
    }
}

#[test]
fn xor_twice_gives_input_back() {
    let data: Vec<u8> = vec![0, 1, 2, 127, 128, 200, 255];
    for key in [0u8, 1, 77, 128, 255] {
        let once = xor_bytes(&data, key);
        assert_eq!(xor_bytes(&once, key), data);
    }
    assert_eq!(xor_bytes(&[0x0f, 0xf0], 0xff), vec![0xf0, 0x0f]);
}

#[test]
fn key_bounds_accepted() {
    assert_eq!(obfuscate_xor(&xor_args("k", "0")).unwrap().key, 0);
    assert_eq!(obfuscate_xor(&xor_args("k", "255")).unwrap().key, 255);
    assert_eq!(obfuscate_xor(&xor_args("k", "007")).unwrap().key, 7);
}

#[test]
fn key_out_of_range_rejected() {
    for key in ["256", "1000", "99999999999999999999", "-1", "1.5", "12u8", "0x10", "1_0", ""] {
        assert_eq!(
            obfuscate_xor(&xor_args("k", key)),
            Err(ObfuscateError::KeyOutOfRange),
            "key {:?}",
            key
        );
    }
    let ident = vec![quoted("k"), Token::Punct(','), Token::Ident("key".to_string())];
    assert_eq!(obfuscate_xor(&ident), Err(ObfuscateError::KeyOutOfRange));
    let string_key = vec![quoted("k"), Token::Punct(','), quoted("5")];
    assert_eq!(obfuscate_xor(&string_key), Err(ObfuscateError::KeyOutOfRange));
}

#[test]
fn parse_key_values() {
    assert_eq!(parse_key("0"), Some(0));
    assert_eq!(parse_key("255"), Some(255));
    assert_eq!(parse_key("0255"), Some(255));
    assert_eq!(parse_key("256"), None);
    assert_eq!(parse_key(""), None);
    assert_eq!(parse_key("+5"), None);
    assert_eq!(parse_key("٣"), None);
}

fn value(text: &str) -> Option<String> {
    literal_text(text)
}

#[test]
fn literal_text_plain_strings() {
    assert_eq!(value("\"abc\""), Some("abc".to_string()));
    assert_eq!(value("\"\""), Some(String::new()));
    assert_eq!(value("\"é\""), Some("é".to_string()));
    assert_eq!(value("\""), None);
    assert_eq!(value("123"), None);
    assert_eq!(value("b\"x\""), None);
    assert_eq!(value("'x'"), None);
}

#[test]
fn literal_text_escapes() {
    assert_eq!(value(r#""a\nb""#), Some("a\nb".to_string()));
    assert_eq!(value(r#""\r\t\\\0\'\"""#), Some("\r\t\\\0'\"".to_string()));
    assert_eq!(value(r#""\x41\x7f""#), Some("A\x7f".to_string()));
    assert_eq!(value(r#""\u{48}\u{1F600}\u{1_0FFFF}""#), Some("H\u{1F600}\u{10FFFF}".to_string()));
    assert_eq!(value("\"one \\\n     two\""), Some("one two".to_string()));
    assert_eq!(value("\"end\\\n\""), Some("end".to_string()));
}

#[test]
fn literal_text_bad_escapes() {
    for bad in [
        r#""\q""#,
        r#""\x80""#,
        r#""\x4""#,
        r#""\u{D800}""#,
        r#""\u{110000}""#,
        r#""\u{1234567}""#,
        r#""\u{}""#,
        r#""\u{_1}""#,
        r#""\u41""#,
        r#""a\""#,
        r#""a"b""#,
    ] {
        assert_eq!(value(bad), None, "{}", bad);
    }
}

#[test]
fn literal_text_raw_strings() {
    assert_eq!(value(r#"r"abc""#), Some("abc".to_string()));
    assert_eq!(value(r#"r"a\nb""#), Some("a\\nb".to_string()));
    assert_eq!(value(r##"r#"say "hi""#"##), Some("say \"hi\"".to_string()));
    assert_eq!(value(r###"r##"x"##"###), Some("x".to_string()));
    assert_eq!(value(r#"r"""#), Some(String::new()));
    assert_eq!(value(r##"r#"x""##), None);
    assert_eq!(value("r"), None);
    assert_eq!(value("raw"), None);
}

#[test]
fn escaped_literal_encodes_its_value() {
    let e = obfuscate_base64(&vec![lit(r#""a\nb""#)]).unwrap();
    assert_eq!(e.encoded, "YQpi");
    assert_eq!(decode_base64(&e).unwrap(), "a\nb");
    let x = obfuscate_xor(&vec![lit(r#""a\nb""#), Token::Punct(','), lit("7")]).unwrap();
    assert_eq!(x.encoded, vec![b'a' ^ 7, b'\n' ^ 7, b'b' ^ 7]);
    assert_eq!(decode_xor(&x).unwrap(), "a\nb");
    let raw = obfuscate_base64(&vec![lit(r##"r#"a"b"#"##)]).unwrap();
    assert_eq!(decode_base64(&raw).unwrap(), "a\"b");
}

#[test]
fn invalid_escape_is_no_string_literal() {
    assert_eq!(obfuscate_base64(&vec![lit(r#""\q""#)]), Err(ObfuscateError::MissingLiteral));
    assert_eq!(
        obfuscate_xor(&vec![lit(r#""\q""#), Token::Punct(','), lit("1")]),
        Err(ObfuscateError::MissingLiteral)
    );
}

#[test]
fn missing_literal_rejected() {
    assert_eq!(obfuscate_base64(&vec![]), Err(ObfuscateError::MissingLiteral));
    assert_eq!(
        obfuscate_base64(&vec![Token::Ident("x".to_string()), Token::Punct(',')]),
        Err(ObfuscateError::MissingLiteral)
    );
    assert_eq!(obfuscate_base64(&vec![lit("42")]), Err(ObfuscateError::MissingLiteral));
    assert_eq!(obfuscate_xor(&vec![]), Err(ObfuscateError::MissingLiteral));
    assert_eq!(
        obfuscate_xor(&vec![lit("1"), Token::Punct(','), lit("2")]),
        Err(ObfuscateError::MissingLiteral)
    );
    assert_eq!(
        obfuscate_xor(&vec![Token::Group, Token::Punct(','), lit("2")]),
        Err(ObfuscateError::MissingLiteral)
    );
}

#[test]
fn xor_missing_key_rejected() {
    assert_eq!(obfuscate_xor(&vec![quoted("a")]), Err(ObfuscateError::MalformedArguments));
    assert_eq!(
        obfuscate_xor(&vec![quoted("a"), Token::Punct(',')]),
        Err(ObfuscateError::MalformedArguments)
    );
}

#[test]
fn xor_malformed_shapes_rejected() {
    assert_eq!(
        obfuscate_xor(&vec![quoted("a"), Token::Punct(';'), lit("1")]),
        Err(ObfuscateError::MalformedArguments)
    );
    assert_eq!(
        obfuscate_xor(&vec![quoted("a"), lit("1"), lit("1")]),
        Err(ObfuscateError::MalformedArguments)
    );
    assert_eq!(
        obfuscate_xor(&vec![quoted("a"), Token::Punct(','), lit("1"), Token::Punct(',')]),
        Err(ObfuscateError::MalformedArguments)
    );
}

#[test]
fn base64_ignores_other_tokens() {
    let toks = vec![Token::Punct(','), quoted("Hi"), Token::Ident("x".to_string()), Token::Group];
    let e = obfuscate_base64(&toks).unwrap();
    assert_eq!(e.encoded, "SGk=");
}

#[test]
fn base64_two_literals_rejected() {
    assert_eq!(
        obfuscate_base64(&vec![quoted("a"), Token::Punct(','), quoted("b")]),
        Err(ObfuscateError::MalformedArguments)
    );
    assert_eq!(
        obfuscate_base64(&vec![quoted("a"), lit("1")]),
        Err(ObfuscateError::MalformedArguments)
    );
}

#[test]
fn base64_exact_encodings() {
    let cases = [
        ("f", "Zg=="),
        ("fo", "Zm8="),
        ("foo", "Zm9v"),
        ("foob", "Zm9vYg=="),
        ("fooba", "Zm9vYmE="),
        ("foobar", "Zm9vYmFy"),
        ("é", "w6k="),
    ];
    for (plain, encoded) in cases {
        let e = obfuscate_base64(&vec![quoted(plain)]).unwrap();
        assert_eq!(e.encoded, encoded);
    }
}

#[test]
fn base64_decode_errors() {
    let not_base64 = Base64Expansion { encoded: "abc".to_string() };
    assert_eq!(decode_base64(&not_base64), Err(ObfuscateError::InvalidBase64));
    let trailing_bits = Base64Expansion { encoded: "Zh==".to_string() };
    assert_eq!(decode_base64(&trailing_bits), Err(ObfuscateError::InvalidBase64));
    let not_utf8 = Base64Expansion { encoded: "/w==".to_string() };
    assert_eq!(decode_base64(&not_utf8), Err(ObfuscateError::Utf8Violation));
}

#[test]
fn xor_decode_wrong_key_fails_on_invalid_utf8() {
    let e = XorExpansion { encoded: vec![b'A' ^ 1], key: 0x80 };
    assert_eq!(decode_xor(&e), Err(ObfuscateError::Utf8Violation));
    let wrong_key = XorExpansion { encoded: vec![b'A' ^ 1], key: 3 };
    assert_eq!(decode_xor(&wrong_key).unwrap(), "C");
}
