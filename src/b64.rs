//! Base64 mode: the UTF-8 bytes of a string literal in standard base64
//! (RFC 4648 alphabet, padded), the request that names the literal, and the
//! decoding.
use base64::Engine;
use vstd::prelude::*;
use vstd::string::*;
use vstd::utf8::*;

use crate::literal::literal_text;
use crate::tokens::{
    is_literal_token, is_string_literal_token, token_content, ObfuscateError, Token,
};
use crate::utf8::string_from_utf8;

verus! {

/// The character of the standard base64 alphabet for a six-bit value.
pub open spec fn b64_char(v: int) -> char {
    if v < 26 {
        (v + 65) as char
    } else if v < 52 {
        (v - 26 + 97) as char
    } else if v < 62 {
        (v - 52 + 48) as char
    } else if v == 62 {
        '+'
    } else {
        '/'
    }
}

/// The four characters for one group of `n` bytes (1 to 3); absent bytes are
/// given as 0 and their characters as `=`.
pub open spec fn b64_group(b0: int, b1: int, b2: int, n: int) -> Seq<char> {
    seq![
        b64_char(b0 / 4),
        b64_char((b0 % 4) * 16 + b1 / 16),
        if n > 1 { b64_char((b1 % 16) * 4 + b2 / 64) } else { '=' },
        if n > 2 { b64_char(b2 % 64) } else { '=' },
    ]
}

/// The standard base64 text of `b`, padded with `=` to a multiple of four.
pub open spec fn base64_of(b: Seq<u8>) -> Seq<char>
    decreases b.len(),
{
    if b.len() == 0 {
        Seq::empty()
    } else if b.len() == 1 {
        b64_group(b[0] as int, 0, 0, 1)
    } else if b.len() == 2 {
        b64_group(b[0] as int, b[1] as int, 0, 2)
    } else {
        b64_group(b[0] as int, b[1] as int, b[2] as int, 3) + base64_of(b.skip(3))
    }
}

#[verifier::external_type_specification]
#[verifier::external_body]
pub struct ExDecodeError(base64::DecodeError);

/// Relies on `Engine::encode` of base64's `STANDARD` engine: the standard
/// alphabet, padded. It panics only when the output length overflows `usize`.
#[verifier::external_body]
fn standard_encode(data: &[u8]) -> (r: String)
    requires
        data@.len() <= usize::MAX / 2,
    ensures
        r@ == base64_of(data@),
{
    base64::engine::general_purpose::STANDARD.encode(data)
}

/// Relies on `Engine::decode` of base64's `STANDARD` engine, whose padding
/// mode is canonical and which rejects trailing bits: it gives back the bytes
/// of every standard encoding and accepts no other text.
#[verifier::external_body]
fn standard_decode(text: &str) -> (r: Result<Vec<u8>, base64::DecodeError>)
    ensures
        r is Ok <==> exists|v: Seq<u8>| #[trigger] base64_of(v) == text@,
        r matches Ok(w) ==> forall|v: Seq<u8>| #[trigger] base64_of(v) == text@ ==> w@ == v,
{
    base64::engine::general_purpose::STANDARD.decode(text)
}

/// What a request in base64 mode asks for: the text of its string literal.
/// Tokens other than literals are ignored; there must be one literal only.
pub open spec fn base64_request(toks: Seq<Token>) -> Result<Seq<char>, ObfuscateError> {
    if exists|i: int, j: int|
        0 <= i < j < toks.len() && is_literal_token(#[trigger] toks[i]) && is_literal_token(
            #[trigger] toks[j],
        ) {
        Err(ObfuscateError::MalformedArguments)
    } else if exists|i: int| 0 <= i < toks.len() && is_string_literal_token(#[trigger] toks[i]) {
        Ok(
            token_content(
                toks[choose|i: int| 0 <= i < toks.len() && is_string_literal_token(#[trigger] toks[i])],
            ),
        )
    } else {
        Err(ObfuscateError::MissingLiteral)
    }
}

/// The text in base64 form.
#[derive(Clone, Debug, PartialEq, Eq)]
pub struct Base64Expansion {
    pub encoded: String,
}

/// Finds the string literal among `tokens` and encodes its UTF-8 bytes in
/// standard base64.
pub fn obfuscate_base64(tokens: &Vec<Token>) -> (r: Result<Base64Expansion, ObfuscateError>)
    requires
        base64_request(tokens@) matches Ok(s) ==> encode_utf8(s).len() <= usize::MAX / 2,
    ensures
        match base64_request(tokens@) {
            Ok(s) => r matches Ok(e) && e.encoded@ == base64_of(encode_utf8(s)),
            Err(err) => r matches Err(e) && e == err,
        },
{
    let mut first: Option<usize> = None;
    let mut i: usize = 0;
    while i < tokens.len()
        invariant
            i <= tokens@.len(),
            first matches Some(f) ==> f < i && is_literal_token(tokens@[f as int]),
            forall|j: int|
                0 <= j < i && is_literal_token(#[trigger] tokens@[j]) ==> (first matches Some(f)
                    && j == f),
        decreases tokens@.len() - i,
    {
        if let Token::Literal(_) = &tokens[i] {
            if let Some(f) = first {
                assert(is_literal_token(tokens@[f as int]) && is_literal_token(tokens@[i as int]));
                return Err(ObfuscateError::MalformedArguments);
            }
            first = Some(i);
        }
        i = i + 1;
    }
    assert(!exists|a: int, b: int|
        0 <= a < b < tokens@.len() && is_literal_token(#[trigger] tokens@[a]) && is_literal_token(
            #[trigger] tokens@[b],
        ));
    let f = match first {
        Some(f) => f,
        None => {
            assert(!exists|a: int|
                0 <= a < tokens@.len() && is_string_literal_token(#[trigger] tokens@[a]));
            return Err(ObfuscateError::MissingLiteral);
        },
    };
    let content = match &tokens[f] {
        Token::Literal(text) => match literal_text(text.as_str()) {
            Some(c) => c,
            None => {
                assert(!exists|a: int|
                    0 <= a < tokens@.len() && is_string_literal_token(#[trigger] tokens@[a]));
                return Err(ObfuscateError::MissingLiteral);
            },
        },
        _ => {
            return Err(ObfuscateError::MissingLiteral);
        },
    };
    assert(is_string_literal_token(tokens@[f as int]));
    let bytes = content.as_str().as_bytes();
    let encoded = standard_encode(bytes);
    Ok(Base64Expansion { encoded })
}

/// What the generated expression does at run time: decodes the base64 text and
/// reads the bytes as UTF-8 text. The encoding of any text's UTF-8 bytes
/// decodes to that text.
pub fn decode_base64(e: &Base64Expansion) -> (r: Result<String, ObfuscateError>)
    ensures
        r == Err::<String, ObfuscateError>(ObfuscateError::InvalidBase64) <==> !exists|v: Seq<u8>|
            #[trigger] base64_of(v) == e.encoded@,
        r == Err::<String, ObfuscateError>(ObfuscateError::Utf8Violation) <==> exists|v: Seq<u8>|
            #[trigger] base64_of(v) == e.encoded@ && !valid_utf8(v),
        r matches Ok(s) ==> base64_of(encode_utf8(s@)) == e.encoded@,
        forall|s: Seq<char>|
            #[trigger] base64_of(encode_utf8(s)) == e.encoded@ ==> (r matches Ok(t) && t@ == s),
{
    broadcast use encode_utf8_valid_utf8, encode_utf8_decode_utf8, decode_utf8_encode_utf8;

    match standard_decode(e.encoded.as_str()) {
        Ok(bytes) => {
            match string_from_utf8(bytes) {
                Some(s) => Ok(s),
                None => Err(ObfuscateError::Utf8Violation),
            }
        },
        Err(_) => Err(ObfuscateError::InvalidBase64),
    }
}

} // verus!
