//! XOR mode: a single-byte cipher over the UTF-8 bytes of a string literal,
//! the request that names the literal and the key, and the decoding.
use vstd::prelude::*;
use vstd::string::*;
use vstd::utf8::*;

use crate::literal::literal_text;
use crate::tokens::{
    decimal_value, is_digit, is_string_literal_token, key_of_token, parse_key,
    token_content, ObfuscateError, Token,
};
use crate::utf8::string_from_utf8;

verus! {

/// Every byte of `b` combined with `key` by exclusive or.
pub open spec fn xor_seq(b: Seq<u8>, key: u8) -> Seq<u8> {
    Seq::new(b.len(), |i: int| b[i] ^ key)
}

/// Applying the cipher twice with the same key gives back the input.
pub proof fn lemma_xor_involution(b: Seq<u8>, key: u8)
    ensures
        xor_seq(xor_seq(b, key), key) == b,
{
    assert forall|i: int| 0 <= i < b.len() implies xor_seq(xor_seq(b, key), key)[i] == b[i] by {
        let x = b[i];
        assert((x ^ key) ^ key == x) by (bit_vector);
    }
    assert(xor_seq(xor_seq(b, key), key) =~= b);
}

/// Combines every byte of `data` with `key` by exclusive or.
pub fn xor_bytes(data: &[u8], key: u8) -> (r: Vec<u8>)
    ensures
        r@ == xor_seq(data@, key),
{
    let mut out: Vec<u8> = Vec::with_capacity(data.len());
    let mut i: usize = 0;
    while i < data.len()
        invariant
            i <= data@.len(),
            out@ == xor_seq(data@.take(i as int), key),
        decreases data@.len() - i,
    {
        out.push(data[i] ^ key);
        i = i + 1;
        assert(out@ =~= xor_seq(data@.take(i as int), key));
    }
    assert(data@.take(i as int) =~= data@);
    out
}


/// What a request in XOR mode asks for: the text of its string literal and
/// the key. The tokens must be exactly a string literal, a comma and a key.
pub open spec fn xor_request(toks: Seq<Token>) -> Result<(Seq<char>, u8), ObfuscateError> {
    if toks.len() == 0 || !is_string_literal_token(toks[0]) {
        Err(ObfuscateError::MissingLiteral)
    } else if toks.len() != 3 || toks[1] != Token::Punct(',') {
        Err(ObfuscateError::MalformedArguments)
    } else {
        match key_of_token(toks[2]) {
            Some(k) => Ok((token_content(toks[0]), k)),
            None => Err(ObfuscateError::KeyOutOfRange),
        }
    }
}

/// The text in XOR form: its UTF-8 bytes each combined with `key`, and the key
/// that recovers them.
#[derive(Clone, Debug, PartialEq, Eq)]
pub struct XorExpansion {
    pub encoded: Vec<u8>,
    pub key: u8,
}

/// Reads a string literal and a key from `tokens` and encodes the literal's
/// UTF-8 bytes with the key.
pub fn obfuscate_xor(tokens: &Vec<Token>) -> (r: Result<XorExpansion, ObfuscateError>)
    ensures
        match xor_request(tokens@) {
            Ok((s, k)) => r matches Ok(e) && e.encoded@ == xor_seq(encode_utf8(s), k) && e.key
                == k,
            Err(err) => r matches Err(e) && e == err,
        },
{
    if tokens.len() == 0 {
        return Err(ObfuscateError::MissingLiteral);
    }
    let content = match &tokens[0] {
        Token::Literal(text) => match literal_text(text.as_str()) {
            Some(c) => c,
            None => {
                return Err(ObfuscateError::MissingLiteral);
            },
        },
        _ => {
            return Err(ObfuscateError::MissingLiteral);
        },
    };
    if tokens.len() != 3 {
        return Err(ObfuscateError::MalformedArguments);
    }
    match &tokens[1] {
        Token::Punct(c) => {
            if *c != ',' {
                return Err(ObfuscateError::MalformedArguments);
            }
        },
        _ => {
            return Err(ObfuscateError::MalformedArguments);
        },
    }
    let key = match &tokens[2] {
        Token::Literal(text) => match parse_key(text.as_str()) {
            Some(k) => k,
            None => {
                return Err(ObfuscateError::KeyOutOfRange);
            },
        },
        _ => {
            return Err(ObfuscateError::KeyOutOfRange);
        },
    };
    let encoded = xor_bytes(content.as_str().as_bytes(), key);
    Ok(XorExpansion { encoded, key })
}

/// What the generated expression does at run time: undoes the cipher and reads
/// the bytes as UTF-8 text.
pub fn decode_xor(e: &XorExpansion) -> (r: Result<String, ObfuscateError>)
    ensures
        r is Ok <==> valid_utf8(xor_seq(e.encoded@, e.key)),
        r matches Ok(s) ==> s@ == decode_utf8(xor_seq(e.encoded@, e.key)),
        r matches Err(err) ==> err == ObfuscateError::Utf8Violation,
{
    let bytes = xor_bytes(e.encoded.as_slice(), e.key);
    match string_from_utf8(bytes) {
        Some(s) => Ok(s),
        None => Err(ObfuscateError::Utf8Violation),
    }
}

/// Decoding what the cipher made of a text's UTF-8 bytes, with the same key,
/// gives back that text.
pub proof fn lemma_xor_round_trip(s: Seq<char>, key: u8)
    ensures
        valid_utf8(xor_seq(xor_seq(encode_utf8(s), key), key)),
        decode_utf8(xor_seq(xor_seq(encode_utf8(s), key), key)) == s,
{
    broadcast use encode_utf8_valid_utf8, encode_utf8_decode_utf8;

    lemma_xor_involution(encode_utf8(s), key);
}


/// A request of the right shape (a string literal, then a comma, then one more
/// token) is accepted exactly when the last token is a decimal numeral of value
/// at most 255, and the key is then that value.
pub proof fn lemma_key_range(toks: Seq<Token>)
    requires
        toks.len() == 3,
        is_string_literal_token(toks[0]),
        toks[1] == Token::Punct(','),
    ensures
        xor_request(toks) is Ok <==> (toks[2] matches Token::Literal(text) && text@.len() > 0 && (
        forall|i: int| 0 <= i < text@.len() ==> is_digit(#[trigger] text@[i])) && decimal_value(
            text@,
        ) <= 255),
        xor_request(toks) matches Ok((_, k)) ==> (toks[2] matches Token::Literal(text) && k
            == decimal_value(text@)),
{
}

/// A request in XOR mode with fewer than three tokens, that is without its
/// key, is rejected.
pub proof fn lemma_missing_key_rejected(toks: Seq<Token>)
    requires
        toks.len() < 3,
    ensures
        xor_request(toks) is Err,
{
}

} // verus!
