//! The input of an obfuscation request, as a flat sequence of tokens, and the
//! reading of its key literal.
use vstd::prelude::*;
use vstd::string::*;

use crate::literal::literal_value;

verus! {

/// One token of the input, as the host compiler wrote it.
#[derive(Clone, Debug, PartialEq, Eq)]
pub enum Token {
    /// A literal, in its source form: `"text"` with its quotes, `123`, `b'x'`.
    Literal(String),
    /// A punctuation character such as `,`.
    Punct(char),
    /// An identifier or keyword.
    Ident(String),
    /// A delimited group; its contents play no part here.
    Group,
}

/// Why a request cannot be turned into an obfuscated string.
#[derive(Clone, Copy, Debug, PartialEq, Eq, Structural)]
pub enum ObfuscateError {
    /// No string literal where one is needed.
    MissingLiteral,
    /// The tokens do not have the shape the mode asks for.
    MalformedArguments,
    /// The key is not a decimal integer from 0 to 255.
    KeyOutOfRange,
    /// Decoded bytes are not valid UTF-8.
    Utf8Violation,
    /// Embedded text is not canonical standard base64.
    InvalidBase64,
}

/// The token is a literal.
pub open spec fn is_literal_token(t: Token) -> bool {
    t is Literal
}

/// The token is a string literal.
pub open spec fn is_string_literal_token(t: Token) -> bool {
    match t {
        Token::Literal(text) => literal_value(text@) is Some,
        _ => false,
    }
}

/// The string that a string literal token denotes.
pub open spec fn token_content(t: Token) -> Seq<char> {
    match t {
        Token::Literal(text) => match literal_value(text@) {
            Some(v) => v,
            None => Seq::empty(),
        },
        _ => Seq::empty(),
    }
}

/// An ASCII decimal digit.
pub open spec fn is_digit(c: char) -> bool {
    '0' <= c <= '9'
}

/// The value of an ASCII decimal digit.
pub open spec fn digit_value(c: char) -> nat {
    (c as u32 - '0' as u32) as nat
}

/// The number that a string of decimal digits denotes.
pub open spec fn decimal_value(s: Seq<char>) -> nat
    decreases s.len(),
{
    if s.len() == 0 {
        0
    } else {
        decimal_value(s.drop_last()) * 10 + digit_value(s.last())
    }
}

/// The byte that `s` denotes as a key: one or more decimal digits, with a
/// value of at most 255 (leading zeros allowed, no sign, no suffix).
pub open spec fn key_value(s: Seq<char>) -> Option<u8> {
    if s.len() > 0 && (forall|i: int| 0 <= i < s.len() ==> is_digit(#[trigger] s[i]))
        && decimal_value(s) <= 255 {
        Some(decimal_value(s) as u8)
    } else {
        None
    }
}

/// Reads a key byte from its decimal source form.
pub fn parse_key(s: &str) -> (r: Option<u8>)
    ensures
        r == key_value(s@),
{
    let n = s.unicode_len();
    if n == 0 {
        return None;
    }
    // `acc` is the value read so far, or 256 once it has passed 255.
    let mut acc: u32 = 0;
    let mut i: usize = 0;
    while i < n
        invariant
            n == s@.len(),
            i <= n,
            forall|j: int| 0 <= j < i ==> is_digit(#[trigger] s@[j]),
            acc == if decimal_value(s@.take(i as int)) > 255 {
                256
            } else {
                decimal_value(s@.take(i as int))
            },
        decreases n - i,
    {
        let c = s.get_char(i);
        if !('0' <= c && c <= '9') {
            return None;
        }
        let d = (c as u32) - ('0' as u32);
        assert(s@.take(i + 1).drop_last() =~= s@.take(i as int));
        if acc < 256 {
            acc = acc * 10 + d;
            if acc > 255 {
                acc = 256;
            }
        }
        i = i + 1;
    }
    assert(s@.take(n as int) =~= s@);
    if acc > 255 {
        None
    } else {
        Some(acc as u8)
    }
}


/// The key that a token denotes: a literal in decimal, from 0 to 255.
pub open spec fn key_of_token(t: Token) -> Option<u8> {
    match t {
        Token::Literal(text) => key_value(text@),
        _ => None,
    }
}

} // verus!
