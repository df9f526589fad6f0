//! Build-time string obfuscation: a string literal is turned into an encoded
//! form (standard base64, or a single-byte XOR cipher) together with the data
//! that a generated expression needs to recover the original text at run time.
use vstd::prelude::*;

pub mod b64;
pub mod literal;
pub mod tokens;
mod utf8;
pub mod xor;

use crate::b64::base64_request;
use crate::tokens::{is_string_literal_token, Token};
use crate::xor::xor_request;

verus! {

/// Without a string literal among its tokens a request is rejected, in either
/// mode.
pub proof fn lemma_missing_literal_rejected(toks: Seq<Token>)
    requires
        forall|i: int| 0 <= i < toks.len() ==> !is_string_literal_token(#[trigger] toks[i]),
    ensures
        base64_request(toks) is Err,
        xor_request(toks) is Err,
{
}

} // verus!
