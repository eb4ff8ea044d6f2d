//! What an intercepted call hands on: the path argument, decoded, rewritten
//! and framed again.

use vstd::prelude::*;
use vstd::utf8::*;
use crate::cstring::{decode_text, encode_text, first_nul_at, nul_free, terminated};
use crate::bytewise::{lemma_forwarded_is_bytewise, lemma_forwarded_nul_free, redirected_bytes};
use crate::rewrite::redirect;

verus! {

/// Why a path argument cannot be handed on.
#[derive(Clone, Copy, Debug, PartialEq, Eq, Structural)]
pub enum Fault {
    /// The bytes that came in are not UTF-8 text.
    NotText,
    /// The rewritten path holds a terminator at this byte.
    EmbeddedNul { position: usize },
}

/// Turns the bytes of an incoming path argument (without its terminator)
/// into the argument for the real function: decoded as UTF-8, rewritten, and
/// framed with a terminator.
///
/// Well-formed bytes without a terminator among them always go through, and
/// come out as the rule applied to them, byte for byte. Bytes that are not
/// UTF-8 are refused as `NotText`; well-formed bytes that hold a terminator
/// are refused with the place where the first one stands after rewriting.
pub fn forwarded_path(raw: &[u8]) -> (out: Result<Vec<u8>, Fault>)
    ensures
        out is Ok <==> valid_utf8(raw@) && nul_free(raw@),
        match out {
            Ok(bytes) => {
                &&& valid_utf8(raw@)
                &&& nul_free(raw@)
                &&& bytes@ == terminated(redirected_bytes(raw@))
            },
            Err(Fault::NotText) => !valid_utf8(raw@),
            Err(Fault::EmbeddedNul { position }) => {
                &&& valid_utf8(raw@)
                &&& !nul_free(raw@)
                &&& first_nul_at(redirected_bytes(raw@), position as int)
            },
        },
{
    proof {
        if valid_utf8(raw@) {
            lemma_forwarded_is_bytewise(raw@);
            lemma_forwarded_nul_free(raw@);
        }
    }
    match decode_text(raw) {
        None => Err(Fault::NotText),
        Some(requested) => {
            let used: String = redirect(requested);
            match encode_text(used.as_str()) {
                Ok(bytes) => Ok(bytes),
                Err(e) => Err(Fault::EmbeddedNul { position: e.position }),
            }
        },
    }
}

} // verus!
