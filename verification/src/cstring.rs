//! Text on either side of a C boundary: bytes that end in a NUL.

use vstd::prelude::*;
use vstd::string::*;
use vstd::utf8::*;

verus! {

/// No byte of `bytes` is the terminator.
pub open spec fn nul_free(bytes: Seq<u8>) -> bool {
    forall|i: int| 0 <= i < bytes.len() ==> bytes[i] != 0u8
}

/// `at` is where the first terminator of `bytes` stands.
pub open spec fn first_nul_at(bytes: Seq<u8>, at: int) -> bool {
    &&& 0 <= at < bytes.len()
    &&& bytes[at] == 0u8
    &&& nul_free(bytes.take(at))
}

/// `bytes` followed by the terminator.
pub open spec fn terminated(bytes: Seq<u8>) -> Seq<u8> {
    bytes.push(0u8)
}

/// A terminator stood inside the text, at byte `position`.
#[derive(Clone, Copy, Debug, PartialEq, Eq, Structural)]
pub struct InteriorNul {
    pub position: usize,
}

/// Frames `bytes` as a C string: the same bytes and one terminator behind
/// them. Bytes that already hold a terminator cannot be framed; the error
/// says where the first one stands.
pub fn terminate(bytes: &[u8]) -> (framed: Result<Vec<u8>, InteriorNul>)
    ensures
        framed is Ok <==> nul_free(bytes@),
        match framed {
            Ok(out) => nul_free(bytes@) && out@ == terminated(bytes@),
            Err(e) => first_nul_at(bytes@, e.position as int),
        },
{
    let n: usize = bytes.len();
    let mut out: Vec<u8> = Vec::new();
    let mut i: usize = 0;
    while i < n
        invariant
            i <= n,
            n == bytes@.len(),
            out@ == bytes@.take(i as int),
            nul_free(out@),
        decreases n - i,
    {
        let b: u8 = bytes[i];
        if b == 0 {
            return Err(InteriorNul { position: i });
        }
        out.push(b);
        assert(out@ =~= bytes@.take(i + 1));
        i += 1;
    }
    assert(bytes@.take(n as int) =~= bytes@);
    out.push(0);
    Ok(out)
}

/// Frames `text` as a C string, byte for byte in its UTF-8 form.
pub fn encode_text(text: &str) -> (framed: Result<Vec<u8>, InteriorNul>)
    ensures
        framed is Ok <==> nul_free(encode_utf8(text@)),
        match framed {
            Ok(out) => nul_free(encode_utf8(text@)) && out@ == terminated(encode_utf8(text@)),
            Err(e) => first_nul_at(encode_utf8(text@), e.position as int),
        },
{
    terminate(text.as_bytes())
}

/// `std::str::from_utf8`: the bytes are handed back as text exactly when
/// they are well-formed UTF-8, and the text then has those very bytes.
#[verifier::external_body]
fn text_of(bytes: &[u8]) -> (text: Option<&str>)
    ensures
        text is Some <==> valid_utf8(bytes@),
        text is Some ==> text->0.spec_bytes() == bytes@,
{
    std::str::from_utf8(bytes).ok()
}

/// Reads `bytes` as UTF-8 text; `None` when they are not well-formed.
pub fn decode_text(bytes: &[u8]) -> (text: Option<&str>)
    ensures
        text is Some <==> valid_utf8(bytes@),
        text is Some ==> text->0@ == decode_utf8(bytes@),
{
    let text = text_of(bytes);
    proof {
        if let Some(t) = text {
            encode_utf8_decode_utf8(t@);
        }
    }
    text
}

} // verus!
