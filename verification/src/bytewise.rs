//! The rewrite rule seen on bytes. Paths cross the C boundary as bytes; the
//! rule is stated on characters. Both prefixes are ASCII, so on well-formed
//! UTF-8 the two views agree, which is what this module proves.

use vstd::prelude::*;
use vstd::utf8::*;
use crate::cstring::nul_free;
use crate::rewrite::{destination_prefix, matches_rule, redirected, source_prefix};

verus! {

/// The source prefix in UTF-8.
pub open spec fn source_bytes() -> Seq<u8> {
    encode_utf8(source_prefix())
}

/// The destination prefix in UTF-8.
pub open spec fn destination_bytes() -> Seq<u8> {
    encode_utf8(destination_prefix())
}

/// The bytes of the path that the real function is to see, for a path
/// argument whose bytes are `raw`: decoded, rewritten, encoded again.
pub open spec fn forwarded(raw: Seq<u8>) -> Seq<u8> {
    encode_utf8(redirected(decode_utf8(raw)))
}

/// The rule applied to the bytes of a path.
pub open spec fn redirected_bytes(raw: Seq<u8>) -> Seq<u8> {
    if source_bytes().is_prefix_of(raw) {
        destination_bytes() + raw.skip(source_bytes().len() as int)
    } else {
        raw
    }
}

/// Encoding two pieces of text one after the other encodes their
/// concatenation.
pub proof fn lemma_encode_concat(a: Seq<char>, b: Seq<char>)
    ensures
        encode_utf8(a + b) == encode_utf8(a) + encode_utf8(b),
    decreases a.len(),
{
    if a.len() == 0 {
        assert(a + b =~= b);
        assert(encode_utf8(a) + encode_utf8(b) =~= encode_utf8(b));
    } else {
        lemma_encode_concat(a.drop_first(), b);
        assert((a + b).drop_first() =~= a.drop_first() + b);
        assert((a + b)[0] == a[0]);
        assert(encode_utf8(a + b) =~= encode_utf8(a) + encode_utf8(b));
    }
}

/// Two well-formed byte strings, one after the other, decode to the two
/// texts one after the other.
pub proof fn lemma_decode_concat(x: Seq<u8>, y: Seq<u8>)
    requires
        valid_utf8(x),
        valid_utf8(y),
    ensures
        valid_utf8(x + y),
        decode_utf8(x + y) == decode_utf8(x) + decode_utf8(y),
{
    let text = decode_utf8(x) + decode_utf8(y);
    lemma_encode_concat(decode_utf8(x), decode_utf8(y));
    decode_utf8_encode_utf8(x);
    decode_utf8_encode_utf8(y);
    assert(encode_utf8(text) == x + y);
    encode_utf8_valid_utf8(text);
    encode_utf8_decode_utf8(text);
}

/// What stands behind `k` leading ASCII bytes of a well-formed byte string
/// is well-formed too.
pub proof fn lemma_skip_ascii_valid(bytes: Seq<u8>, k: int)
    requires
        valid_utf8(bytes),
        0 <= k <= bytes.len(),
        forall|i: int| 0 <= i < k ==> bytes[i] <= 0x7f,
    ensures
        valid_utf8(bytes.skip(k)),
    decreases k,
{
    if k == 0 {
        assert(bytes.skip(0) =~= bytes);
    } else {
        lemma_skip_ascii_valid(bytes, k - 1);
        let tail = bytes.skip(k - 1);
        assert(tail[0] == bytes[k - 1]);
        assert(pop_first_scalar(tail) =~= bytes.skip(k));
    }
}

/// Both prefixes are ASCII without a terminator: in UTF-8 they are as long
/// as they have characters, and hold no zero byte and none above `0x7f`.
pub proof fn lemma_prefix_bytes()
    ensures
        source_bytes().len() == 32,
        destination_bytes().len() == 26,
        forall|i: int| 0 <= i < 32 ==> 0 < #[trigger] source_bytes()[i] <= 0x7f,
        forall|i: int| 0 <= i < 26 ==> 0 < #[trigger] destination_bytes()[i] <= 0x7f,
        nul_free(destination_bytes()),
{
    reveal_strlit("/home/optoforce/newSRC/lib/fonts");
    reveal_strlit("/usr/share/fonts/X11/Type1");
    let s = source_prefix();
    let d = destination_prefix();
    assert(is_ascii_chars(s));
    assert(is_ascii_chars(d));
    is_ascii_chars_encode_utf8(s);
    is_ascii_chars_encode_utf8(d);
    assert forall|i: int| 0 <= i < 32 implies 0 < #[trigger] source_bytes()[i] <= 0x7f by {
        assert(s[i] as u8 == source_bytes()[i]);
    }
    assert forall|i: int| 0 <= i < 26 implies 0 < #[trigger] destination_bytes()[i] <= 0x7f by {
        assert(d[i] as u8 == destination_bytes()[i]);
    }
}

/// A well-formed path begins with the source prefix as text exactly when
/// its bytes begin with the bytes of the source prefix, and what follows the
/// prefix is then the same on both sides.
pub proof fn lemma_match_is_bytewise(raw: Seq<u8>)
    requires
        valid_utf8(raw),
    ensures
        matches_rule(decode_utf8(raw)) <==> source_bytes().is_prefix_of(raw),
        matches_rule(decode_utf8(raw)) ==> encode_utf8(decode_utf8(raw).skip(32)) == raw.skip(32),
{
    lemma_prefix_bytes();
    crate::rewrite::lemma_prefix_lengths();
    let text = decode_utf8(raw);
    let head = source_prefix();
    decode_utf8_encode_utf8(raw);
    if matches_rule(text) {
        let tail = text.skip(32);
        assert(text =~= head + tail);
        lemma_encode_concat(head, tail);
        assert(raw == source_bytes() + encode_utf8(tail));
        assert(source_bytes() =~= raw.subrange(0, 32));
        assert(raw.skip(32) =~= encode_utf8(tail));
    }
    if source_bytes().is_prefix_of(raw) {
        let rest = raw.skip(32);
        assert(raw =~= source_bytes() + rest);
        assert forall|i: int| 0 <= i < 32 implies raw[i] <= 0x7f by {
            assert(raw[i] == source_bytes()[i]);
        }
        lemma_skip_ascii_valid(raw, 32);
        encode_utf8_valid_utf8(head);
        lemma_decode_concat(source_bytes(), rest);
        encode_utf8_decode_utf8(head);
        assert(text == head + decode_utf8(rest));
        assert(head =~= text.subrange(0, 32));
    }
}

/// Decoding a well-formed path, rewriting it and encoding it again is the
/// rule applied to the bytes themselves.
pub proof fn lemma_forwarded_is_bytewise(raw: Seq<u8>)
    requires
        valid_utf8(raw),
    ensures
        forwarded(raw) == redirected_bytes(raw),
{
    lemma_prefix_bytes();
    crate::rewrite::lemma_prefix_lengths();
    lemma_match_is_bytewise(raw);
    let text = decode_utf8(raw);
    if matches_rule(text) {
        lemma_encode_concat(destination_prefix(), text.skip(32));
    } else {
        decode_utf8_encode_utf8(raw);
    }
}

/// The path that is handed on is shorter than a matching path by the six
/// bytes that the destination prefix is shorter, and as long as any other.
pub proof fn lemma_forwarded_len(raw: Seq<u8>)
    requires
        valid_utf8(raw),
    ensures
        source_bytes().is_prefix_of(raw) ==> forwarded(raw).len() == raw.len() - 32 + 26,
        !source_bytes().is_prefix_of(raw) ==> forwarded(raw).len() == raw.len(),
{
    lemma_prefix_bytes();
    lemma_forwarded_is_bytewise(raw);
}

/// The rule neither brings a terminator into a path nor takes one out.
pub proof fn lemma_forwarded_nul_free(raw: Seq<u8>)
    requires
        valid_utf8(raw),
    ensures
        nul_free(forwarded(raw)) <==> nul_free(raw),
{
    lemma_prefix_bytes();
    lemma_forwarded_is_bytewise(raw);
    if source_bytes().is_prefix_of(raw) {
        let out = forwarded(raw);
        assert(raw =~= source_bytes() + raw.skip(32));
        if nul_free(raw) {
            assert forall|i: int| 0 <= i < out.len() implies out[i] != 0u8 by {
                if i < 26 {
                    assert(out[i] == destination_bytes()[i]);
                } else {
                    assert(out[i] == raw[i - 26 + 32]);
                }
            }
        }
        if nul_free(out) {
            assert forall|i: int| 0 <= i < raw.len() implies raw[i] != 0u8 by {
                if i < 32 {
                    assert(raw[i] == source_bytes()[i]);
                } else {
                    assert(raw[i] == out[i - 32 + 26]);
                }
            }
        }
    }
}

} // verus!
