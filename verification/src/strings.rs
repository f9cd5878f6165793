//! Strings as bytes: how the UTF-8 encoding of a character sequence
//! relates to the encodings of its parts, and the string operations that
//! go by byte offsets.

use vstd::prelude::*;
use vstd::utf8::*;
use vstd::string::*;

verus! {

/// The number of bytes that the first `chars` characters of `text` take in
/// UTF-8.
pub open spec fn byte_offset(text: Seq<char>, chars: int) -> nat {
    encode_utf8(text.take(chars)).len()
}

/// The encoding of a concatenation is the concatenation of the encodings.
pub proof fn lemma_encode_concat(a: Seq<char>, b: Seq<char>)
    ensures
        encode_utf8(a + b) == encode_utf8(a) + encode_utf8(b),
    decreases a.len(),
{
    if a.len() > 0 {
        lemma_encode_concat(a.drop_first(), b);
        assert((a + b).drop_first() =~= a.drop_first() + b);
    }
}

/// Byte offsets grow with character offsets, by the bytes of the
/// characters in between.
pub proof fn lemma_byte_offset_step(text: Seq<char>, from: int, to: int)
    requires
        0 <= from <= to <= text.len(),
    ensures
        byte_offset(text, to) == byte_offset(text, from) + encode_utf8(
            text.subrange(from, to),
        ).len(),
        byte_offset(text, from) <= byte_offset(text, to),
{
    assert(text.take(to) =~= text.take(from) + text.subrange(from, to));
    lemma_encode_concat(text.take(from), text.subrange(from, to));
}

/// The byte offset of the end of the text is the length of its encoding.
pub proof fn lemma_byte_offset_end(text: Seq<char>)
    ensures
        byte_offset(text, text.len() as int) == encode_utf8(text).len(),
{
    assert(text.take(text.len() as int) =~= text);
}

/// The byte offset of every character offset is a character boundary of
/// the encoded text.
pub proof fn lemma_byte_offset_is_char_boundary(text: Seq<char>, chars: int)
    requires
        0 <= chars <= text.len(),
    ensures
        is_char_boundary(encode_utf8(text), byte_offset(text, chars) as int),
    decreases chars,
{
    let bytes = encode_utf8(text);
    encode_utf8_valid_utf8(text);
    if chars > 0 {
        let rest = text.drop_first();
        encode_utf8_first_scalar(text);
        assert(pop_first_scalar(bytes) =~= encode_utf8(rest));
        lemma_byte_offset_is_char_boundary(rest, chars - 1);
        assert(text.take(chars).drop_first() =~= rest.take(chars - 1));
    }
}

/// Two character sequences with the same encoding are the same.
pub proof fn lemma_encode_injective(a: Seq<char>, b: Seq<char>)
    requires
        encode_utf8(a) == encode_utf8(b),
    ensures
        a == b,
{
    encode_utf8_decode_utf8(a);
    encode_utf8_decode_utf8(b);
}

/// An empty string with room for `capacity` bytes, as far as the machine
/// provides it.
pub(crate) fn string_with_room(capacity: usize) -> (ret: String)
    ensures
        ret@ == Seq::<char>::empty(),
{
    let mut ret = String::new();
    let _ = ret.try_reserve(capacity);
    ret
}

/// The length of `s` in bytes.
pub(crate) fn byte_len(s: &str) -> (len: usize)
    ensures
        len == encode_utf8(s@).len(),
{
    s.as_bytes().len()
}

/// Splits `s` in front of its character number `chars`, which starts at
/// byte `mid`.
pub(crate) fn split_chars<'a>(s: &'a str, mid: usize, Ghost(chars): Ghost<int>) -> (parts: (
    &'a str,
    &'a str,
))
    requires
        0 <= chars <= s@.len(),
        mid == byte_offset(s@, chars),
    ensures
        parts.0@ == s@.take(chars),
        parts.1@ == s@.skip(chars),
{
    proof {
        lemma_byte_offset_is_char_boundary(s@, chars);
    }
    let parts = s.split_at(mid);
    proof {
        let bytes = encode_utf8(s@);
        assert(s@ =~= s@.take(chars) + s@.skip(chars));
        lemma_encode_concat(s@.take(chars), s@.skip(chars));
        assert(bytes.subrange(0, mid as int) =~= encode_utf8(s@.take(chars)));
        assert(bytes.subrange(mid as int, bytes.len() as int) =~= encode_utf8(s@.skip(chars)));
        lemma_encode_injective(parts.0@, s@.take(chars));
        lemma_encode_injective(parts.1@, s@.skip(chars));
    }
    parts
}

} // verus!
