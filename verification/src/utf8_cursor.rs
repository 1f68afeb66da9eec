//! Facts about byte offsets that fall on character boundaries of a UTF-8
//! encoded text.
use vstd::prelude::*;
use vstd::utf8::*;

verus! {

/// The characters encoded by `bytes` from the byte offset `at` on.
pub open spec fn chars_from(bytes: Seq<u8>, at: int) -> Seq<char> {
    decode_utf8(bytes.subrange(at, bytes.len() as int))
}

/// A single character encodes to the bytes of its scalar value.
pub proof fn lemma_encode_single(c: char)
    ensures
        encode_utf8(seq![c]) == encode_scalar(c as u32),
        1 <= encode_utf8(seq![c]).len() <= 4,
{
    let s = seq![c];
    assert(s.drop_first() =~= Seq::<char>::empty());
    assert(encode_utf8(s.drop_first()) =~= Seq::<u8>::empty()) by {
        reveal_with_fuel(encode_utf8, 1);
    }
    assert(encode_utf8(s) =~= encode_scalar(c as u32)) by {
        reveal_with_fuel(encode_utf8, 2);
    }
}

/// At a character boundary before the end of valid UTF-8, a whole scalar
/// begins; the offset just past it is a character boundary again.
pub proof fn lemma_boundary_after_scalar(bytes: Seq<u8>, at: int)
    requires
        valid_utf8(bytes),
        is_char_boundary(bytes, at),
        0 <= at < bytes.len(),
    ensures
        valid_first_scalar(bytes.subrange(at, bytes.len() as int)),
        at + length_of_first_scalar(bytes.subrange(at, bytes.len() as int)) <= bytes.len(),
        is_char_boundary(
            bytes,
            at + length_of_first_scalar(bytes.subrange(at, bytes.len() as int)),
        ),
    decreases bytes.len(),
{
    reveal_with_fuel(is_char_boundary, 2);
    reveal_with_fuel(valid_utf8, 2);
    let tail = pop_first_scalar(bytes);
    let first_len = length_of_first_scalar(bytes);
    if at == 0 {
        assert(bytes.subrange(0, bytes.len() as int) =~= bytes);
    } else {
        lemma_boundary_after_scalar(tail, at - first_len);
        assert(tail.subrange(at - first_len, tail.len() as int) =~= bytes.subrange(
            at,
            bytes.len() as int,
        ));
    }
}

/// Stepping over the character at a boundary: the character read there
/// is the first of those that remain, its encoded width leads to the next
/// boundary, and what remains from there is the rest.
pub proof fn lemma_step_over_char(bytes: Seq<u8>, at: int)
    requires
        valid_utf8(bytes),
        is_char_boundary(bytes, at),
        0 <= at < bytes.len(),
    ensures
        chars_from(bytes, at).len() > 0,
        at + encode_utf8(seq![chars_from(bytes, at)[0]]).len() <= bytes.len(),
        is_char_boundary(bytes, at + encode_utf8(seq![chars_from(bytes, at)[0]]).len()),
        chars_from(bytes, at + encode_utf8(seq![chars_from(bytes, at)[0]]).len())
            == chars_from(bytes, at).drop_first(),
{
    let suffix = bytes.subrange(at, bytes.len() as int);
    lemma_boundary_after_scalar(bytes, at);
    valid_utf8_split(bytes, at);
    let first = decode_first_scalar(suffix) as char;
    let rest = pop_first_scalar(suffix);
    assert(chars_from(bytes, at) == seq![first] + decode_utf8(rest));
    decode_utf8_first_scalar(suffix);
    lemma_encode_single(first);
    let width = length_of_first_scalar(suffix);
    assert(rest =~= bytes.subrange(at + width, bytes.len() as int));
    assert(chars_from(bytes, at).drop_first() =~= decode_utf8(rest));
}

/// Nothing remains exactly at the end of the bytes.
pub proof fn lemma_chars_from_empty_iff_end(bytes: Seq<u8>, at: int)
    requires
        valid_utf8(bytes),
        is_char_boundary(bytes, at),
        0 <= at <= bytes.len(),
    ensures
        chars_from(bytes, at).len() == 0 <==> at == bytes.len(),
{
    valid_utf8_split(bytes, at);
    let suffix = bytes.subrange(at, bytes.len() as int);
    if at < bytes.len() {
        assert(chars_from(bytes, at) == seq![decode_first_scalar(suffix) as char] + decode_utf8(
            pop_first_scalar(suffix),
        ));
    }
}

} // verus!
