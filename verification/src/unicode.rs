//! UTF-8 facts and the few `std` string calls the library makes.
use vstd::prelude::*;
use vstd::utf8::*;

verus! {

#[verifier::external_type_specification]
#[verifier::external_body]
pub struct ExFromUtf8Error(std::string::FromUtf8Error);

/// The bytes a `FromUtf8Error` holds (what its `as_bytes` returns).
pub uninterp spec fn utf8_error_bytes(error: std::string::FromUtf8Error) -> Seq<u8>;

/// `String::from_utf8`.
///
/// Claimed (std documentation): the call succeeds exactly when the bytes are
/// valid UTF-8, and the string then holds the characters they encode; on
/// failure the error holds the bytes that were attempted to convert.
#[verifier::external_body]
pub(crate) fn string_from_utf8(bytes: Vec<u8>) -> (text: Result<String, std::string::FromUtf8Error>)
    ensures
        text is Ok <==> valid_utf8(bytes@),
        text matches Ok(s) ==> s@ == decode_utf8(bytes@),
        text matches Err(e) ==> utf8_error_bytes(e) == bytes@,
{
    String::from_utf8(bytes)
}

/// `String::push`.
///
/// Claimed (std documentation): the character is appended to the string.
#[verifier::external_body]
pub(crate) fn push_char(text: &mut String, c: char)
    ensures
        final(text)@ == old(text)@.push(c),
{
    text.push(c)
}

/// The number of bytes of the UTF-8 encoding of a character.
pub fn utf8_width(c: char) -> (width: usize)
    ensures
        width == encode_scalar(c as u32).len(),
        1 <= width <= 4,
{
    let code = c as u32;
    proof {
        char_is_scalar(c);
    }
    if code < 0x80 {
        1
    } else if code < 0x800 {
        2
    } else if code < 0x10000 {
        3
    } else {
        4
    }
}

/// UTF-8 encoding distributes over concatenation.
pub proof fn lemma_encode_utf8_concat(a: Seq<char>, b: Seq<char>)
    ensures
        encode_utf8(a + b) == encode_utf8(a) + encode_utf8(b),
    decreases a.len(),
{
    if a.len() == 0 {
        assert(a + b =~= b);
    } else {
        assert((a + b).drop_first() =~= a.drop_first() + b);
        lemma_encode_utf8_concat(a.drop_first(), b);
    }
}

/// The UTF-8 encoding of a text prefix grows by one character's encoding.
pub proof fn lemma_encode_utf8_take(s: Seq<char>, i: int)
    requires
        0 <= i < s.len(),
    ensures
        encode_utf8(s.take(i + 1)) == encode_utf8(s.take(i)) + encode_scalar(s[i] as u32),
{
    assert(s.take(i + 1) =~= s.take(i) + seq![s[i]]);
    lemma_encode_utf8_concat(s.take(i), seq![s[i]]);
    let single = seq![s[i]];
    assert(single.drop_first() =~= Seq::<char>::empty());
    assert(encode_utf8(single) == encode_scalar(single[0] as u32) + encode_utf8(single.drop_first()));
    assert(encode_utf8(single) =~= encode_scalar(s[i] as u32));
}

/// The UTF-8 encoding of a prefix is no longer than that of the whole text.
pub proof fn lemma_encode_utf8_take_len(s: Seq<char>, i: int)
    requires
        0 <= i <= s.len(),
    ensures
        encode_utf8(s.take(i)).len() <= encode_utf8(s).len(),
{
    assert(s =~= s.take(i) + s.skip(i));
    lemma_encode_utf8_concat(s.take(i), s.skip(i));
}

} // verus!
