//! Decoding bytes in a given encoding and encoding text back into bytes.
use vstd::prelude::*;
use vstd::utf8::*;
use crate::encoding::TextEncoding;
use crate::error::{TextEncodingError, TextEncodingFailure};
use crate::unicode::{string_from_utf8, push_char, utf8_width, lemma_encode_utf8_take, lemma_encode_utf8_take_len};
use crate::windows1252::{
    windows_1252_byte, windows_1252_text,
    undefined_windows_1252_byte, undefined_windows_1252_character, is_undefined_windows_1252_byte,
    is_undefined_windows_1252_character, windows_1252_decode, windows_1252_encode,
};

verus! {

broadcast use vstd::string::group_string_axioms;

/// Text decoded for editing together with the metadata required to write it
/// without changing its byte encoding.
#[derive(Clone, Debug, PartialEq, Eq)]
pub struct DecodedText {
    /// Unicode text exposed to the editing pipeline.
    pub content: String,
    /// Encoding to use when the edited text is written.
    pub encoding: TextEncoding,
    /// Whether an existing UTF-8 byte-order mark must be retained.
    pub has_utf8_bom: bool,
}

/// The UTF-8 byte-order mark.
pub open spec fn utf8_bom() -> Seq<u8> {
    seq![0xEFu8, 0xBBu8, 0xBFu8]
}

/// The bytes begin with the UTF-8 byte-order mark.
pub open spec fn starts_with_utf8_bom(bytes: Seq<u8>) -> bool {
    bytes.len() >= 3 && bytes[0] == 0xEFu8 && bytes[1] == 0xBBu8 && bytes[2] == 0xBFu8
}

/// ISO-8859-1: each byte stands for the character of the same number.
pub open spec fn latin1_text(bytes: Seq<u8>) -> Seq<char> {
    bytes.map_values(|b: u8| b as char)
}

/// Some byte is one that Windows-1252 leaves undefined.
pub open spec fn has_undefined_windows_1252_byte(bytes: Seq<u8>) -> bool {
    exists|i: int| 0 <= i < bytes.len() && undefined_windows_1252_byte(#[trigger] bytes[i])
}

/// The text that `bytes` hold in `encoding`, or why they hold none.
pub open spec fn text_decoded_as(bytes: Seq<u8>, encoding: TextEncoding) -> Result<Seq<char>, TextEncodingFailure> {
    match encoding {
        TextEncoding::Utf8 => if valid_utf8(bytes) {
            Ok(vstd::utf8::decode_utf8(bytes))
        } else {
            Err(TextEncodingFailure::InvalidUtf8 { bytes })
        },
        TextEncoding::Iso8859_1 => Ok(latin1_text(bytes)),
        TextEncoding::Windows1252 => if has_undefined_windows_1252_byte(bytes) {
            Err(TextEncodingFailure::InvalidWindows1252)
        } else {
            Ok(windows_1252_text(bytes))
        },
    }
}

/// Whether a character can be written in an encoding. The C1 controls that
/// stand for undefined Windows-1252 bytes are refused.
pub open spec fn representable(c: char, encoding: TextEncoding) -> bool {
    match encoding {
        TextEncoding::Utf8 => true,
        TextEncoding::Iso8859_1 => (c as u32) <= 0xFF,
        TextEncoding::Windows1252 => !undefined_windows_1252_character(c) && windows_1252_byte(c) is Some,
    }
}

/// The single byte of a representable character in ISO-8859-1 or
/// Windows-1252.
pub open spec fn legacy_byte(c: char, encoding: TextEncoding) -> u8 {
    match encoding {
        TextEncoding::Windows1252 => windows_1252_byte(c).unwrap(),
        _ => (c as u32) as u8,
    }
}

/// Every character of the text can be written in the encoding.
pub open spec fn all_representable(text: Seq<char>, encoding: TextEncoding) -> bool {
    forall|i: int| 0 <= i < text.len() ==> representable(#[trigger] text[i], encoding)
}

/// `i` is the position of the first character that cannot be written.
pub open spec fn is_first_unrepresentable(text: Seq<char>, encoding: TextEncoding, i: int) -> bool {
    &&& 0 <= i < text.len()
    &&& !representable(text[i], encoding)
    &&& all_representable(text.take(i), encoding)
}

/// The position of the first character that cannot be written.
pub open spec fn first_unrepresentable(text: Seq<char>, encoding: TextEncoding) -> int {
    choose|i: int| is_first_unrepresentable(text, encoding, i)
}

/// The UTF-8 byte offset of position `i` of a text.
pub open spec fn utf8_offset(text: Seq<char>, i: int) -> nat {
    encode_utf8(text.take(i)).len()
}

/// The bytes that write `text` in `encoding` (with a byte-order mark first
/// when `has_utf8_bom` and the encoding is UTF-8), or the error that reports
/// the first character that cannot be written and its UTF-8 byte offset.
pub open spec fn text_encoded_as(text: Seq<char>, encoding: TextEncoding, has_utf8_bom: bool) -> Result<Seq<u8>, TextEncodingFailure> {
    match encoding {
        TextEncoding::Utf8 => Ok(
            if has_utf8_bom {
                utf8_bom() + encode_utf8(text)
            } else {
                encode_utf8(text)
            },
        ),
        _ => if all_representable(text, encoding) {
            Ok(text.map_values(|c: char| legacy_byte(c, encoding)))
        } else {
            let i = first_unrepresentable(text, encoding);
            Err(
                TextEncodingFailure::UnrepresentableCharacter {
                    encoding,
                    character: text[i],
                    byte_index: utf8_offset(text, i),
                },
            )
        },
    }
}

/// The first position is unique.
pub proof fn lemma_first_unrepresentable_unique(text: Seq<char>, encoding: TextEncoding, i: int)
    requires
        is_first_unrepresentable(text, encoding, i),
    ensures
        first_unrepresentable(text, encoding) == i,
        !all_representable(text, encoding),
{
    let j = first_unrepresentable(text, encoding);
    assert(is_first_unrepresentable(text, encoding, j));
    if j < i {
        assert(text.take(i)[j] == text[j]);
    } else if i < j {
        assert(text.take(j)[i] == text[i]);
    }
}

/// Decodes UTF-8 bytes into a string.
pub fn decode_utf8(bytes: &[u8]) -> (text: Result<String, TextEncodingError>)
    ensures
        text is Ok <==> valid_utf8(bytes@),
        text matches Ok(s) ==> s@ == vstd::utf8::decode_utf8(bytes@),
        text matches Err(e) ==> e@ == (TextEncodingFailure::InvalidUtf8 { bytes: bytes@ }),
{
    match string_from_utf8(vstd::slice::slice_to_vec(bytes)) {
        Ok(text) => Ok(text),
        Err(error) => Err(TextEncodingError::InvalidUtf8(error)),
    }
}

/// Whether some byte is undefined in Windows-1252.
fn contains_undefined_windows_1252_byte(bytes: &[u8]) -> (found: bool)
    ensures
        found == has_undefined_windows_1252_byte(bytes@),
{
    let mut i: usize = 0;
    while i < bytes.len()
        invariant
            0 <= i <= bytes@.len(),
            forall|j: int| 0 <= j < i ==> !undefined_windows_1252_byte(#[trigger] bytes@[j]),
        decreases bytes@.len() - i,
    {
        if is_undefined_windows_1252_byte(bytes[i]) {
            return true;
        }
        i = i + 1;
    }
    false
}

/// Each byte as the character of the same number.
fn latin1_decode(bytes: &[u8]) -> (text: String)
    ensures
        text@ == latin1_text(bytes@),
{
    let mut text = String::new();
    let mut i: usize = 0;
    while i < bytes.len()
        invariant
            0 <= i <= bytes@.len(),
            text@ == latin1_text(bytes@.take(i as int)),
        decreases bytes@.len() - i,
    {
        let byte = bytes[i];
        push_char(&mut text, byte as char);
        assert(bytes@.take(i + 1) == bytes@.take(i as int).push(byte));
        i = i + 1;
    }
    assert(bytes@.take(bytes@.len() as int) == bytes@);
    text
}

/// Decodes `bytes` as `encoding`, recording the encoding and byte-order mark
/// flag to write the text back with.
pub fn decode_as(bytes: &[u8], encoding: TextEncoding, has_utf8_bom: bool) -> (decoded: Result<DecodedText, TextEncodingError>)
    ensures
        decoded is Ok <==> text_decoded_as(bytes@, encoding) is Ok,
        decoded matches Ok(d) ==> text_decoded_as(bytes@, encoding) == Ok::<Seq<char>, TextEncodingFailure>(d.content@)
            && d.encoding == encoding && d.has_utf8_bom == has_utf8_bom,
        decoded matches Err(e) ==> text_decoded_as(bytes@, encoding) == Err::<Seq<char>, TextEncodingFailure>(e@),
{
    let content = match encoding {
        TextEncoding::Utf8 => decode_utf8(bytes)?,
        TextEncoding::Iso8859_1 => latin1_decode(bytes),
        TextEncoding::Windows1252 => {
            if contains_undefined_windows_1252_byte(bytes) {
                return Err(TextEncodingError::InvalidWindows1252);
            }
            let (decoded, had_errors) = windows_1252_decode(bytes);
            if had_errors {
                return Err(TextEncodingError::InvalidWindows1252);
            }
            decoded
        },
    };
    Ok(DecodedText { content, encoding, has_utf8_bom })
}

/// The UTF-8 byte offset and character of the first character of `content`
/// that Windows-1252 cannot write, if there is one.
pub fn first_unrepresentable_windows_1252(content: &str) -> (found: Option<(usize, char)>)
    ensures
        found is None <==> all_representable(content@, TextEncoding::Windows1252),
        found matches Some(p) ==> {
            let i = first_unrepresentable(content@, TextEncoding::Windows1252);
            &&& is_first_unrepresentable(content@, TextEncoding::Windows1252, i)
            &&& p.1 == content@[i]
            &&& p.0 == utf8_offset(content@, i)
        },
{
    let ghost text = content@;
    let total = content.as_bytes().len();
    let mut offset: usize = 0;
    for character in it: content.chars()
        invariant
            it.seq() == text,
            text == content@,
            total == encode_utf8(text).len(),
            offset == utf8_offset(text, it.index()),
            all_representable(text.take(it.index()), TextEncoding::Windows1252),
    {
        let ghost i = it.index();
        assert(character == text[i]);
        if is_undefined_windows_1252_character(character) {
            proof { lemma_first_unrepresentable_unique(text, TextEncoding::Windows1252, i); }
            return Some((offset, character));
        }
        let mut single = String::new();
        push_char(&mut single, character);
        let (_, had_errors) = windows_1252_encode(single.as_str());
        if had_errors {
            assert(single@[0] == character);
            proof { lemma_first_unrepresentable_unique(text, TextEncoding::Windows1252, i); }
            return Some((offset, character));
        }
        proof {
            assert(windows_1252_byte(single@[0]) is Some);
            lemma_encode_utf8_take(text, i);
            lemma_encode_utf8_take_len(text, i + 1);
            assert(text.take(i + 1) == text.take(i).push(character));
        }
        offset = offset + utf8_width(character);
    }
    assert(text.take(text.len() as int) =~= text);
    None
}

/// The UTF-8 bytes of `content`, after a byte-order mark when asked for.
fn utf8_encode(content: &str, has_utf8_bom: bool) -> (bytes: Vec<u8>)
    ensures
        bytes@ == (if has_utf8_bom { utf8_bom() + encode_utf8(content@) } else { encode_utf8(content@) }),
{
    let mut bytes: Vec<u8> = Vec::new();
    if has_utf8_bom {
        bytes.push(0xEF);
        bytes.push(0xBB);
        bytes.push(0xBF);
    }
    let ghost prefix = bytes@;
    let source = content.as_bytes();
    let mut i: usize = 0;
    while i < source.len()
        invariant
            0 <= i <= source@.len(),
            source@ == encode_utf8(content@),
            prefix == (if has_utf8_bom { utf8_bom() } else { Seq::<u8>::empty() }),
            bytes@ == prefix + source@.take(i as int),
        decreases source@.len() - i,
    {
        bytes.push(source[i]);
        assert(source@.take(i + 1) == source@.take(i as int).push(source@[i as int]));
        i = i + 1;
    }
    assert(source@.take(source@.len() as int) == source@);
    assert(prefix + source@ == (if has_utf8_bom { utf8_bom() + encode_utf8(content@) } else { encode_utf8(content@) }));
    bytes
}

/// The ISO-8859-1 bytes of `content`, or the first character above U+00FF
/// with its UTF-8 byte offset.
fn latin1_encode(content: &str) -> (encoded: Result<Vec<u8>, TextEncodingError>)
    ensures
        encoded is Ok <==> text_encoded_as(content@, TextEncoding::Iso8859_1, false) is Ok,
        encoded matches Ok(b) ==> text_encoded_as(content@, TextEncoding::Iso8859_1, false) == Ok::<Seq<u8>, TextEncodingFailure>(b@),
        encoded matches Err(e) ==> text_encoded_as(content@, TextEncoding::Iso8859_1, false) == Err::<Seq<u8>, TextEncodingFailure>(e@),
{
    let ghost text = content@;
    let total = content.as_bytes().len();
    let mut offset: usize = 0;
    let mut bytes: Vec<u8> = Vec::new();
    for character in it: content.chars()
        invariant
            it.seq() == text,
            text == content@,
            total == encode_utf8(text).len(),
            offset == utf8_offset(text, it.index()),
            all_representable(text.take(it.index()), TextEncoding::Iso8859_1),
            bytes@ == text.take(it.index()).map_values(|c: char| legacy_byte(c, TextEncoding::Iso8859_1)),
    {
        let ghost i = it.index();
        assert(character == text[i]);
        let code = character as u32;
        if code > 0xFF {
            assert(!representable(text[i], TextEncoding::Iso8859_1));
            proof { lemma_first_unrepresentable_unique(text, TextEncoding::Iso8859_1, i); }
            return Err(TextEncodingError::UnrepresentableCharacter {
                encoding: TextEncoding::Iso8859_1,
                character,
                byte_index: offset,
            });
        }
        bytes.push(code as u8);
        proof {
            lemma_encode_utf8_take(text, i);
            lemma_encode_utf8_take_len(text, i + 1);
            assert(text.take(i + 1) == text.take(i).push(character));
            assert(bytes@ =~= text.take(i + 1).map_values(|c: char| legacy_byte(c, TextEncoding::Iso8859_1)));
        }
        offset = offset + utf8_width(character);
    }
    assert(text.take(text.len() as int) =~= text);
    Ok(bytes)
}

/// Encodes `content` in `encoding`; with UTF-8, a byte-order mark is written
/// first when `has_utf8_bom` is set. The first character that the encoding
/// cannot write is reported with its UTF-8 byte offset.
pub fn encode_text(content: &str, encoding: TextEncoding, has_utf8_bom: bool) -> (encoded: Result<Vec<u8>, TextEncodingError>)
    ensures
        encoded is Ok <==> text_encoded_as(content@, encoding, has_utf8_bom) is Ok,
        encoded matches Ok(b) ==> text_encoded_as(content@, encoding, has_utf8_bom) == Ok::<Seq<u8>, TextEncodingFailure>(b@),
        encoded matches Err(e) ==> text_encoded_as(content@, encoding, has_utf8_bom) == Err::<Seq<u8>, TextEncodingFailure>(e@),
{
    match encoding {
        TextEncoding::Utf8 => Ok(utf8_encode(content, has_utf8_bom)),
        TextEncoding::Iso8859_1 => latin1_encode(content),
        TextEncoding::Windows1252 => {
            if let Some((byte_index, character)) = first_unrepresentable_windows_1252(content) {
                return Err(TextEncodingError::UnrepresentableCharacter { encoding, character, byte_index });
            }
            let (encoded, had_errors) = windows_1252_encode(content);
            if had_errors {
                return Err(TextEncodingError::UnrepresentableCharacter {
                    encoding,
                    character: '\u{FFFD}',
                    byte_index: 0,
                });
            }
            assert(encoded@ =~= content@.map_values(|c: char| legacy_byte(c, TextEncoding::Windows1252)));
            Ok(encoded)
        },
    }
}

} // verus!
