//! The Windows-1252 code page: its byte table, and the calls into
//! `encoding_rs` that decode and encode it.
use vstd::prelude::*;

verus! {

/// The character that a Windows-1252 byte stands for, as the WHATWG
/// `index-windows-1252` table gives it: bytes below 0x80 and from 0xA0 are
/// the Latin-1 characters of the same number; the 32 bytes in between map as
/// listed (0x81, 0x8D, 0x8F, 0x90 and 0x9D map to the C1 controls of the same
/// number).
pub open spec fn windows_1252_char(byte: u8) -> char {
    if byte < 0x80 || byte >= 0xA0 {
        byte as char
    } else {
        let code: u32 = match byte {
            0x80u8 => 0x20ACu32,
            0x81u8 => 0x0081u32,
            0x82u8 => 0x201Au32,
            0x83u8 => 0x0192u32,
            0x84u8 => 0x201Eu32,
            0x85u8 => 0x2026u32,
            0x86u8 => 0x2020u32,
            0x87u8 => 0x2021u32,
            0x88u8 => 0x02C6u32,
            0x89u8 => 0x2030u32,
            0x8Au8 => 0x0160u32,
            0x8Bu8 => 0x2039u32,
            0x8Cu8 => 0x0152u32,
            0x8Du8 => 0x008Du32,
            0x8Eu8 => 0x017Du32,
            0x8Fu8 => 0x008Fu32,
            0x90u8 => 0x0090u32,
            0x91u8 => 0x2018u32,
            0x92u8 => 0x2019u32,
            0x93u8 => 0x201Cu32,
            0x94u8 => 0x201Du32,
            0x95u8 => 0x2022u32,
            0x96u8 => 0x2013u32,
            0x97u8 => 0x2014u32,
            0x98u8 => 0x02DCu32,
            0x99u8 => 0x2122u32,
            0x9Au8 => 0x0161u32,
            0x9Bu8 => 0x203Au32,
            0x9Cu8 => 0x0153u32,
            0x9Du8 => 0x009Du32,
            0x9Eu8 => 0x017Eu32,
            _ => 0x0178u32,
        };
        code as char
    }
}

/// The Windows-1252 byte of a character, if the table holds the character:
/// the inverse of [`windows_1252_char`].
pub open spec fn windows_1252_byte(c: char) -> Option<u8> {
    let code = c as u32;
    if code < 0x80 || (0xA0 <= code && code <= 0xFF) {
        Some(code as u8)
    } else {
        match code {
            0x20ACu32 => Some(0x80u8),
            0x0081u32 => Some(0x81u8),
            0x201Au32 => Some(0x82u8),
            0x0192u32 => Some(0x83u8),
            0x201Eu32 => Some(0x84u8),
            0x2026u32 => Some(0x85u8),
            0x2020u32 => Some(0x86u8),
            0x2021u32 => Some(0x87u8),
            0x02C6u32 => Some(0x88u8),
            0x2030u32 => Some(0x89u8),
            0x0160u32 => Some(0x8Au8),
            0x2039u32 => Some(0x8Bu8),
            0x0152u32 => Some(0x8Cu8),
            0x008Du32 => Some(0x8Du8),
            0x017Du32 => Some(0x8Eu8),
            0x008Fu32 => Some(0x8Fu8),
            0x0090u32 => Some(0x90u8),
            0x2018u32 => Some(0x91u8),
            0x2019u32 => Some(0x92u8),
            0x201Cu32 => Some(0x93u8),
            0x201Du32 => Some(0x94u8),
            0x2022u32 => Some(0x95u8),
            0x2013u32 => Some(0x96u8),
            0x2014u32 => Some(0x97u8),
            0x02DCu32 => Some(0x98u8),
            0x2122u32 => Some(0x99u8),
            0x0161u32 => Some(0x9Au8),
            0x203Au32 => Some(0x9Bu8),
            0x0153u32 => Some(0x9Cu8),
            0x009Du32 => Some(0x9Du8),
            0x017Eu32 => Some(0x9Eu8),
            0x0178u32 => Some(0x9Fu8),
            _ => None,
        }
    }
}

/// A byte that Windows-1252 leaves undefined (0x81, 0x8D, 0x8F, 0x90, 0x9D).
pub open spec fn undefined_windows_1252_byte(byte: u8) -> bool {
    byte == 0x81 || byte == 0x8D || byte == 0x8F || byte == 0x90 || byte == 0x9D
}

/// The C1 control character that stands for an undefined Windows-1252 byte.
pub open spec fn undefined_windows_1252_character(c: char) -> bool {
    let code = c as u32;
    code == 0x81 || code == 0x8D || code == 0x8F || code == 0x90 || code == 0x9D
}

/// The characters that a Windows-1252 byte sequence decodes to.
pub open spec fn windows_1252_text(bytes: Seq<u8>) -> Seq<char> {
    bytes.map_values(|b: u8| windows_1252_char(b))
}

/// The bytes of a text every character of which is in the Windows-1252 table.
pub open spec fn windows_1252_bytes(text: Seq<char>) -> Seq<u8> {
    text.map_values(|c: char| windows_1252_byte(c).unwrap())
}

/// Every character of the text is in the Windows-1252 table.
pub open spec fn windows_1252_encodable(text: Seq<char>) -> bool {
    forall|i: int| 0 <= i < text.len() ==> (#[trigger] windows_1252_byte(text[i])) is Some
}

/// Whether a byte is one of the five that Windows-1252 leaves undefined.
pub fn is_undefined_windows_1252_byte(byte: u8) -> (undefined: bool)
    ensures
        undefined == undefined_windows_1252_byte(byte),
{
    byte == 0x81 || byte == 0x8D || byte == 0x8F || byte == 0x90 || byte == 0x9D
}

/// Whether a character is one of the C1 controls that stand for the five
/// undefined Windows-1252 bytes.
pub fn is_undefined_windows_1252_character(character: char) -> (undefined: bool)
    ensures
        undefined == undefined_windows_1252_character(character),
{
    character == '\u{0081}' || character == '\u{008D}' || character == '\u{008F}'
        || character == '\u{0090}' || character == '\u{009D}'
}

/// `encoding_rs::WINDOWS_1252.decode_without_bom_handling`.
///
/// Claimed: every byte is decoded through the `windows_1252` table of
/// `encoding_rs` (data.rs), which is [`windows_1252_char`]; since that table
/// has no unmapped entry, the "had errors" flag is always false.
#[verifier::external_body]
pub(crate) fn windows_1252_decode(bytes: &[u8]) -> (decoded: (String, bool))
    ensures
        decoded.0@ == windows_1252_text(bytes@),
        !decoded.1,
{
    let (text, had_errors) = encoding_rs::WINDOWS_1252.decode_without_bom_handling(bytes);
    (text.into_owned(), had_errors)
}

/// `encoding_rs::WINDOWS_1252.encode`.
///
/// Claimed: the "had errors" flag is set exactly when some character is not in
/// the Windows-1252 table (such characters are written as HTML numeric
/// character references); when it is not set, each character is written as its
/// table byte. Nothing is claimed of the bytes when the flag is set.
#[verifier::external_body]
pub(crate) fn windows_1252_encode(text: &str) -> (encoded: (Vec<u8>, bool))
    ensures
        encoded.1 <==> !windows_1252_encodable(text@),
        !encoded.1 ==> encoded.0@ == windows_1252_bytes(text@),
{
    let (bytes, _, had_errors) = encoding_rs::WINDOWS_1252.encode(text);
    (bytes.into_owned(), had_errors)
}

/// Decoding a table byte and encoding the character back gives the byte.
pub proof fn lemma_windows_1252_byte_char(byte: u8)
    ensures
        windows_1252_byte(windows_1252_char(byte)) == Some(byte),
{
    if byte < 0x80 || byte >= 0xA0 {
        assert((byte as char) as u32 == byte as u32);
    }
}

/// A character in the table is what its table byte decodes to, and a character
/// whose byte is undefined is the C1 control that stands for that byte.
pub proof fn lemma_windows_1252_char_byte(c: char)
    requires
        windows_1252_byte(c) is Some,
    ensures
        windows_1252_char(windows_1252_byte(c).unwrap()) == c,
        undefined_windows_1252_byte(windows_1252_byte(c).unwrap()) ==> undefined_windows_1252_character(c),
{
    let code = c as u32;
    vstd::utf8::char_u32_cast(c, code);
    let b = windows_1252_byte(c).unwrap();
    if code < 0x80 || (0xA0 <= code && code <= 0xFF) {
        assert(b as u32 == code);
        assert((b as char) as u32 == code);
    }
}

} // verus!
