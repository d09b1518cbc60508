//! The errors returned before an unsafe or lossy text conversion can be
//! committed.
use vstd::prelude::*;
use crate::encoding::TextEncoding;
use crate::glob::glob_error_pattern;
use crate::unicode::utf8_error_bytes;

verus! {

/// Error returned before an unsafe or lossy text conversion can be committed.
#[derive(Debug)]
pub enum TextEncodingError {
    /// The file is not valid UTF-8 under the selected policy.
    InvalidUtf8(std::string::FromUtf8Error),
    /// The file contains bytes undefined by Windows-1252.
    InvalidWindows1252,
    /// An edited character cannot be represented by the target encoding.
    UnrepresentableCharacter {
        /// Encoding selected for the file.
        encoding: TextEncoding,
        /// First character that cannot be represented.
        character: char,
        /// UTF-8 byte offset of that character in the edited string.
        byte_index: usize,
    },
    /// A configured path glob is invalid.
    InvalidGlob {
        /// Invalid glob pattern.
        pattern: String,
        /// Glob parser error.
        source: globset::Error,
    },
    /// Compiling a set of otherwise valid globs failed.
    BuildGlobSet(globset::Error),
    /// Rules must contain at least one glob.
    EmptyRule,
    /// Lossy replacement would risk silent source corruption.
    LossyModeUnsupported,
    /// Existing files must keep a recognizable encoding; turning that off is
    /// not supported.
    ExistingEncodingPreservationRequired,
}

/// What an error says: the bytes that were not UTF-8, the character and
/// offset that cannot be written, the glob that does not parse (and the glob
/// its parse error names).
pub enum TextEncodingFailure {
    InvalidUtf8 { bytes: Seq<u8> },
    InvalidWindows1252,
    UnrepresentableCharacter { encoding: TextEncoding, character: char, byte_index: nat },
    InvalidGlob { pattern: Seq<char>, source_pattern: Option<Seq<char>> },
    BuildGlobSet,
    EmptyRule,
    LossyModeUnsupported,
    ExistingEncodingPreservationRequired,
}

impl View for TextEncodingError {
    type V = TextEncodingFailure;

    open spec fn view(&self) -> TextEncodingFailure {
        match self {
            TextEncodingError::InvalidUtf8(source) =>
                TextEncodingFailure::InvalidUtf8 { bytes: utf8_error_bytes(*source) },
            TextEncodingError::InvalidWindows1252 => TextEncodingFailure::InvalidWindows1252,
            TextEncodingError::UnrepresentableCharacter { encoding, character, byte_index } =>
                TextEncodingFailure::UnrepresentableCharacter {
                    encoding: *encoding,
                    character: *character,
                    byte_index: *byte_index as nat,
                },
            TextEncodingError::InvalidGlob { pattern, source } =>
                TextEncodingFailure::InvalidGlob {
                    pattern: pattern@,
                    source_pattern: glob_error_pattern(*source),
                },
            TextEncodingError::BuildGlobSet(_) => TextEncodingFailure::BuildGlobSet,
            TextEncodingError::EmptyRule => TextEncodingFailure::EmptyRule,
            TextEncodingError::LossyModeUnsupported => TextEncodingFailure::LossyModeUnsupported,
            TextEncodingError::ExistingEncodingPreservationRequired =>
                TextEncodingFailure::ExistingEncodingPreservationRequired,
        }
    }
}

} // verus!
