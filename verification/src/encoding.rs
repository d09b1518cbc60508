use vstd::prelude::*;

verus! {

/// A text encoding supported for editable project files.
#[derive(Clone, Copy, Debug, PartialEq, Eq, Structural)]
pub enum TextEncoding {
    /// Unicode UTF-8.
    Utf8,
    /// ISO-8859-1 (Latin-1), interpreted strictly as Unicode U+0000..U+00FF.
    Iso8859_1,
    /// Microsoft Windows code page 1252.
    Windows1252,
}

/// The human-readable label of an encoding.
pub open spec fn encoding_label(encoding: TextEncoding) -> Seq<char> {
    match encoding {
        TextEncoding::Utf8 => "UTF-8"@,
        TextEncoding::Iso8859_1 => "ISO-8859-1"@,
        TextEncoding::Windows1252 => "Windows-1252"@,
    }
}

impl TextEncoding {
    /// Returns the display label of the encoding ("UTF-8", "ISO-8859-1",
    /// "Windows-1252").
    pub fn label(&self) -> (label: &'static str)
        ensures
            label@ == encoding_label(*self),
    {
        match self {
            TextEncoding::Utf8 => "UTF-8",
            TextEncoding::Iso8859_1 => "ISO-8859-1",
            TextEncoding::Windows1252 => "Windows-1252",
        }
    }
}

impl Default for TextEncoding {
    fn default() -> (encoding: Self)
        ensures
            encoding == TextEncoding::Utf8,
    {
        TextEncoding::Utf8
    }
}

} // verus!
