//! Strict decoding and encoding for editable project text files.
//!
//! Text is kept as Unicode while editing; the byte encoding selected for each
//! file is preserved at the filesystem boundary.

pub mod encoding;
pub mod windows1252;
pub mod unicode;
pub mod glob;
pub mod error;
pub mod codec;
pub mod config;
pub mod policy;
pub mod laws;
pub mod paths;
pub mod project;
pub mod project_laws;

pub use codec::{DecodedText, decode_utf8};
pub use config::{FileEncodingConfig, FileEncodingRule, default_true};
pub use encoding::TextEncoding;
pub use error::TextEncodingError;
pub use paths::{PathConvention, ProjectPath};
pub use policy::EncodingPolicy;
pub use project::{ConfigFileRead, ConfigFileStep, ConfigLoadError, ConfigResolution, ProjectEncodingPolicy};
pub use windows1252::{is_undefined_windows_1252_byte, is_undefined_windows_1252_character};
