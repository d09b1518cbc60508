//! Project text encoding configuration.
use vstd::prelude::*;
use crate::encoding::TextEncoding;

verus! {

/// One path-based encoding rule.
#[derive(Clone, Debug, PartialEq, Eq)]
pub struct FileEncodingRule {
    /// Workspace-relative glob patterns. When multiple rules match, the last
    /// matching rule wins.
    pub globs: Vec<String>,
    /// Encoding selected for matching paths.
    pub encoding: TextEncoding,
}

/// A rule as glob pattern texts and the encoding they select.
pub struct RuleView {
    pub patterns: Seq<Seq<char>>,
    pub encoding: TextEncoding,
}

impl View for FileEncodingRule {
    type V = RuleView;

    open spec fn view(&self) -> RuleView {
        RuleView { patterns: self.globs@.map_values(|g: String| g@), encoding: self.encoding }
    }
}

/// Project text encoding configuration.
#[derive(Clone, Debug, PartialEq, Eq)]
pub struct FileEncodingConfig {
    /// Encoding used when no rule matches. Defaults to UTF-8.
    pub default: TextEncoding,
    /// Preserve a recognizable encoding for existing non-ASCII files.
    pub preserve_existing: bool,
    /// Reject unrepresentable characters rather than replacing them.
    /// Only strict mode is supported.
    pub strict: bool,
    /// Ordered path rules. The last matching rule wins.
    pub rules: Vec<FileEncodingRule>,
}

/// A configuration as plain values.
pub struct ConfigView {
    pub default: TextEncoding,
    pub preserve_existing: bool,
    pub strict: bool,
    pub rules: Seq<RuleView>,
}

impl View for FileEncodingConfig {
    type V = ConfigView;

    open spec fn view(&self) -> ConfigView {
        ConfigView {
            default: self.default,
            preserve_existing: self.preserve_existing,
            strict: self.strict,
            rules: self.rules@.map_values(|r: FileEncodingRule| r@),
        }
    }
}

impl Default for FileEncodingConfig {
    /// UTF-8 by default, existing encodings preserved, strict, no rules.
    fn default() -> (config: Self)
        ensures
            config@.default == TextEncoding::Utf8,
            config@.preserve_existing,
            config@.strict,
            config@.rules.len() == 0,
    {
        FileEncodingConfig {
            default: TextEncoding::Utf8,
            preserve_existing: true,
            strict: true,
            rules: Vec::new(),
        }
    }
}

/// The value that `preserve_existing` and `strict` take when a configuration
/// leaves them out.
pub fn default_true() -> (value: bool)
    ensures
        value,
{
    true
}

} // verus!
