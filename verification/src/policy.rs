//! The compiled project policy that selects an encoding per path and
//! decodes and encodes editable text files.
use vstd::prelude::*;
use vstd::utf8::{valid_utf8, is_ascii_chars};
use crate::codec::{
    DecodedText, decode_as, decode_utf8, encode_text, starts_with_utf8_bom, text_decoded_as,
    text_encoded_as,
};
use crate::config::{ConfigView, FileEncodingConfig, FileEncodingRule, RuleView};
use crate::encoding::TextEncoding;
use crate::error::{TextEncodingError, TextEncodingFailure};
use crate::glob::{
    add_glob, build_glob_set, builder_patterns, glob_parses, glob_set_builds, glob_set_is_match,
    new_glob_set_builder, set_patterns, glob_matches,
};
use crate::unicode::push_char;

verus! {

broadcast use vstd::string::group_string_axioms;

/// A rule whose globs have been compiled.
#[derive(Debug)]
struct CompiledRule {
    globs: globset::GlobSet,
    encoding: TextEncoding,
}

impl View for CompiledRule {
    type V = RuleView;

    closed spec fn view(&self) -> RuleView {
        RuleView { patterns: set_patterns(self.globs), encoding: self.encoding }
    }
}

/// Compiled project policy used to decode and encode editable text files.
#[derive(Debug)]
pub struct EncodingPolicy {
    default: TextEncoding,
    preserve_existing: bool,
    rules: Vec<CompiledRule>,
}

/// A policy as plain values: its default encoding, whether existing
/// encodings are preserved, and its rules in order.
pub struct PolicyView {
    pub default: TextEncoding,
    pub preserve_existing: bool,
    pub rules: Seq<RuleView>,
}

impl View for EncodingPolicy {
    type V = PolicyView;

    closed spec fn view(&self) -> PolicyView {
        PolicyView {
            default: self.default,
            preserve_existing: self.preserve_existing,
            rules: self.rules@.map_values(|r: CompiledRule| r@),
        }
    }
}

/// Some glob pattern of the rule matches the path.
pub open spec fn rule_matches(patterns: Seq<Seq<char>>, path: Seq<char>) -> bool {
    exists|i: int| 0 <= i < patterns.len() && #[trigger] glob_matches(patterns[i], path)
}

/// The encoding of the last rule that matches the path, or the default.
pub open spec fn encoding_selected(default: TextEncoding, rules: Seq<RuleView>, path: Seq<char>) -> TextEncoding
    decreases rules.len(),
{
    if rules.len() == 0 {
        default
    } else if rule_matches(rules.last().patterns, path) {
        rules.last().encoding
    } else {
        encoding_selected(default, rules.drop_last(), path)
    }
}

/// A path with each backslash replaced by a forward slash.
pub open spec fn normalized_path(path: Seq<char>) -> Seq<char> {
    path.map_values(|c: char| if c == '\\' { '/' } else { c })
}

/// The encoding a policy selects for a path.
pub open spec fn policy_encoding_for_path(policy: PolicyView, path: Seq<char>) -> TextEncoding {
    encoding_selected(policy.default, policy.rules, normalized_path(path))
}

/// The first glob pattern that does not parse.
pub open spec fn first_invalid_pattern(patterns: Seq<Seq<char>>) -> Option<Seq<char>>
    decreases patterns.len(),
{
    if patterns.len() == 0 {
        None
    } else {
        match first_invalid_pattern(patterns.drop_last()) {
            Some(p) => Some(p),
            None => if glob_parses(patterns.last()) {
                None
            } else {
                Some(patterns.last())
            },
        }
    }
}

/// Compiling one rule: it needs a glob, every glob must parse, and the set
/// must build.
pub open spec fn rule_compiled(rule: RuleView) -> Result<RuleView, TextEncodingFailure> {
    if rule.patterns.len() == 0 {
        Err(TextEncodingFailure::EmptyRule)
    } else {
        match first_invalid_pattern(rule.patterns) {
            Some(p) => Err(TextEncodingFailure::InvalidGlob { pattern: p, source_pattern: Some(p) }),
            None => if glob_set_builds(rule.patterns) {
                Ok(rule)
            } else {
                Err(TextEncodingFailure::BuildGlobSet)
            },
        }
    }
}

/// Compiling the rules in order; the first failure is reported.
pub open spec fn rules_compiled(rules: Seq<RuleView>) -> Result<Seq<RuleView>, TextEncodingFailure>
    decreases rules.len(),
{
    if rules.len() == 0 {
        Ok(Seq::empty())
    } else {
        match rules_compiled(rules.drop_last()) {
            Err(e) => Err(e),
            Ok(done) => match rule_compiled(rules.last()) {
                Err(e) => Err(e),
                Ok(r) => Ok(done.push(r)),
            },
        }
    }
}

/// Compiling a configuration: lossy mode and turning off preservation of
/// existing encodings are refused, then the rules are compiled.
pub open spec fn policy_compiled(config: ConfigView) -> Result<PolicyView, TextEncodingFailure> {
    if !config.strict {
        Err(TextEncodingFailure::LossyModeUnsupported)
    } else if !config.preserve_existing {
        Err(TextEncodingFailure::ExistingEncodingPreservationRequired)
    } else {
        match rules_compiled(config.rules) {
            Err(e) => Err(e),
            Ok(rules) => Ok(PolicyView { default: config.default, preserve_existing: config.preserve_existing, rules }),
        }
    }
}

/// Decoding with a known encoding, keeping no byte-order mark.
pub open spec fn decoded_with(bytes: Seq<u8>, encoding: TextEncoding) -> Result<(Seq<char>, TextEncoding, bool), TextEncodingFailure> {
    match text_decoded_as(bytes, encoding) {
        Ok(text) => Ok((text, encoding, false)),
        Err(e) => Err(e),
    }
}

/// What decoding an existing file gives: its text, the encoding to write it
/// back with, and whether a UTF-8 byte-order mark is kept.
///
/// A byte-order mark means UTF-8. Otherwise valid UTF-8 that is not ASCII
/// keeps UTF-8; ASCII takes the encoding the path rules select; anything
/// else is decoded with that encoding.
pub open spec fn existing_decoded(policy: PolicyView, path: Seq<char>, bytes: Seq<u8>) -> Result<(Seq<char>, TextEncoding, bool), TextEncodingFailure> {
    if starts_with_utf8_bom(bytes) {
        match text_decoded_as(bytes.skip(3), TextEncoding::Utf8) {
            Ok(text) => Ok((text, TextEncoding::Utf8, true)),
            Err(e) => Err(e),
        }
    } else {
        let configured = policy_encoding_for_path(policy, path);
        if !policy.preserve_existing {
            decoded_with(bytes, configured)
        } else if valid_utf8(bytes) {
            let text = vstd::utf8::decode_utf8(bytes);
            Ok((text, if is_ascii_chars(text) { configured } else { TextEncoding::Utf8 }, false))
        } else {
            decoded_with(bytes, configured)
        }
    }
}

/// An error on a prefix of the patterns is the error of the whole.
proof fn lemma_first_invalid_prefix(patterns: Seq<Seq<char>>, k: int)
    requires
        0 <= k <= patterns.len(),
        first_invalid_pattern(patterns.take(k)) is Some,
    ensures
        first_invalid_pattern(patterns) == first_invalid_pattern(patterns.take(k)),
    decreases patterns.len() - k,
{
    if k < patterns.len() {
        let next = patterns.take(k + 1);
        assert(next.drop_last() =~= patterns.take(k));
        lemma_first_invalid_prefix(patterns, k + 1);
    } else {
        assert(patterns.take(k) =~= patterns);
    }
}

/// An error on a prefix of the rules is the error of the whole.
proof fn lemma_rules_compiled_prefix(rules: Seq<RuleView>, k: int)
    requires
        0 <= k <= rules.len(),
        rules_compiled(rules.take(k)) is Err,
    ensures
        rules_compiled(rules) == rules_compiled(rules.take(k)),
    decreases rules.len() - k,
{
    if k < rules.len() {
        let next = rules.take(k + 1);
        assert(next.drop_last() =~= rules.take(k));
        lemma_rules_compiled_prefix(rules, k + 1);
    } else {
        assert(rules.take(k) =~= rules);
    }
}

impl CompiledRule {
    /// Builds the glob set of a rule; a rule needs at least one glob.
    fn compile(rule: &FileEncodingRule) -> (compiled: Result<CompiledRule, TextEncodingError>)
        ensures
            compiled is Ok <==> rule_compiled(rule@) is Ok,
            compiled matches Ok(c) ==> rule_compiled(rule@) == Ok::<RuleView, TextEncodingFailure>(c@),
            compiled matches Err(e) ==> rule_compiled(rule@) == Err::<RuleView, TextEncodingFailure>(e@),
    {
        let ghost patterns = rule@.patterns;
        if rule.globs.len() == 0 {
            return Err(TextEncodingError::EmptyRule);
        }
        let mut builder = new_glob_set_builder();
        let mut i: usize = 0;
        while i < rule.globs.len()
            invariant
                0 <= i <= rule.globs@.len(),
                patterns == rule@.patterns,
                patterns.len() == rule.globs@.len(),
                builder_patterns(builder) == patterns.take(i as int),
                first_invalid_pattern(patterns.take(i as int)) is None,
            decreases rule.globs@.len() - i,
        {
            let pattern = &rule.globs[i];
            assert(patterns[i as int] == pattern@);
            let ghost next = patterns.take(i + 1);
            assert(next.drop_last() =~= patterns.take(i as int));
            assert(next.last() == pattern@);
            match add_glob(&mut builder, pattern.as_str()) {
                Ok(()) => {},
                Err(source) => {
                    proof { lemma_first_invalid_prefix(patterns, i + 1); }
                    return Err(TextEncodingError::InvalidGlob { pattern: pattern.clone(), source });
                },
            }
            assert(builder_patterns(builder) =~= next);
            i = i + 1;
        }
        assert(patterns.take(patterns.len() as int) =~= patterns);
        let globs = match build_glob_set(&builder) {
            Ok(globs) => globs,
            Err(error) => return Err(TextEncodingError::BuildGlobSet(error)),
        };
        Ok(CompiledRule { globs, encoding: rule.encoding })
    }
}

impl Default for EncodingPolicy {
    /// UTF-8 for every path, existing encodings preserved.
    fn default() -> (policy: Self)
        ensures
            policy@.default == TextEncoding::Utf8,
            policy@.preserve_existing,
            policy@.rules == Seq::<RuleView>::empty(),
    {
        let policy = EncodingPolicy { default: TextEncoding::Utf8, preserve_existing: true, rules: Vec::new() };
        assert(policy@.rules =~= Seq::<RuleView>::empty());
        policy
    }
}

impl EncodingPolicy {
    /// Compiles path globs and validates a project configuration.
    pub fn compile(config: FileEncodingConfig) -> (policy: Result<Self, TextEncodingError>)
        ensures
            policy is Ok <==> policy_compiled(config@) is Ok,
            policy matches Ok(p) ==> policy_compiled(config@) == Ok::<PolicyView, TextEncodingFailure>(p@),
            policy matches Err(e) ==> policy_compiled(config@) == Err::<PolicyView, TextEncodingFailure>(e@),
    {
        if !config.strict {
            return Err(TextEncodingError::LossyModeUnsupported);
        }
        if !config.preserve_existing {
            return Err(TextEncodingError::ExistingEncodingPreservationRequired);
        }
        let ghost rules_view = config@.rules;
        let mut rules: Vec<CompiledRule> = Vec::new();
        assert(rules_view.take(0) =~= Seq::<RuleView>::empty());
        assert(rules@.map_values(|r: CompiledRule| r@) =~= Seq::<RuleView>::empty());
        let mut i: usize = 0;
        while i < config.rules.len()
            invariant
                0 <= i <= config.rules@.len(),
                rules_view == config@.rules,
                config.strict,
                config.preserve_existing,
                rules_view.len() == config.rules@.len(),
                rules_compiled(rules_view.take(i as int)) == Ok::<Seq<RuleView>, TextEncodingFailure>(
                    rules@.map_values(|r: CompiledRule| r@)),
            decreases config.rules@.len() - i,
        {
            let ghost next = rules_view.take(i + 1);
            assert(next.drop_last() =~= rules_view.take(i as int));
            assert(next.last() == config.rules@[i as int]@);
            match CompiledRule::compile(&config.rules[i]) {
                Ok(rule) => {
                    let ghost before = rules@;
                    rules.push(rule);
                    assert(rules@.map_values(|r: CompiledRule| r@)
                        =~= before.map_values(|r: CompiledRule| r@).push(rule@));
                },
                Err(error) => {
                    assert(rules_compiled(next) == Err::<Seq<RuleView>, TextEncodingFailure>(error@));
                    proof { lemma_rules_compiled_prefix(rules_view, i + 1); }
                    assert(rules_compiled(config@.rules) == Err::<Seq<RuleView>, TextEncodingFailure>(error@));
                    return Err(error);
                },
            }
            i = i + 1;
        }
        assert(rules_view.take(rules_view.len() as int) =~= rules_view);
        Ok(EncodingPolicy { default: config.default, preserve_existing: config.preserve_existing, rules })
    }

    /// Returns the encoding selected by the default and ordered glob rules:
    /// the last rule that matches the path (with backslashes read as forward
    /// slashes) wins.
    pub fn encoding_for_path(&self, path: &str) -> (encoding: TextEncoding)
        ensures
            encoding == policy_encoding_for_path(self@, path@),
    {
        let normalized = normalize_separators(path);
        let ghost rules_view = self@.rules;
        let ghost target = normalized@;
        let mut i: usize = self.rules.len();
        assert(rules_view.take(i as int) =~= rules_view);
        while i > 0
            invariant
                i <= self.rules@.len(),
                rules_view == self@.rules,
                rules_view.len() == self.rules@.len(),
                target == normalized@,
                target == normalized_path(path@),
                encoding_selected(self.default, rules_view, target)
                    == encoding_selected(self.default, rules_view.take(i as int), target),
            decreases i,
        {
            let rule = &self.rules[i - 1];
            let ghost prefix = rules_view.take(i as int);
            assert(prefix.last() == rule@);
            assert(prefix.drop_last() =~= rules_view.take(i - 1));
            if glob_set_is_match(&rule.globs, normalized.as_str()) {
                assert(set_patterns(rule.globs) == rule@.patterns);
                assert(rule_matches(prefix.last().patterns, target));
                return rule.encoding;
            }
            i = i - 1;
        }
        assert(rules_view.take(0) =~= Seq::<RuleView>::empty());
        self.default
    }

    /// Decodes an existing file and records the encoding to preserve on write.
    ///
    /// Valid non-ASCII UTF-8 and UTF-8 with BOM are recognizable and preserved.
    /// ASCII files are ambiguous, so their write encoding comes from path rules.
    /// A non-UTF-8 file must have a matching legacy rule or legacy default.
    pub fn decode_existing(&self, path: &str, bytes: &[u8]) -> (decoded: Result<DecodedText, TextEncodingError>)
        ensures
            decoded is Ok <==> existing_decoded(self@, path@, bytes@) is Ok,
            decoded matches Ok(d) ==> existing_decoded(self@, path@, bytes@)
                == Ok::<(Seq<char>, TextEncoding, bool), TextEncodingFailure>((d.content@, d.encoding, d.has_utf8_bom)),
            decoded matches Err(e) ==> existing_decoded(self@, path@, bytes@)
                == Err::<(Seq<char>, TextEncoding, bool), TextEncodingFailure>(e@),
    {
        if bytes.len() >= 3 && bytes[0] == 0xEF && bytes[1] == 0xBB && bytes[2] == 0xBF {
            let without_bom = vstd::slice::slice_subrange(bytes, 3, bytes.len());
            assert(without_bom@ =~= bytes@.skip(3));
            let content = decode_utf8(without_bom)?;
            return Ok(DecodedText { content, encoding: TextEncoding::Utf8, has_utf8_bom: true });
        }
        let configured = self.encoding_for_path(path);
        if !self.preserve_existing {
            return decode_as(bytes, configured, false);
        }
        match decode_utf8(bytes) {
            Ok(content) => {
                let encoding = if content.is_ascii() { configured } else { TextEncoding::Utf8 };
                Ok(DecodedText { content, encoding, has_utf8_bom: false })
            },
            Err(_) => decode_as(bytes, configured, false),
        }
    }

    /// Encodes a newly created file according to its path rule or the default.
    pub fn encode_new(&self, path: &str, content: &str) -> (encoded: Result<Vec<u8>, TextEncodingError>)
        ensures
            encoded is Ok <==> text_encoded_as(content@, policy_encoding_for_path(self@, path@), false) is Ok,
            encoded matches Ok(b) ==> text_encoded_as(content@, policy_encoding_for_path(self@, path@), false)
                == Ok::<Seq<u8>, TextEncodingFailure>(b@),
            encoded matches Err(e) ==> text_encoded_as(content@, policy_encoding_for_path(self@, path@), false)
                == Err::<Seq<u8>, TextEncodingFailure>(e@),
    {
        encode_text(content, self.encoding_for_path(path), false)
    }

    /// Encodes edited text using metadata returned by `decode_existing`.
    pub fn encode_existing(&self, decoded: &DecodedText, content: &str) -> (encoded: Result<Vec<u8>, TextEncodingError>)
        ensures
            encoded is Ok <==> text_encoded_as(content@, decoded.encoding, decoded.has_utf8_bom) is Ok,
            encoded matches Ok(b) ==> text_encoded_as(content@, decoded.encoding, decoded.has_utf8_bom)
                == Ok::<Seq<u8>, TextEncodingFailure>(b@),
            encoded matches Err(e) ==> text_encoded_as(content@, decoded.encoding, decoded.has_utf8_bom)
                == Err::<Seq<u8>, TextEncodingFailure>(e@),
    {
        encode_text(content, decoded.encoding, decoded.has_utf8_bom)
    }
}

/// The path with each backslash replaced by a forward slash.
fn normalize_separators(path: &str) -> (normalized: String)
    ensures
        normalized@ == normalized_path(path@),
{
    let ghost text = path@;
    let mut normalized = String::new();
    for c in it: path.chars()
        invariant
            it.seq() == text,
            text == path@,
            normalized@ == normalized_path(text.take(it.index())),
    {
        let ghost i = it.index();
        assert(c == text[i]);
        if c == '\\' {
            push_char(&mut normalized, '/');
        } else {
            push_char(&mut normalized, c);
        }
        assert(text.take(i + 1) == text.take(i).push(c));
        assert(normalized@ =~= normalized_path(text.take(i + 1)));
    }
    assert(text.take(text.len() as int) =~= text);
    normalized
}

} // verus!
