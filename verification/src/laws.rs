//! Properties that relate decoding and encoding.
use vstd::prelude::*;
use vstd::utf8::*;
use crate::codec::{
    all_representable, first_unrepresentable, is_first_unrepresentable, utf8_offset, latin1_text, legacy_byte, representable, starts_with_utf8_bom,
    text_decoded_as, text_encoded_as, utf8_bom, has_undefined_windows_1252_byte,
};
use crate::encoding::TextEncoding;
use crate::error::TextEncodingFailure;
use crate::policy::{
    existing_decoded, policy_encoding_for_path, PolicyView, encoding_selected, normalized_path, rule_matches,
    policy_compiled, rules_compiled, rule_compiled,
};
use crate::config::ConfigView;
use crate::config::RuleView;
use crate::glob::glob_matches;
use crate::windows1252::{
    lemma_windows_1252_byte_char, lemma_windows_1252_char_byte, undefined_windows_1252_byte,
    windows_1252_char, windows_1252_text,
};

verus! {

broadcast use {encode_utf8_decode_utf8, decode_utf8_encode_utf8, encode_utf8_valid_utf8};

/// ASCII text can be written in every encoding, and its bytes are the same in
/// all of them: its UTF-8 bytes.
pub proof fn law_ascii_is_encoding_independent(text: Seq<char>, encoding: TextEncoding)
    requires
        is_ascii_chars(text),
    ensures
        text_encoded_as(text, encoding, false) == Ok::<Seq<u8>, TextEncodingFailure>(encode_utf8(text)),
{
    is_ascii_chars_encode_utf8(text);
    if encoding != TextEncoding::Utf8 {
        assert forall|i: int| 0 <= i < text.len() implies representable(#[trigger] text[i], encoding) by {
            assert('\0' <= text[i] <= '\u{7f}');
        }
        assert(text.map_values(|c: char| legacy_byte(c, encoding)) =~= encode_utf8(text));
    }
}

/// Bytes that decode in an encoding are written back unchanged by the same
/// encoding (without a byte-order mark).
pub proof fn law_decoded_bytes_encode_back(bytes: Seq<u8>, encoding: TextEncoding)
    requires
        text_decoded_as(bytes, encoding) is Ok,
    ensures
        text_encoded_as(text_decoded_as(bytes, encoding)->Ok_0, encoding, false)
            == Ok::<Seq<u8>, TextEncodingFailure>(bytes),
{
    let text = text_decoded_as(bytes, encoding)->Ok_0;
    match encoding {
        TextEncoding::Utf8 => {},
        TextEncoding::Iso8859_1 => {
            assert forall|i: int| 0 <= i < text.len() implies representable(#[trigger] text[i], encoding) by {
                assert((bytes[i] as char) as u32 == bytes[i] as u32);
            }
            assert forall|i: int| 0 <= i < bytes.len() implies
                #[trigger] legacy_byte(text[i], encoding) == bytes[i] by {
                assert((bytes[i] as char) as u32 == bytes[i] as u32);
            }
            assert(text.map_values(|c: char| legacy_byte(c, encoding)) =~= bytes);
        },
        TextEncoding::Windows1252 => {
            assert(!has_undefined_windows_1252_byte(bytes));
            assert forall|i: int| 0 <= i < text.len() implies representable(#[trigger] text[i], encoding) by {
                let b = bytes[i];
                assert(!undefined_windows_1252_byte(b));
                lemma_windows_1252_byte_char(b);
                if b < 0x80 || b >= 0xA0 {
                    assert((b as char) as u32 == b as u32);
                }
            }
            assert forall|i: int| 0 <= i < bytes.len() implies
                #[trigger] legacy_byte(text[i], encoding) == bytes[i] by {
                lemma_windows_1252_byte_char(bytes[i]);
            }
            assert(text.map_values(|c: char| legacy_byte(c, encoding)) =~= bytes);
        },
    }
}

/// Writing back, unchanged, the text that was read from an existing file
/// gives back exactly the file's bytes: the encoding and byte-order mark
/// recorded on decoding preserve the file.
pub proof fn law_unchanged_text_round_trips(policy: PolicyView, path: Seq<char>, bytes: Seq<u8>)
    requires
        existing_decoded(policy, path, bytes) is Ok,
    ensures
        ({
            let (text, encoding, has_utf8_bom) = existing_decoded(policy, path, bytes)->Ok_0;
            text_encoded_as(text, encoding, has_utf8_bom) == Ok::<Seq<u8>, TextEncodingFailure>(bytes)
        }),
{
    if starts_with_utf8_bom(bytes) {
        let rest = bytes.skip(3);
        assert(utf8_bom() + rest =~= bytes);
    } else {
        let configured = policy_encoding_for_path(policy, path);
        if !policy.preserve_existing {
            law_decoded_bytes_encode_back(bytes, configured);
        } else if valid_utf8(bytes) {
            let text = decode_utf8(bytes);
            if is_ascii_chars(text) {
                law_ascii_is_encoding_independent(text, configured);
            }
        } else {
            law_decoded_bytes_encode_back(bytes, configured);
        }
    }
}

/// The bytes an encoding writes decode, in that encoding, to the text that was
/// written (after the byte-order mark, when one was written).
pub proof fn law_encoded_text_decodes_back(text: Seq<char>, encoding: TextEncoding, has_utf8_bom: bool)
    requires
        text_encoded_as(text, encoding, has_utf8_bom) is Ok,
    ensures
        ({
            let bytes = text_encoded_as(text, encoding, has_utf8_bom)->Ok_0;
            let body = if encoding == TextEncoding::Utf8 && has_utf8_bom { bytes.skip(3) } else { bytes };
            text_decoded_as(body, encoding) == Ok::<Seq<char>, TextEncodingFailure>(text)
        }),
{
    let bytes = text_encoded_as(text, encoding, has_utf8_bom)->Ok_0;
    match encoding {
        TextEncoding::Utf8 => {
            if has_utf8_bom {
                assert(bytes.skip(3) =~= encode_utf8(text));
            }
        },
        TextEncoding::Iso8859_1 => {
            assert(all_representable(text, encoding));
            assert forall|i: int| 0 <= i < text.len() implies #[trigger] (bytes[i] as char) == text[i] by {
                assert(representable(text[i], encoding));
                let code = text[i] as u32;
                char_u32_cast(text[i], code);
                assert(bytes[i] == code as u8);
                assert(bytes[i] as u32 == code);
            }
            assert(latin1_text(bytes) =~= text);
        },
        TextEncoding::Windows1252 => {
            assert(all_representable(text, encoding));
            assert forall|i: int| 0 <= i < bytes.len() implies !undefined_windows_1252_byte(#[trigger] bytes[i]) by {
                assert(representable(text[i], encoding));
                lemma_windows_1252_char_byte(text[i]);
            }
            assert forall|i: int| 0 <= i < text.len() implies #[trigger] windows_1252_char(bytes[i]) == text[i] by {
                assert(representable(text[i], encoding));
                lemma_windows_1252_char_byte(text[i]);
            }
            assert(!has_undefined_windows_1252_byte(bytes));
            assert(windows_1252_text(bytes) =~= text);
        },
    }
}

/// Selection over the rules from the back: when no rule at or after `k`
/// matches, the rules before `k` decide.
proof fn lemma_selected_prefix(default: TextEncoding, rules: Seq<RuleView>, path: Seq<char>, k: int)
    requires
        0 <= k <= rules.len(),
        forall|j: int| k <= j < rules.len() ==> !rule_matches(#[trigger] rules[j].patterns, path),
    ensures
        encoding_selected(default, rules, path) == encoding_selected(default, rules.take(k), path),
    decreases rules.len() - k,
{
    if k < rules.len() {
        lemma_selected_prefix(default, rules, path, k + 1);
        let next = rules.take(k + 1);
        assert(next.drop_last() =~= rules.take(k));
        assert(next.last() == rules[k]);
    } else {
        assert(rules.take(k) =~= rules);
    }
}

/// When several rules match a path, the last matching rule wins.
pub proof fn law_last_matching_rule_wins(policy: PolicyView, path: Seq<char>, k: int)
    requires
        0 <= k < policy.rules.len(),
        rule_matches(policy.rules[k].patterns, normalized_path(path)),
        forall|j: int| k < j < policy.rules.len() ==> !rule_matches(#[trigger] policy.rules[j].patterns, normalized_path(path)),
    ensures
        policy_encoding_for_path(policy, path) == policy.rules[k].encoding,
{
    let target = normalized_path(path);
    lemma_selected_prefix(policy.default, policy.rules, target, k + 1);
    let prefix = policy.rules.take(k + 1);
    assert(prefix.last() == policy.rules[k]);
}

/// When no rule matches a path, the policy's default encoding is used.
pub proof fn law_no_matching_rule_selects_default(policy: PolicyView, path: Seq<char>)
    requires
        forall|j: int| 0 <= j < policy.rules.len() ==> !rule_matches(#[trigger] policy.rules[j].patterns, normalized_path(path)),
    ensures
        policy_encoding_for_path(policy, path) == policy.default,
{
    let target = normalized_path(path);
    lemma_selected_prefix(policy.default, policy.rules, target, 0);
    assert(policy.rules.take(0) =~= Seq::<RuleView>::empty());
}

/// Valid UTF-8 that is not ASCII is recognizable: it is read as UTF-8 and
/// kept in UTF-8, whatever encoding the path rules select.
pub proof fn law_recognizable_utf8_is_preserved(policy: PolicyView, path: Seq<char>, bytes: Seq<u8>)
    requires
        policy.preserve_existing,
        !starts_with_utf8_bom(bytes),
        valid_utf8(bytes),
        !is_ascii_chars(decode_utf8(bytes)),
    ensures
        existing_decoded(policy, path, bytes)
            == Ok::<(Seq<char>, TextEncoding, bool), TextEncodingFailure>((decode_utf8(bytes), TextEncoding::Utf8, false)),
{
}

/// A UTF-8 byte-order mark is recognizable: the rest is read as UTF-8 and the
/// mark is kept for writing.
pub proof fn law_utf8_bom_is_preserved(policy: PolicyView, path: Seq<char>, bytes: Seq<u8>)
    requires
        starts_with_utf8_bom(bytes),
        valid_utf8(bytes.skip(3)),
    ensures
        existing_decoded(policy, path, bytes)
            == Ok::<(Seq<char>, TextEncoding, bool), TextEncodingFailure>((decode_utf8(bytes.skip(3)), TextEncoding::Utf8, true)),
{
}

/// ASCII files are ambiguous: their text is the bytes' text and their write
/// encoding is the one the path rules select.
pub proof fn law_ascii_files_take_the_path_encoding(policy: PolicyView, path: Seq<char>, bytes: Seq<u8>)
    requires
        policy.preserve_existing,
        !starts_with_utf8_bom(bytes),
        valid_utf8(bytes),
        is_ascii_chars(decode_utf8(bytes)),
    ensures
        existing_decoded(policy, path, bytes) == Ok::<(Seq<char>, TextEncoding, bool), TextEncodingFailure>(
            (decode_utf8(bytes), policy_encoding_for_path(policy, path), false)),
{
}

/// A file that is not UTF-8 is never guessed to be in a legacy encoding: where
/// the path rules select UTF-8 it is refused as invalid UTF-8.
pub proof fn law_non_utf8_needs_a_legacy_encoding(policy: PolicyView, path: Seq<char>, bytes: Seq<u8>)
    requires
        !starts_with_utf8_bom(bytes),
        !valid_utf8(bytes),
        policy_encoding_for_path(policy, path) == TextEncoding::Utf8,
    ensures
        existing_decoded(policy, path, bytes)
            == Err::<(Seq<char>, TextEncoding, bool), TextEncodingFailure>(
                TextEncodingFailure::InvalidUtf8 { bytes }),
{
}

/// Writing fails exactly when some character cannot be written in the
/// encoding, and the error names the first such character; nothing is ever
/// replaced.
pub proof fn law_strict_encoding(text: Seq<char>, encoding: TextEncoding, has_utf8_bom: bool)
    ensures
        text_encoded_as(text, encoding, has_utf8_bom) is Ok <==> all_representable(text, encoding),
        encoding != TextEncoding::Utf8 ==> (text_encoded_as(text, encoding, has_utf8_bom) matches Ok(bytes)
            ==> bytes.len() == text.len()),
        text_encoded_as(text, encoding, has_utf8_bom) is Err ==> ({
            let i = first_unrepresentable(text, encoding);
            &&& is_first_unrepresentable(text, encoding, i)
            &&& text_encoded_as(text, encoding, has_utf8_bom) == Err::<Seq<u8>, TextEncodingFailure>(
                TextEncodingFailure::UnrepresentableCharacter {
                    encoding,
                    character: text[i],
                    byte_index: utf8_offset(text, i),
                })
        }),
{
    if !all_representable(text, encoding) {
        let j = choose|j: int| 0 <= j < text.len() && !representable(#[trigger] text[j], encoding);
        lemma_first_exists(text, encoding, j);
    }
}

/// When some character cannot be written, a first one exists.
proof fn lemma_first_exists(text: Seq<char>, encoding: TextEncoding, j: int)
    requires
        0 <= j < text.len(),
        !representable(text[j], encoding),
    ensures
        is_first_unrepresentable(text, encoding, first_unrepresentable(text, encoding)),
    decreases j,
{
    if all_representable(text.take(j), encoding) {
        assert(is_first_unrepresentable(text, encoding, j));
    } else {
        let k = choose|k: int| 0 <= k < j && !representable(#[trigger] text.take(j)[k], encoding);
        assert(text.take(j)[k] == text[k]);
        lemma_first_exists(text, encoding, k);
    }
}

/// Compiling rules that all compile gives back each rule as configured.
proof fn lemma_rules_compiled_keeps_rules(rules: Seq<RuleView>)
    requires
        rules_compiled(rules) is Ok,
    ensures
        rules_compiled(rules)->Ok_0 == rules,
    decreases rules.len(),
{
    if rules.len() > 0 {
        lemma_rules_compiled_keeps_rules(rules.drop_last());
        assert(rule_compiled(rules.last()) == Ok::<RuleView, TextEncodingFailure>(rules.last()));
        assert(rules.drop_last().push(rules.last()) =~= rules);
    }
}

/// Compiling a configuration keeps its default and every rule: the same
/// glob patterns, in the same order, with the same encodings. So a compiled
/// rule matches a path whenever any of its configured globs does.
pub proof fn law_compiling_keeps_every_rule_and_glob(config: ConfigView)
    requires
        policy_compiled(config) is Ok,
    ensures
        policy_compiled(config)->Ok_0.default == config.default,
        policy_compiled(config)->Ok_0.rules == config.rules,
        forall|k: int, j: int, path: Seq<char>|
            0 <= k < config.rules.len() && 0 <= j < config.rules[k].patterns.len()
                && #[trigger] glob_matches(config.rules[k].patterns[j], path)
                ==> rule_matches(policy_compiled(config)->Ok_0.rules[k].patterns, path),
{
    lemma_rules_compiled_keeps_rules(config.rules);
}

/// Reading a path for matching only turns backslashes into forward slashes:
/// the length is kept, every other character is kept in place, and a path
/// without backslashes is matched as written.
pub proof fn law_normalization_only_replaces_backslashes(path: Seq<char>)
    ensures
        normalized_path(path).len() == path.len(),
        forall|i: int| 0 <= i < path.len() && path[i] == '\\' ==> #[trigger] normalized_path(path)[i] == '/',
        forall|i: int| 0 <= i < path.len() && path[i] != '\\' ==> #[trigger] normalized_path(path)[i] == path[i],
        (forall|i: int| 0 <= i < path.len() ==> path[i] != '\\') ==> normalized_path(path) == path,
{
    if forall|i: int| 0 <= i < path.len() ==> path[i] != '\\' {
        assert(normalized_path(path) =~= path);
    }
}

/// A path without backslashes selects the encoding of the last rule that
/// matches it exactly as written, else the default.
pub proof fn law_paths_without_backslashes_match_as_written(policy: PolicyView, path: Seq<char>)
    requires
        forall|i: int| 0 <= i < path.len() ==> path[i] != '\\',
    ensures
        policy_encoding_for_path(policy, path) == encoding_selected(policy.default, policy.rules, path),
{
    law_normalization_only_replaces_backslashes(path);
}

} // verus!
