use codex_text_encoding::decode_utf8;
use codex_text_encoding::default_true;
use codex_text_encoding::is_undefined_windows_1252_byte;
use codex_text_encoding::is_undefined_windows_1252_character;
use codex_text_encoding::EncodingPolicy;
use codex_text_encoding::FileEncodingConfig;
use codex_text_encoding::FileEncodingRule;
use codex_text_encoding::TextEncoding;
use codex_text_encoding::TextEncodingError;

fn policy_with_default(default: TextEncoding) -> EncodingPolicy {
    EncodingPolicy::compile(FileEncodingConfig {
        default,
        ..Default::default()
    })
    .expect("valid policy")
}

#[test]
fn labels_and_default_encoding() {
    assert_eq!(TextEncoding::Utf8.label(), "UTF-8");
    assert_eq!(TextEncoding::Iso8859_1.label(), "ISO-8859-1");
    assert_eq!(TextEncoding::Windows1252.label(), "Windows-1252");
    assert_eq!(TextEncoding::default(), TextEncoding::Utf8);
    assert!(default_true());
}

#[test]
fn default_configuration_is_strict_utf8_preserving() {
    let config = FileEncodingConfig::default();
    assert_eq!(config.default, TextEncoding::Utf8);
    assert!(config.preserve_existing);
    assert!(config.strict);
    assert!(config.rules.is_empty());
}

#[test]
fn undefined_windows_1252_bytes_and_characters() {
    for byte in [0x81u8, 0x8D, 0x8F, 0x90, 0x9D] {
        assert!(is_undefined_windows_1252_byte(byte));
        assert!(is_undefined_windows_1252_character(char::from(byte)));
    }
    for byte in [0x00u8, 0x41, 0x80, 0x8E, 0x9F, 0xA0, 0xFF] {
        assert!(!is_undefined_windows_1252_byte(byte));
        assert!(!is_undefined_windows_1252_character(char::from(byte)));
    }
    assert!(!is_undefined_windows_1252_character('\u{2014}'));
}

#[test]
fn decode_utf8_accepts_valid_and_rejects_invalid_bytes() {
    assert_eq!(decode_utf8("João ✅".as_bytes()).expect("valid UTF-8"), "João ✅");
    match decode_utf8(b"Jo\xe3o") {
        Err(TextEncodingError::InvalidUtf8(source)) => assert_eq!(source.as_bytes(), b"Jo\xe3o"),
        other => panic!("unexpected result {other:?}"),
    }
    assert!(matches!(decode_utf8(b"\xC3"), Err(TextEncodingError::InvalidUtf8(_))));
    assert_eq!(decode_utf8(b"").expect("empty is valid"), "");
}

#[test]
fn windows_1252_decodes_the_punctuation_block() {
    let policy = policy_with_default(TextEncoding::Windows1252);
    let decoded = policy
        .decode_existing("notes.txt", b"\x80\x82\x8A\x97\x9F\xA0\xFF")
        .expect("defined bytes");
    assert_eq!(decoded.content, "\u{20AC}\u{201A}\u{0160}\u{2014}\u{0178}\u{00A0}\u{00FF}");
    assert_eq!(decoded.encoding, TextEncoding::Windows1252);
    assert!(!decoded.has_utf8_bom);
}

#[test]
fn windows_1252_encodes_typographic_characters() {
    let policy = policy_with_default(TextEncoding::Windows1252);
    assert_eq!(
        policy.encode_new("a.txt", "€ “x” — ÿ").expect("representable"),
        b"\x80 \x93x\x94 \x97 \xFF"
    );
}

#[test]
fn iso_8859_1_maps_every_byte_to_the_same_code_point() {
    let policy = policy_with_default(TextEncoding::Iso8859_1);
    let decoded = policy
        .decode_existing("a.txt", b"\x80\x97\xFF")
        .expect("every byte is Latin-1");
    assert_eq!(decoded.content, "\u{0080}\u{0097}\u{00FF}");
    assert_eq!(
        policy.encode_existing(&decoded, "\u{0080}\u{0097}\u{00FF}").expect("in range"),
        b"\x80\x97\xFF"
    );
}

#[test]
fn iso_8859_1_reports_utf8_byte_offset_of_first_unrepresentable() {
    let policy = policy_with_default(TextEncoding::Iso8859_1);
    let error = policy.encode_new("a.txt", "é—€").expect_err("em dash is not Latin-1");
    assert!(matches!(
        error,
        TextEncodingError::UnrepresentableCharacter {
            encoding: TextEncoding::Iso8859_1,
            character: '—',
            byte_index: 2,
        }
    ));
}

#[test]
fn windows_1252_reports_utf8_byte_offset_of_first_unrepresentable() {
    let policy = policy_with_default(TextEncoding::Windows1252);
    let error = policy.encode_new("a.txt", "é—✅\u{0081}").expect_err("emoji is not Windows-1252");
    assert!(matches!(
        error,
        TextEncodingError::UnrepresentableCharacter {
            encoding: TextEncoding::Windows1252,
            character: '✅',
            byte_index: 5,
        }
    ));
}

#[test]
fn utf8_bom_followed_by_invalid_utf8_is_rejected() {
    let error = EncodingPolicy::default()
        .decode_existing("a.txt", b"\xEF\xBB\xBFJo\xe3o")
        .expect_err("BOM means UTF-8");
    match error {
        TextEncodingError::InvalidUtf8(source) => assert_eq!(source.as_bytes(), b"Jo\xe3o"),
        other => panic!("unexpected error {other:?}"),
    }
}

#[test]
fn utf8_bom_wins_over_legacy_rule() {
    let policy = policy_with_default(TextEncoding::Windows1252);
    let decoded = policy
        .decode_existing("a.txt", b"\xEF\xBB\xBFabc")
        .expect("valid UTF-8 after BOM");
    assert_eq!(decoded.content, "abc");
    assert_eq!(decoded.encoding, TextEncoding::Utf8);
    assert!(decoded.has_utf8_bom);
}

#[test]
fn compile_rejects_lossy_mode_first() {
    let error = EncodingPolicy::compile(FileEncodingConfig {
        strict: false,
        preserve_existing: false,
        ..Default::default()
    })
    .expect_err("lossy mode is unsupported");
    assert!(matches!(error, TextEncodingError::LossyModeUnsupported));
}

#[test]
fn compile_rejects_rules_without_globs() {
    let error = EncodingPolicy::compile(FileEncodingConfig {
        rules: vec![FileEncodingRule {
            globs: Vec::new(),
            encoding: TextEncoding::Windows1252,
        }],
        ..Default::default()
    })
    .expect_err("empty rule");
    assert!(matches!(error, TextEncodingError::EmptyRule));
}

#[test]
fn compile_reports_the_first_invalid_glob() {
    let error = EncodingPolicy::compile(FileEncodingConfig {
        rules: vec![
            FileEncodingRule {
                globs: vec!["*.txt".to_string()],
                encoding: TextEncoding::Iso8859_1,
            },
            FileEncodingRule {
                globs: vec!["src/*.java".to_string(), "src/[a".to_string(), "{x".to_string()],
                encoding: TextEncoding::Windows1252,
            },
            FileEncodingRule {
                globs: Vec::new(),
                encoding: TextEncoding::Utf8,
            },
        ],
        ..Default::default()
    })
    .expect_err("unclosed class");
    match error {
        TextEncodingError::InvalidGlob { pattern, source } => {
            assert_eq!(pattern, "src/[a");
            assert_eq!(source.glob(), Some("src/[a"));
        }
        other => panic!("unexpected error {other:?}"),
    }
}

#[test]
fn backslashes_match_as_forward_slashes_and_unmatched_paths_use_default() {
    let policy = EncodingPolicy::compile(FileEncodingConfig {
        default: TextEncoding::Iso8859_1,
        rules: vec![FileEncodingRule {
            globs: vec!["src/*.java".to_string()],
            encoding: TextEncoding::Windows1252,
        }],
        ..Default::default()
    })
    .expect("valid policy");
    assert_eq!(policy.encoding_for_path("src\\A.java"), TextEncoding::Windows1252);
    assert_eq!(policy.encoding_for_path("src/A.java"), TextEncoding::Windows1252);
    assert_eq!(policy.encoding_for_path("src/deep/A.java"), TextEncoding::Iso8859_1);
    assert_eq!(policy.encoding_for_path("README.md"), TextEncoding::Iso8859_1);
}

#[test]
fn unchanged_text_writes_back_the_same_bytes() {
    let policy = EncodingPolicy::compile(FileEncodingConfig {
        rules: vec![
            FileEncodingRule {
                globs: vec!["legacy/*".to_string()],
                encoding: TextEncoding::Windows1252,
            },
            FileEncodingRule {
                globs: vec!["latin/*".to_string()],
                encoding: TextEncoding::Iso8859_1,
            },
        ],
        ..Default::default()
    })
    .expect("valid policy");
    let cases: [(&str, &[u8]); 6] = [
        ("legacy/a.txt", b"Informa\xe7\xe3o \x97 \x80\n"),
        ("legacy/b.txt", b"plain ascii\n"),
        ("latin/c.txt", b"\x80\x81\xff"),
        ("other/d.txt", "Informação ✅".as_bytes()),
        ("other/e.txt", b"\xEF\xBB\xBFwith bom"),
        ("legacy/f.txt", "já é UTF-8".as_bytes()),
    ];
    for (path, bytes) in cases {
        let decoded = policy.decode_existing(path, bytes).expect("decodable");
        let written = policy
            .encode_existing(&decoded, &decoded.content)
            .expect("unchanged text is representable");
        assert_eq!(written, bytes, "{path}");
    }
}

#[test]
fn written_text_decodes_back_in_the_same_encoding() {
    for encoding in [TextEncoding::Iso8859_1, TextEncoding::Windows1252] {
        let policy = policy_with_default(encoding);
        let bytes = policy.encode_new("x.txt", "João ÿ").expect("representable");
        let decoded = policy.decode_existing("x.txt", &bytes).expect("decodable");
        assert_eq!(decoded.content, "João ÿ");
        assert_eq!(decoded.encoding, encoding);
    }
}
