use codex_text_encoding::paths::{non_empty_segments, path_segment_eq, paths_equal, relative_path};
use codex_text_encoding::project::{config_file_step, is_project_config_path};
use codex_text_encoding::ConfigFileRead;
use codex_text_encoding::ConfigFileStep;
use codex_text_encoding::ConfigLoadError;
use codex_text_encoding::ConfigResolution;
use codex_text_encoding::FileEncodingConfig;
use codex_text_encoding::FileEncodingRule;
use codex_text_encoding::PathConvention;
use codex_text_encoding::ProjectEncodingPolicy;
use codex_text_encoding::ProjectPath;
use codex_text_encoding::TextEncoding;
use codex_text_encoding::TextEncodingError;

fn posix(native_path: &str) -> ProjectPath {
    ProjectPath {
        scheme: "file".to_string(),
        host: None,
        convention: Some(PathConvention::Posix),
        native_path: native_path.to_string(),
    }
}

fn java_config() -> FileEncodingConfig {
    FileEncodingConfig {
        rules: vec![FileEncodingRule {
            globs: vec!["src/*.java".to_string()],
            encoding: TextEncoding::Windows1252,
        }],
        ..Default::default()
    }
}

fn loaded_java_project() -> ProjectEncodingPolicy {
    match ProjectEncodingPolicy::resolve_config(
        posix("/project"),
        &posix("/project/.codex/config.toml"),
        &[],
        Ok(Some(java_config())),
    ) {
        ConfigResolution::Loaded(project) => project,
        other => panic!("unexpected resolution {other:?}"),
    }
}

#[test]
fn splits_paths_into_non_empty_segments() {
    assert_eq!(
        non_empty_segments(PathConvention::Posix, "//a/b\\c//d/"),
        vec!["a".to_string(), "b\\c".to_string(), "d".to_string()]
    );
    assert_eq!(
        non_empty_segments(PathConvention::Windows, "C:\\a/b\\\\c\\"),
        vec!["C:".to_string(), "a".to_string(), "b".to_string(), "c".to_string()]
    );
    assert!(non_empty_segments(PathConvention::Posix, "///").is_empty());
}

#[test]
fn compares_segments_by_convention() {
    assert!(path_segment_eq(PathConvention::Posix, "Config", "Config"));
    assert!(!path_segment_eq(PathConvention::Posix, "Config", "config"));
    assert!(path_segment_eq(PathConvention::Windows, "Config.TOML", "config.toml"));
    assert!(!path_segment_eq(PathConvention::Windows, "É", "é"));
    assert!(!path_segment_eq(PathConvention::Windows, "ab", "abc"));
}

#[test]
fn paths_differ_by_scheme_host_or_convention() {
    let base = posix("/w/p");
    let mut other_scheme = posix("/w/p");
    other_scheme.scheme = "ssh".to_string();
    let mut other_host = posix("/w/p");
    other_host.host = Some("remote".to_string());
    let mut no_convention = posix("/w/p");
    no_convention.convention = None;
    assert!(paths_equal(&base, &posix("//w//p/")));
    assert!(!paths_equal(&base, &other_scheme));
    assert!(!paths_equal(&base, &other_host));
    assert!(!paths_equal(&base, &no_convention));
    assert!(!paths_equal(&no_convention, &no_convention));
    assert!(!paths_equal(&base, &posix("/w/P")));
}

#[test]
fn relative_path_requires_an_ancestor_root() {
    assert_eq!(relative_path(&posix("/w/p"), &posix("/w/p")).as_deref(), Some(""));
    assert_eq!(relative_path(&posix("/w/p"), &posix("/w/q/a")), None);
    assert_eq!(relative_path(&posix("/w/p/a"), &posix("/w/p")), None);
}

#[test]
fn recognizes_project_config_paths() {
    assert!(is_project_config_path(&posix("/w/p/.codex/config.toml")));
    assert!(!is_project_config_path(&posix("/w/p/.codex/other.toml")));
    assert!(!is_project_config_path(&posix("/w/p/config.toml")));
    assert!(!is_project_config_path(&posix("config.toml")));
    let windows = ProjectPath {
        scheme: "file".to_string(),
        host: None,
        convention: Some(PathConvention::Windows),
        native_path: "C:\\P\\.CODEX\\Config.Toml".to_string(),
    };
    assert!(is_project_config_path(&windows));
}

#[test]
fn missing_file_encoding_section_continues_upward() {
    let resolution = ProjectEncodingPolicy::resolve_config(
        posix("/project"),
        &posix("/project/.codex/config.toml"),
        &[],
        Ok(None),
    );
    assert!(matches!(resolution, ConfigResolution::Continue));
}

#[test]
fn valid_configuration_is_loaded_and_rooted() {
    let project = loaded_java_project();
    assert!(project.configured());
    assert_eq!(project.root(), &posix("/project"));
    assert_eq!(project.policy_path(&posix("/project/src/A.java")), "src/A.java");
    assert_eq!(project.policy_path(&posix("/elsewhere/A.java")), "/elsewhere/A.java");
}

#[test]
fn broken_configuration_fails_unless_the_patch_repairs_it() {
    let config_path = posix("/project/.codex/config.toml");
    let parse_failure = ProjectEncodingPolicy::resolve_config(
        posix("/project"),
        &config_path,
        &[posix("/project/src/A.java")],
        Err("expected `=`".to_string()),
    );
    match parse_failure {
        ConfigResolution::Failed(ConfigLoadError::Parse(message)) => assert_eq!(message, "expected `=`"),
        other => panic!("unexpected resolution {other:?}"),
    }

    let repaired = ProjectEncodingPolicy::resolve_config(
        posix("/project"),
        &config_path,
        &[posix("/project//.codex/config.toml")],
        Err("expected `=`".to_string()),
    );
    match repaired {
        ConfigResolution::Loaded(project) => assert!(!project.configured()),
        other => panic!("unexpected resolution {other:?}"),
    }

    let invalid = FileEncodingConfig {
        strict: false,
        ..Default::default()
    };
    let compile_failure = ProjectEncodingPolicy::resolve_config(
        posix("/project"),
        &config_path,
        &[],
        Ok(Some(invalid)),
    );
    assert!(matches!(
        compile_failure,
        ConfigResolution::Failed(ConfigLoadError::Compile(TextEncodingError::LossyModeUnsupported))
    ));
}

#[test]
fn validates_only_project_configuration_files() {
    let invalid = FileEncodingConfig {
        preserve_existing: false,
        ..Default::default()
    };
    assert!(ProjectEncodingPolicy::validate_project_config(
        &posix("/project/notes.toml"),
        Ok(Some(invalid.clone()))
    )
    .is_ok());
    assert!(matches!(
        ProjectEncodingPolicy::validate_project_config(&posix("/project/.codex/config.toml"), Ok(Some(invalid))),
        Err(ConfigLoadError::Compile(TextEncodingError::ExistingEncodingPreservationRequired))
    ));
    assert!(matches!(
        ProjectEncodingPolicy::validate_project_config(&posix("/project/.codex/config.toml"), Err("bad".to_string())),
        Err(ConfigLoadError::Parse(_))
    ));
    assert!(ProjectEncodingPolicy::validate_project_config(
        &posix("/project/.codex/config.toml"),
        Ok(Some(java_config()))
    )
    .is_ok());
}

#[test]
fn update_preserves_windows_1252_bytes_in_project() {
    let project = loaded_java_project();
    let path = posix("/project/src/Cliente.java");
    let decoded = project
        .decode(&path, b"// Informa\xe7\xe3o\nclass Cliente {}\n")
        .expect("legacy source");
    assert_eq!(decoded.encoding, TextEncoding::Windows1252);
    let written = project
        .encode_existing(&decoded, "// Informação atualizada — João\nclass Cliente {}\n")
        .expect("representable");
    assert_eq!(written, b"// Informa\xe7\xe3o atualizada \x97 Jo\xe3o\nclass Cliente {}\n");
}

#[test]
fn new_matching_file_is_written_as_windows_1252_in_project() {
    let project = loaded_java_project();
    let written = project
        .encode_add(&posix("/project/src/Novo.java"), None, "// Informação — João\nclass Novo {}\n")
        .expect("representable");
    assert_eq!(written, b"// Informa\xe7\xe3o \x97 Jo\xe3o\nclass Novo {}\n");
}

#[test]
fn configured_add_does_not_overwrite_unknown_existing_encoding() {
    let project = loaded_java_project();
    let error = project
        .encode_add(&posix("/project/src/Novo.java"), Some(&[0x81u8, 0x41]), "class Novo {}\n")
        .expect_err("undecodable existing file");
    assert!(matches!(error, TextEncodingError::InvalidWindows1252));

    let unconfigured = ProjectEncodingPolicy::unconfigured(posix("/project"));
    assert!(!unconfigured.configured());
    let written = unconfigured
        .encode_add(&posix("/project/src/Novo.java"), Some(&[0xFFu8]), "class Novo {}\n")
        .expect("unconfigured projects replace undecodable files");
    assert_eq!(written, b"class Novo {}\n");
}

#[test]
fn unrepresentable_character_is_refused_in_project() {
    let project = loaded_java_project();
    let path = posix("/project/src/Cliente.java");
    let decoded = project.decode(&path, b"class Cliente {}\n").expect("ASCII");
    let error = project
        .encode_existing(&decoded, "// ✅\nclass Cliente {}\n")
        .expect_err("emoji is not Windows-1252");
    assert!(matches!(
        error,
        TextEncodingError::UnrepresentableCharacter {
            encoding: TextEncoding::Windows1252,
            character: '✅',
            byte_index: 3,
        }
    ));
    assert_eq!(
        project.encode_new(&posix("/project/README.md"), "✅").expect("UTF-8 default"),
        "✅".as_bytes()
    );
}

#[test]
fn configuration_file_reads_decide_the_next_step() {
    assert!(matches!(config_file_step(ConfigFileRead::NotFound), ConfigFileStep::NextAncestor));
    assert!(matches!(config_file_step(ConfigFileRead::Failed), ConfigFileStep::ReadFailed));
    match config_file_step(ConfigFileRead::Bytes(b"[file_encoding]\n".to_vec())) {
        ConfigFileStep::Text(text) => assert_eq!(text, "[file_encoding]\n"),
        other => panic!("unexpected step {other:?}"),
    }
    match config_file_step(ConfigFileRead::Bytes(b"x = \"\xe3\"".to_vec())) {
        ConfigFileStep::Failed(ConfigLoadError::NotUtf8(source)) => {
            assert_eq!(source.as_bytes(), b"x = \"\xe3\"")
        }
        other => panic!("unexpected step {other:?}"),
    }
}
