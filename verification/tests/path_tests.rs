use codex_text_encoding::paths::{paths_equal, relative_path};
use codex_text_encoding::PathConvention;
use codex_text_encoding::ProjectPath;

fn file_path(native_path: &str, convention: PathConvention) -> ProjectPath {
    ProjectPath {
        scheme: "file".to_string(),
        host: None,
        convention: Some(convention),
        native_path: native_path.to_string(),
    }
}

#[test]
fn computes_posix_workspace_relative_paths() {
    let root = file_path("/workspace/project", PathConvention::Posix);
    let path = file_path("/workspace/project/src/Cliente.java", PathConvention::Posix);

    assert_eq!(
        relative_path(&root, &path).as_deref(),
        Some("src/Cliente.java")
    );
}

#[test]
fn compares_windows_paths_case_insensitively() {
    let left = file_path(r"C:\Workspace\Project\.codex\config.toml", PathConvention::Windows);
    let right = file_path(r"c:\workspace\project\.CODEX\CONFIG.TOML", PathConvention::Windows);

    assert!(paths_equal(&left, &right));
}

#[test]
fn computes_windows_workspace_relative_paths_case_insensitively() {
    let root = file_path(r"C:\Workspace\Project", PathConvention::Windows);
    let path = file_path(r"c:\workspace\project\src\Cliente.java", PathConvention::Windows);

    assert_eq!(
        relative_path(&root, &path).as_deref(),
        Some("src/Cliente.java")
    );
}
