//! The encoding policy of a project: the policy found in the nearest
//! `.codex/config.toml`, applied to paths relative to the directory that holds
//! it.
use vstd::prelude::*;
use crate::codec::{DecodedText, text_encoded_as};
use crate::config::FileEncodingConfig;
use crate::encoding::TextEncoding;
use crate::error::{TextEncodingError, TextEncodingFailure};
use crate::paths::{
    ProjectPath, ProjectPathView, non_empty_segments, path_segment_eq, path_segments, paths_equal,
    relative_location, relative_path, same_location, segments_equal,
};
use crate::unicode::{string_from_utf8, utf8_error_bytes};
use vstd::utf8::{valid_utf8, decode_utf8};
use crate::policy::{EncodingPolicy, PolicyView, existing_decoded, policy_compiled, policy_encoding_for_path};

verus! {

broadcast use vstd::string::group_string_axioms;

/// The directory that holds a project's configuration file.
pub const PROJECT_CONFIG_DIRECTORY: &'static str = ".codex";

/// The name of a project's configuration file.
pub const PROJECT_CONFIG_FILE: &'static str = "config.toml";

/// Whether a location names a project configuration file: its last two
/// segments are `.codex` and `config.toml` under its inferred convention.
pub open spec fn names_project_config(path: ProjectPathView) -> bool {
    &&& path.convention is Some
    &&& {
        let convention = path.convention->Some_0;
        let segments = path_segments(path.native_path, convention);
        &&& segments.len() >= 2
        &&& segments_equal(convention, segments[segments.len() - 2], PROJECT_CONFIG_DIRECTORY@)
        &&& segments_equal(convention, segments[segments.len() - 1], PROJECT_CONFIG_FILE@)
    }
}

/// Whether a location names a project configuration file.
pub fn is_project_config_path(path: &ProjectPath) -> (is_config: bool)
    ensures
        is_config == names_project_config(path@),
{
    let convention = match path.convention {
        Some(convention) => convention,
        None => return false,
    };
    let segments = non_empty_segments(convention, path.native_path.as_str());
    let count = segments.len();
    if count < 2 {
        return false;
    }
    let ghost view = segments@.map_values(|s: String| s@);
    assert(view[count - 2] == segments[count - 2]@);
    assert(view[count - 1] == segments[count - 1]@);
    path_segment_eq(convention, segments[count - 2].as_str(), PROJECT_CONFIG_DIRECTORY)
        && path_segment_eq(convention, segments[count - 1].as_str(), PROJECT_CONFIG_FILE)
}

/// Why a project configuration could not be used.
#[derive(Debug)]
pub enum ConfigLoadError {
    /// The configuration file is not UTF-8.
    NotUtf8(std::string::FromUtf8Error),
    /// The configuration file could not be parsed; the parser's message.
    Parse(String),
    /// The `file_encoding` section is invalid.
    Compile(TextEncodingError),
}

/// What a configuration error says.
pub enum ConfigLoadFailure {
    NotUtf8(Seq<u8>),
    Parse(Seq<char>),
    Compile(TextEncodingFailure),
}

impl View for ConfigLoadError {
    type V = ConfigLoadFailure;

    open spec fn view(&self) -> ConfigLoadFailure {
        match self {
            ConfigLoadError::NotUtf8(source) => ConfigLoadFailure::NotUtf8(utf8_error_bytes(*source)),
            ConfigLoadError::Parse(message) => ConfigLoadFailure::Parse(message@),
            ConfigLoadError::Compile(error) => ConfigLoadFailure::Compile(error@),
        }
    }
}

/// The encoding policy of a project, rooted at the directory whose
/// configuration it comes from.
#[derive(Debug)]
pub struct ProjectEncodingPolicy {
    root: ProjectPath,
    policy: EncodingPolicy,
    configured: bool,
}

/// A project policy as plain values.
pub struct ProjectPolicyView {
    pub root: ProjectPathView,
    pub policy: PolicyView,
    pub configured: bool,
}

impl View for ProjectEncodingPolicy {
    type V = ProjectPolicyView;

    closed spec fn view(&self) -> ProjectPolicyView {
        ProjectPolicyView { root: self.root@, policy: self.policy@, configured: self.configured }
    }
}

/// The policy used where no configuration applies: UTF-8 everywhere.
pub open spec fn default_policy_view() -> PolicyView {
    PolicyView { default: TextEncoding::Utf8, preserve_existing: true, rules: Seq::empty() }
}

/// A patch touches only the configuration file (and touches something).
pub open spec fn only_touches(patch_paths: Seq<ProjectPathView>, config_path: ProjectPathView) -> bool {
    &&& patch_paths.len() > 0
    &&& forall|i: int| 0 <= i < patch_paths.len() ==> same_location(#[trigger] patch_paths[i], config_path)
}

/// The views of a list of locations.
pub open spec fn path_views(paths: Seq<ProjectPath>) -> Seq<ProjectPathView> {
    paths.map_values(|p: ProjectPath| p@)
}

/// The outcome of looking at one ancestor's configuration file.
#[derive(Debug)]
pub enum ConfigResolution {
    /// The file has no `file_encoding` section: look further up.
    Continue,
    /// The policy to use.
    Loaded(ProjectEncodingPolicy),
    /// The configuration cannot be used.
    Failed(ConfigLoadError),
}

/// The path a policy sees: relative to the project root when the root holds
/// the location, else the location's native path.
pub open spec fn policy_path_of(root: ProjectPathView, path: ProjectPathView) -> Seq<char> {
    match relative_location(root, path) {
        Some(relative) => relative,
        None => path.native_path,
    }
}

/// What adding a file writes: an existing file that decodes keeps its
/// encoding; one that does not decode is replaced as a new file only when no
/// configuration was found; a missing file is written as a new file.
pub open spec fn added_file_encoded(
    project: ProjectPolicyView,
    path: ProjectPathView,
    existing: Option<Seq<u8>>,
    content: Seq<char>,
) -> Result<Seq<u8>, TextEncodingFailure> {
    let relative = policy_path_of(project.root, path);
    let fresh = text_encoded_as(content, policy_encoding_for_path(project.policy, relative), false);
    match existing {
        None => fresh,
        Some(bytes) => match existing_decoded(project.policy, relative, bytes) {
            Ok((_, encoding, has_utf8_bom)) => text_encoded_as(content, encoding, has_utf8_bom),
            Err(failure) => if !project.configured {
                fresh
            } else {
                Err(failure)
            },
        },
    }
}

/// What reading an ancestor's configuration file gave.
#[derive(Debug)]
pub enum ConfigFileRead {
    /// There is no configuration file there.
    NotFound,
    /// Reading failed for another reason.
    Failed,
    /// The file's bytes.
    Bytes(Vec<u8>),
}

/// What to do after reading an ancestor's configuration file.
#[derive(Debug)]
pub enum ConfigFileStep {
    /// Look at the next ancestor.
    NextAncestor,
    /// Report the read error; it is never repaired.
    ReadFailed,
    /// Parse this text.
    Text(String),
    /// The configuration cannot be used; it is never repaired.
    Failed(ConfigLoadError),
}

/// Decides what an ancestor's configuration file read gives: a missing file
/// moves on to the next ancestor, a failed read is reported, and the bytes
/// must be UTF-8.
pub fn config_file_step(read: ConfigFileRead) -> (step: ConfigFileStep)
    ensures
        match read {
            ConfigFileRead::NotFound => step is NextAncestor,
            ConfigFileRead::Failed => step is ReadFailed,
            ConfigFileRead::Bytes(bytes) => if valid_utf8(bytes@) {
                step matches ConfigFileStep::Text(text) && text@ == decode_utf8(bytes@)
            } else {
                step matches ConfigFileStep::Failed(e) && e@ == ConfigLoadFailure::NotUtf8(bytes@)
            },
        },
{
    match read {
        ConfigFileRead::NotFound => ConfigFileStep::NextAncestor,
        ConfigFileRead::Failed => ConfigFileStep::ReadFailed,
        ConfigFileRead::Bytes(bytes) => match string_from_utf8(bytes) {
            Ok(text) => ConfigFileStep::Text(text),
            Err(error) => ConfigFileStep::Failed(ConfigLoadError::NotUtf8(error)),
        },
    }
}

/// Whether every path of a patch is the configuration file, and there is one.
fn patch_only_touches(patch_paths: &[ProjectPath], config_path: &ProjectPath) -> (only: bool)
    ensures
        only == only_touches(path_views(patch_paths@), config_path@),
{
    let ghost views = path_views(patch_paths@);
    if patch_paths.len() == 0 {
        return false;
    }
    let mut i: usize = 0;
    while i < patch_paths.len()
        invariant
            0 <= i <= patch_paths@.len(),
            views == path_views(patch_paths@),
            views.len() == patch_paths@.len(),
            forall|j: int| 0 <= j < i ==> same_location(#[trigger] views[j], config_path@),
        decreases patch_paths@.len() - i,
    {
        assert(views[i as int] == patch_paths@[i as int]@);
        if !paths_equal(&patch_paths[i], config_path) {
            return false;
        }
        i = i + 1;
    }
    true
}

impl ProjectEncodingPolicy {
    /// The policy used when no ancestor configures one: UTF-8, rooted at the
    /// starting directory.
    pub fn unconfigured(root: ProjectPath) -> (project: Self)
        ensures
            project@.root == root@,
            project@.policy == default_policy_view(),
            !project@.configured,
    {
        ProjectEncodingPolicy { root, policy: EncodingPolicy::default(), configured: false }
    }

    /// The directory the policy's paths are relative to.
    pub fn root(&self) -> (root: &ProjectPath)
        ensures
            root@ == self@.root,
    {
        &self.root
    }

    /// Whether the policy comes from a configuration file.
    pub fn configured(&self) -> (configured: bool)
        ensures
            configured == self@.configured,
    {
        self.configured
    }

    /// Decides what the configuration file of one ancestor directory `root`
    /// gives, from what parsing it gave (`Ok(None)` when it has no
    /// `file_encoding` section). A configuration that cannot be parsed or
    /// compiled is an error, unless the patch being applied touches only that
    /// configuration file: then the default policy is used so that the patch
    /// can repair it.
    pub fn resolve_config(
        root: ProjectPath,
        config_path: &ProjectPath,
        patch_paths: &[ProjectPath],
        parsed: Result<Option<FileEncodingConfig>, String>,
    ) -> (resolution: ConfigResolution)
        ensures
            ({
                let repairable = only_touches(path_views(patch_paths@), config_path@);
                let default_used = resolution matches ConfigResolution::Loaded(p)
                    && p@.root == root@ && p@.policy == default_policy_view() && !p@.configured;
                match parsed {
                    Err(message) => if repairable {
                        default_used
                    } else {
                        resolution matches ConfigResolution::Failed(e)
                            && e@ == ConfigLoadFailure::Parse(message@)
                    },
                    Ok(None) => resolution is Continue,
                    Ok(Some(config)) => match policy_compiled(config@) {
                        Ok(policy) => resolution matches ConfigResolution::Loaded(p)
                            && p@.root == root@ && p@.policy == policy && p@.configured,
                        Err(failure) => if repairable {
                            default_used
                        } else {
                            resolution matches ConfigResolution::Failed(e)
                                && e@ == ConfigLoadFailure::Compile(failure)
                        },
                    },
                }
            }),
    {
        let error = match parsed {
            Err(message) => ConfigLoadError::Parse(message),
            Ok(None) => return ConfigResolution::Continue,
            Ok(Some(config)) => match EncodingPolicy::compile(config) {
                Ok(policy) => {
                    return ConfigResolution::Loaded(ProjectEncodingPolicy { root, policy, configured: true });
                },
                Err(error) => ConfigLoadError::Compile(error),
            },
        };
        if patch_only_touches(patch_paths, config_path) {
            ConfigResolution::Loaded(ProjectEncodingPolicy::unconfigured(root))
        } else {
            ConfigResolution::Failed(error)
        }
    }

    /// Validates a configuration file that a patch writes: a file that is not a
    /// project configuration file is accepted as is; otherwise it must parse
    /// and its `file_encoding` section, if any, must compile.
    pub fn validate_project_config(
        path: &ProjectPath,
        parsed: Result<Option<FileEncodingConfig>, String>,
    ) -> (validated: Result<(), ConfigLoadError>)
        ensures
            !names_project_config(path@) ==> validated is Ok,
            names_project_config(path@) ==> match parsed {
                Err(message) => validated matches Err(e) && e@ == ConfigLoadFailure::Parse(message@),
                Ok(None) => validated is Ok,
                Ok(Some(config)) => match policy_compiled(config@) {
                    Ok(_) => validated is Ok,
                    Err(failure) => validated matches Err(e) && e@ == ConfigLoadFailure::Compile(failure),
                },
            },
    {
        if !is_project_config_path(path) {
            return Ok(());
        }
        match parsed {
            Err(message) => Err(ConfigLoadError::Parse(message)),
            Ok(None) => Ok(()),
            Ok(Some(config)) => match EncodingPolicy::compile(config) {
                Ok(_) => Ok(()),
                Err(error) => Err(ConfigLoadError::Compile(error)),
            },
        }
    }

    /// The path the policy sees for a location.
    pub fn policy_path(&self, path: &ProjectPath) -> (relative: String)
        ensures
            relative@ == policy_path_of(self@.root, path@),
    {
        match relative_path(&self.root, path) {
            Some(relative) => relative,
            None => path.native_path.clone(),
        }
    }

    /// Decodes an existing file at a location.
    pub fn decode(&self, path: &ProjectPath, bytes: &[u8]) -> (decoded: Result<DecodedText, TextEncodingError>)
        ensures
            ({
                let expected = existing_decoded(self@.policy, policy_path_of(self@.root, path@), bytes@);
                &&& decoded is Ok <==> expected is Ok
                &&& decoded matches Ok(d) ==> expected
                    == Ok::<(Seq<char>, TextEncoding, bool), TextEncodingFailure>((d.content@, d.encoding, d.has_utf8_bom))
                &&& decoded matches Err(e) ==> expected == Err::<(Seq<char>, TextEncoding, bool), TextEncodingFailure>(e@)
            }),
    {
        let relative = self.policy_path(path);
        self.policy.decode_existing(relative.as_str(), bytes)
    }

    /// Encodes a new file at a location.
    pub fn encode_new(&self, path: &ProjectPath, content: &str) -> (encoded: Result<Vec<u8>, TextEncodingError>)
        ensures
            ({
                let expected = text_encoded_as(content@,
                    policy_encoding_for_path(self@.policy, policy_path_of(self@.root, path@)), false);
                &&& encoded is Ok <==> expected is Ok
                &&& encoded matches Ok(b) ==> expected == Ok::<Seq<u8>, TextEncodingFailure>(b@)
                &&& encoded matches Err(e) ==> expected == Err::<Seq<u8>, TextEncodingFailure>(e@)
            }),
    {
        let relative = self.policy_path(path);
        self.policy.encode_new(relative.as_str(), content)
    }

    /// Encodes edited text of an existing file with the metadata its decoding
    /// recorded.
    pub fn encode_existing(&self, decoded: &DecodedText, content: &str) -> (encoded: Result<Vec<u8>, TextEncodingError>)
        ensures
            ({
                let expected = text_encoded_as(content@, decoded.encoding, decoded.has_utf8_bom);
                &&& encoded is Ok <==> expected is Ok
                &&& encoded matches Ok(b) ==> expected == Ok::<Seq<u8>, TextEncodingFailure>(b@)
                &&& encoded matches Err(e) ==> expected == Err::<Seq<u8>, TextEncodingFailure>(e@)
            }),
    {
        self.policy.encode_existing(decoded, content)
    }

    /// Encodes the content of a file that a patch adds, given the bytes of the
    /// file already at that location (`None` when there is none).
    pub fn encode_add(&self, path: &ProjectPath, existing: Option<&[u8]>, content: &str) -> (encoded: Result<Vec<u8>, TextEncodingError>)
        ensures
            ({
                let existing_view = match existing {
                    Some(bytes) => Some(bytes@),
                    None => None,
                };
                let expected = added_file_encoded(self@, path@, existing_view, content@);
                &&& encoded is Ok <==> expected is Ok
                &&& encoded matches Ok(b) ==> expected == Ok::<Seq<u8>, TextEncodingFailure>(b@)
                &&& encoded matches Err(e) ==> expected == Err::<Seq<u8>, TextEncodingFailure>(e@)
            }),
    {
        match existing {
            Some(bytes) => match self.decode(path, bytes) {
                Ok(decoded) => self.encode_existing(&decoded, content),
                Err(error) => {
                    if !self.configured {
                        self.encode_new(path, content)
                    } else {
                        Err(error)
                    }
                },
            },
            None => self.encode_new(path, content),
        }
    }
}

} // verus!
