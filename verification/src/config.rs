use vstd::prelude::*;
use vstd::string::*;

use crate::diagnostic::Level;
use crate::lint_levels::LintLevels;
use crate::text::{concat, decimal, decimal_text};

verus! {

/// Configuration of the wrapped tools.
pub struct ToolConfig {
    pub clippy: ClippyConfig,
}

/// How Clippy and rustdoc are run.
pub struct ClippyConfig {
    pub enabled: bool,
    pub profile: ClippyLintProfile,
    pub check_docs: bool,
    pub targets: ClippyTargetCoverage,
    pub features: ClippyFeatureSelection,
    pub no_default_features: bool,
    pub warnings: ClippyWarningPolicy,
    pub lints: LintLevels,
}

/// Which lint selection the wrapped tools start from.
#[derive(Debug, Clone, Copy, PartialEq, Eq, Structural)]
pub enum ClippyLintProfile {
    Axiom,
    Workspace,
}

/// Which targets Clippy checks.
#[derive(Debug, Clone, Copy, PartialEq, Eq, Structural)]
pub enum ClippyTargetCoverage {
    All,
    Default,
}

/// Which features the wrapped tools build.
pub enum ClippyFeatureSelection {
    Default,
    Mode(ClippyFeatureMode),
    Selected(Vec<String>),
}

/// A feature mode named in place of a list.
#[derive(Debug, Clone, Copy, PartialEq, Eq, Structural)]
pub enum ClippyFeatureMode {
    Default,
    All,
}

/// Whether warnings of the wrapped tools fail the check.
#[derive(Debug, Clone, Copy, PartialEq, Eq, Structural)]
pub enum ClippyWarningPolicy {
    Deny,
    Warn,
}

impl ToolConfig {
    /// The defaults of every wrapped tool.
    pub fn new() -> (config: Self)
        ensures
            config.clippy.is_default(),
    {
        ToolConfig { clippy: ClippyConfig::new() }
    }
}

impl Default for ToolConfig {
    fn default() -> (config: Self)
        ensures
            config.clippy.is_default(),
    {
        ToolConfig::new()
    }
}

impl Default for ClippyConfig {
    fn default() -> (config: Self)
        ensures
            config.is_default(),
    {
        ClippyConfig::new()
    }
}

impl Default for SourceConfig {
    fn default() -> (config: Self)
        ensures
            config.includes.deep_view() == spec_default_includes(),
            config.exclude@.len() == 0,
            config.test.deep_view() == spec_default_test_sources(),
    {
        SourceConfig::new()
    }
}

impl ClippyConfig {
    /// The documented defaults: enabled, the built-in profile, documentation
    /// checks, all targets, default features, and denied warnings.
    pub open spec fn is_default(&self) -> bool {
        &&& self.enabled
        &&& self.profile == ClippyLintProfile::Axiom
        &&& self.check_docs
        &&& self.targets == ClippyTargetCoverage::All
        &&& self.features is Default
        &&& !self.no_default_features
        &&& self.warnings == ClippyWarningPolicy::Deny
        &&& self.lints@.len() == 0
    }

    /// Whether every feature is enabled.
    pub open spec fn spec_checks_all_features(&self) -> bool {
        self.features matches ClippyFeatureSelection::Mode(ClippyFeatureMode::All)
    }

    /// The configured default settings.
    pub fn new() -> (config: Self)
        ensures
            config.is_default(),
    {
        ClippyConfig {
            enabled: true,
            profile: ClippyLintProfile::Axiom,
            check_docs: true,
            targets: ClippyTargetCoverage::All,
            features: ClippyFeatureSelection::Default,
            no_default_features: false,
            warnings: ClippyWarningPolicy::Deny,
            lints: LintLevels::new(),
        }
    }

    /// Whether the built-in lint profile applies.
    pub fn uses_axiom_profile(&self) -> (result: bool)
        ensures
            result == (self.profile == ClippyLintProfile::Axiom),
    {
        matches!(self.profile, ClippyLintProfile::Axiom)
    }

    /// Whether all targets are checked.
    pub fn checks_all_targets(&self) -> (result: bool)
        ensures
            result == (self.targets == ClippyTargetCoverage::All),
    {
        matches!(self.targets, ClippyTargetCoverage::All)
    }

    /// Whether every feature is enabled.
    pub fn checks_all_features(&self) -> (result: bool)
        ensures
            result == self.spec_checks_all_features(),
    {
        matches!(self.features, ClippyFeatureSelection::Mode(ClippyFeatureMode::All))
    }

    /// The explicitly selected features, when the list is not empty.
    pub fn selected_features(&self) -> (result: Option<&[String]>)
        ensures
            match result {
                Some(features) => self.features matches ClippyFeatureSelection::Selected(list)
                    && list@.len() > 0 && features@ == list@,
                None => !(self.features matches ClippyFeatureSelection::Selected(list)
                    && list@.len() > 0),
            },
    {
        match &self.features {
            ClippyFeatureSelection::Selected(features) => {
                if features.len() > 0 {
                    Some(features.as_slice())
                } else {
                    None
                }
            },
            _ => None,
        }
    }

    /// Whether warnings of the wrapped tools are errors.
    pub fn denies_warnings(&self) -> (result: bool)
        ensures
            result == (self.warnings == ClippyWarningPolicy::Deny),
    {
        matches!(self.warnings, ClippyWarningPolicy::Deny)
    }
}

/// Which files are analysed, and which of them are test sources.
pub struct SourceConfig {
    pub includes: Vec<String>,
    pub exclude: Vec<String>,
    pub test: Vec<String>,
}

/// The default include globs.
pub open spec fn spec_default_includes() -> Seq<Seq<char>> {
    seq!["**/*.rs"@]
}

/// The default test-source globs.
pub open spec fn spec_default_test_sources() -> Seq<Seq<char>> {
    seq![
        "tests.rs"@,
        "*_test.rs"@,
        "*_tests.rs"@,
        "tests/**/*.rs"@,
        "**/tests.rs"@,
        "**/*_test.rs"@,
        "**/*_tests.rs"@,
        "**/tests/**/*.rs"@,
    ]
}

/// The default include globs.
pub fn default_includes() -> (globs: Vec<String>)
    ensures
        globs.deep_view() == spec_default_includes(),
{
    let mut globs = Vec::new();
    globs.push(String::from_str("**/*.rs"));
    assert(globs.deep_view() =~= spec_default_includes());
    globs
}

/// The default test-source globs.
pub fn default_test_sources() -> (globs: Vec<String>)
    ensures
        globs.deep_view() == spec_default_test_sources(),
{
    let mut globs = Vec::new();
    globs.push(String::from_str("tests.rs"));
    globs.push(String::from_str("*_test.rs"));
    globs.push(String::from_str("*_tests.rs"));
    globs.push(String::from_str("tests/**/*.rs"));
    globs.push(String::from_str("**/tests.rs"));
    globs.push(String::from_str("**/*_test.rs"));
    globs.push(String::from_str("**/*_tests.rs"));
    globs.push(String::from_str("**/tests/**/*.rs"));
    assert(globs.deep_view() =~= spec_default_test_sources());
    globs
}

impl SourceConfig {
    /// Every Rust file, no exclusions, and the conventional test sources.
    pub fn new() -> (config: Self)
        ensures
            config.includes.deep_view() == spec_default_includes(),
            config.exclude@.len() == 0,
            config.test.deep_view() == spec_default_test_sources(),
    {
        SourceConfig {
            includes: default_includes(),
            exclude: Vec::new(),
            test: default_test_sources(),
        }
    }
}

/// A versioned policy file: sources, wrapped tools, and rule settings.
pub struct PolicyConfig {
    pub version: u32,
    pub sources: SourceConfig,
    pub tools: ToolConfig,
}

/// Why a policy file cannot be used.
pub enum ConfigError {
    Read { path: String, detail: String },
    Parse { path: String, detail: String },
    UnsupportedVersion(u32),
    NoIncludes,
    ConflictingClippyFeatureMode,
}

/// The error that validation reports for `config`, if any, in the order the
/// checks are made.
pub open spec fn validation_error(
    version: u32,
    include_count: nat,
    all_features: bool,
    no_default_features: bool,
) -> Option<ConfigError> {
    if version != 1 {
        Some(ConfigError::UnsupportedVersion(version))
    } else if include_count == 0 {
        Some(ConfigError::NoIncludes)
    } else if all_features && no_default_features {
        Some(ConfigError::ConflictingClippyFeatureMode)
    } else {
        None
    }
}

impl PolicyConfig {
    /// Checks the schema version, the include globs, and the Clippy feature
    /// mode.
    pub fn validate(&self) -> (result: Result<(), ConfigError>)
        ensures
            match validation_error(
                self.version,
                self.sources.includes@.len(),
                self.tools.clippy.spec_checks_all_features(),
                self.tools.clippy.no_default_features,
            ) {
                None => result is Ok,
                Some(error) => result == Err::<(), ConfigError>(error),
            },
    {
        if self.version != 1 {
            return Err(ConfigError::UnsupportedVersion(self.version));
        }
        if self.sources.includes.len() == 0 {
            return Err(ConfigError::NoIncludes);
        }
        if self.tools.clippy.checks_all_features() && self.tools.clippy.no_default_features {
            return Err(ConfigError::ConflictingClippyFeatureMode);
        }
        Ok(())
    }
}

/// The message that explains a configuration error.
pub open spec fn config_error_message(error: ConfigError) -> Seq<char> {
    match error {
        ConfigError::Read { path, detail } => "could not read policy configuration at "@ + path@
            + ": "@ + detail@,
        ConfigError::Parse { path, detail } => "invalid policy configuration at "@ + path@
            + ": "@ + detail@,
        ConfigError::UnsupportedVersion(version) => "unsupported policy configuration version "@
            + decimal(version as nat) + "; expected version 1"@,
        ConfigError::NoIncludes => "sources.include must contain at least one glob"@,
        ConfigError::ConflictingClippyFeatureMode =>
            "tools.clippy cannot combine features = \"all\" with no-default-features = true"@,
    }
}

impl ConfigError {
    /// The message that explains this error.
    pub fn message(&self) -> (text: String)
        ensures
            text@ == config_error_message(*self),
    {
        match self {
            ConfigError::Read { path, detail } => {
                let mut text = String::from_str("could not read policy configuration at ");
                text.append(path.as_str());
                text.append(": ");
                text.append(detail.as_str());
                text
            },
            ConfigError::Parse { path, detail } => {
                let mut text = String::from_str("invalid policy configuration at ");
                text.append(path.as_str());
                text.append(": ");
                text.append(detail.as_str());
                text
            },
            ConfigError::UnsupportedVersion(version) => {
                let mut text = String::from_str("unsupported policy configuration version ");
                let number = decimal_text(*version as u64);
                text.append(number.as_str());
                text.append("; expected version 1");
                text
            },
            ConfigError::NoIncludes => String::from_str(
                "sources.include must contain at least one glob",
            ),
            ConfigError::ConflictingClippyFeatureMode => String::from_str(
                "tools.clippy cannot combine features = \"all\" with no-default-features = true",
            ),
        }
    }
}

} // verus!
