use cargo_policy::config::{
    ClippyConfig, ClippyFeatureMode, ClippyFeatureSelection, ClippyLintProfile,
    ClippyTargetCoverage, ClippyWarningPolicy, ConfigError, PolicyConfig, SourceConfig, ToolConfig,
};

fn policy(version: u32) -> PolicyConfig {
    PolicyConfig {
        version,
        sources: SourceConfig::new(),
        tools: ToolConfig::new(),
    }
}

#[test]
fn unsupported_versions_and_empty_includes_are_rejected() {
    let version = policy(2).validate().expect_err("unsupported version");
    assert!(matches!(version, ConfigError::UnsupportedVersion(2)));
    assert!(version.message().contains("version 2"));

    let mut empty = policy(1);
    empty.sources.includes = Vec::new();
    let includes = empty.validate().expect_err("empty includes");
    assert!(matches!(includes, ConfigError::NoIncludes));
    assert!(includes.message().contains("at least one glob"));
}

#[test]
fn the_version_is_checked_before_the_includes() {
    let mut config = policy(3);
    config.sources.includes = Vec::new();
    assert!(matches!(config.validate(), Err(ConfigError::UnsupportedVersion(3))));
}

#[test]
fn default_policy_is_valid_and_strict() {
    let config = policy(1);
    assert!(config.validate().is_ok());
    let clippy = &config.tools.clippy;
    assert!(clippy.enabled);
    assert!(clippy.uses_axiom_profile());
    assert!(clippy.check_docs);
    assert!(clippy.checks_all_targets());
    assert!(!clippy.checks_all_features());
    assert!(!clippy.no_default_features);
    assert!(clippy.selected_features().is_none());
    assert!(clippy.denies_warnings());
    assert_eq!(config.sources.includes, vec!["**/*.rs".to_owned()]);
    assert!(config.sources.exclude.is_empty());
}

#[test]
fn custom_clippy_coverage_is_reported() {
    let mut clippy = ClippyConfig::new();
    clippy.profile = ClippyLintProfile::Workspace;
    clippy.check_docs = false;
    clippy.targets = ClippyTargetCoverage::Default;
    clippy.features =
        ClippyFeatureSelection::Selected(vec!["server".to_owned(), "postgres".to_owned()]);
    clippy.warnings = ClippyWarningPolicy::Warn;
    assert!(!clippy.uses_axiom_profile());
    assert!(!clippy.checks_all_targets());
    assert_eq!(
        clippy.selected_features(),
        Some(["server".to_owned(), "postgres".to_owned()].as_slice())
    );
    assert!(!clippy.denies_warnings());
}

#[test]
fn an_empty_feature_list_selects_nothing() {
    let mut clippy = ClippyConfig::new();
    clippy.features = ClippyFeatureSelection::Selected(Vec::new());
    assert!(clippy.selected_features().is_none());
}

#[test]
fn all_features_conflict_with_no_default_features() {
    let mut config = policy(1);
    config.tools.clippy.features = ClippyFeatureSelection::Mode(ClippyFeatureMode::All);
    assert!(config.tools.clippy.checks_all_features());
    assert!(config.validate().is_ok());
    config.tools.clippy.no_default_features = true;
    let error = config.validate().expect_err("conflicting feature selection");
    assert!(matches!(error, ConfigError::ConflictingClippyFeatureMode));
    assert!(error.message().contains("cannot combine features = \"all\""));
}

#[test]
fn read_and_parse_errors_name_the_file() {
    let read = ConfigError::Read {
        path: "/w/policy.toml".to_owned(),
        detail: "missing".to_owned(),
    };
    assert_eq!(
        read.message(),
        "could not read policy configuration at /w/policy.toml: missing"
    );
    let parse = ConfigError::Parse {
        path: "/w/policy.toml".to_owned(),
        detail: "unknown field `future`".to_owned(),
    };
    assert!(parse.message().starts_with("invalid policy configuration at /w/policy.toml"));
    assert!(parse.message().contains("unknown field"));
}
