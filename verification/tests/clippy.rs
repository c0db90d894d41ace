use cargo_policy::commands::{clippy_command, rustdoc_command};
use cargo_policy::config::{
    ClippyConfig, ClippyFeatureSelection, ClippyTargetCoverage, ClippyWarningPolicy,
};
use cargo_policy::diagnostic::Level;
use cargo_policy::profile::{compiler_arguments, rustdoc_arguments};

fn configured_command_arguments() -> Vec<String> {
    let mut config = ClippyConfig::new();
    config.targets = ClippyTargetCoverage::Default;
    config.features = ClippyFeatureSelection::Selected(vec!["server".into(), "postgres".into()]);
    config.no_default_features = true;
    config.warnings = ClippyWarningPolicy::Warn;
    clippy_command("/workspace", &config, false, "/temporary/cargo-target", false).arguments
}

fn contains_pair(arguments: &[String], flag: &str, value: &str) -> bool {
    arguments.windows(2).any(|pair| pair[0] == flag && pair[1] == value)
}

fn assert_command_shape(arguments: &[String]) {
    assert!(arguments.starts_with(&[
        "clippy".to_owned(),
        "--manifest-path".to_owned(),
        "/workspace/Cargo.toml".to_owned(),
    ]));
    assert!(arguments.contains(&"--workspace".to_owned()));
    let target = arguments
        .windows(2)
        .find(|arguments| arguments[0] == "--target-dir")
        .map(|arguments| arguments[1].clone())
        .expect("Clippy command has an explicit target directory");
    assert_eq!(target, "/temporary/cargo-target");
    assert!(arguments.contains(&"--no-deps".to_owned()));
    assert!(arguments.contains(&"--keep-going".to_owned()));
    assert!(!arguments.contains(&"--all-targets".to_owned()));
}

fn assert_feature_selection(arguments: &[String]) {
    assert!(!arguments.contains(&"--all-features".to_owned()));
    assert!(contains_pair(arguments, "--features", "server,postgres"));
    assert!(arguments.contains(&"--no-default-features".to_owned()));
}

fn assert_lint_profile(arguments: &[String]) {
    assert!(!contains_pair(arguments, "-D", "warnings"));
    assert!(contains_pair(arguments, "-D", "unsafe-code"));
    for lint in [
        "clippy::all",
        "clippy::cargo",
        "clippy::pedantic",
        "clippy::cognitive-complexity",
    ] {
        assert!(contains_pair(arguments, "-W", lint));
    }
    assert!(arguments.contains(&"clippy::unwrap-used".to_owned()));
    assert!(contains_pair(arguments, "-A", "clippy::cast-lossless"));
}

#[test]
fn command_maps_clippy_configuration_to_cargo_arguments() {
    let arguments = configured_command_arguments();
    assert_command_shape(&arguments);
    assert_feature_selection(&arguments);
    assert_lint_profile(&arguments);
}

#[test]
fn fail_fast_command_is_single_job_without_keep_going() {
    let command = clippy_command(
        "/workspace",
        &ClippyConfig::new(),
        true,
        "/temporary/cargo-target",
        false,
    );
    let arguments = command.arguments;
    assert!(!arguments.contains(&"--keep-going".to_owned()));
    assert!(arguments.windows(2).any(|pair| pair[0] == "--jobs" && pair[1] == "1"));
}

#[test]
fn individual_lint_overrides_are_applied_last_to_the_correct_backend() {
    let mut config = ClippyConfig::new();
    config.lints.insert("clippy::unwrap_used".to_owned(), Level::Allow);
    config
        .lints
        .insert("rustdoc::broken_intra_doc_links".to_owned(), Level::Warn);

    let compiler = compiler_arguments(&config);
    assert!(compiler.ends_with(&["-A".to_owned(), "clippy::unwrap_used".to_owned()]));
    assert!(!compiler.contains(&"rustdoc::broken_intra_doc_links".to_owned()));

    let rustdoc = rustdoc_arguments(&config);
    assert!(rustdoc.ends_with(&[
        "--force-warn".to_owned(),
        "rustdoc::broken_intra_doc_links".to_owned(),
    ]));
    assert!(!rustdoc.contains(&"clippy::unwrap_used".to_owned()));
}

#[test]
fn command_uses_the_owned_run_target_directory() {
    let command = rustdoc_command(
        "/workspace",
        &ClippyConfig::new(),
        false,
        "/temporary/cargo-target",
        "",
        false,
    );
    let target = command
        .arguments
        .windows(2)
        .find(|arguments| arguments[0] == "--target-dir")
        .map(|arguments| arguments[1].clone())
        .expect("rustdoc command has an explicit target directory");

    assert_eq!(target, "/temporary/cargo-target");
}

#[test]
fn offline_commands_forbid_network_access() {
    let command = clippy_command("/workspace", &ClippyConfig::new(), false, "/t", true);
    assert!(command
        .environment
        .iter()
        .any(|(name, value)| name == "CARGO_NET_OFFLINE" && value == "true"));
    let online = clippy_command("/workspace", &ClippyConfig::new(), false, "/t", false);
    assert!(online.environment.is_empty());
}
