use vstd::prelude::*;
use vstd::string::*;

use crate::config::{ClippyConfig, ClippyTargetCoverage};
use crate::paths::{join_path, joined_onto, verbatim};
use crate::profile::{compiler_arguments, rustdoc_arguments, spec_compiler_arguments, spec_rustdoc_arguments};
use crate::text::join;

verus! {

/// The Rust toolchain whose compiler libraries the semantic analysis uses.
pub const SEMANTIC_TOOLCHAIN: &'static str = "1.98.0";

/// A process to run: program, arguments, working directory, and the
/// environment variables to set.
pub struct ToolCommand {
    pub program: String,
    pub arguments: Vec<String>,
    pub current_dir: String,
    pub environment: Vec<(String, String)>,
}

/// The environment variables of a command as texts.
pub open spec fn environment_view(environment: Seq<(String, String)>) -> Seq<(Seq<char>, Seq<char>)> {
    environment.map_values(|pair: (String, String)| (pair.0@, pair.1@))
}

/// The Cargo flags that select features.
pub open spec fn spec_feature_arguments(config: &ClippyConfig) -> Seq<Seq<char>> {
    (if config.spec_checks_all_features() {
        seq!["--all-features"@]
    } else {
        match config.features {
            crate::config::ClippyFeatureSelection::Selected(list) => if list@.len() > 0 {
                seq!["--features"@, join(texts(list@), ","@)]
            } else {
                seq![]
            },
            _ => seq![],
        }
    }) + (if config.no_default_features {
        seq!["--no-default-features"@]
    } else {
        seq![]
    })
}

/// The Cargo flags that bound parallelism: one job when stopping at the
/// first finding, otherwise keep going past failures.
pub open spec fn spec_job_arguments(fail_fast: bool) -> Seq<Seq<char>> {
    if fail_fast {
        seq!["--jobs"@, "1"@]
    } else {
        seq!["--keep-going"@]
    }
}

/// The offline setting passed to Cargo.
pub open spec fn spec_offline_environment(offline: bool) -> Seq<(Seq<char>, Seq<char>)> {
    if offline {
        seq![("CARGO_NET_OFFLINE"@, "true"@)]
    } else {
        seq![]
    }
}

/// The arguments of the Clippy command, for the manifest path `manifest`.
pub open spec fn spec_clippy_arguments(
    manifest: Seq<char>,
    config: &ClippyConfig,
    fail_fast: bool,
    target_dir: Seq<char>,
) -> Seq<Seq<char>> {
    seq!["clippy"@, "--manifest-path"@, manifest, "--target-dir"@, target_dir]
        + seq!["--workspace"@, "--locked"@, "--no-deps"@] + spec_job_arguments(fail_fast) + seq![
        "--quiet"@,
        "--message-format=json"@,
        "--color=never"@,
    ] + (if config.targets == ClippyTargetCoverage::All {
        seq!["--all-targets"@]
    } else {
        seq![]
    }) + spec_feature_arguments(config) + (if spec_compiler_arguments(config).len() > 0 {
        seq!["--"@] + spec_compiler_arguments(config)
    } else {
        seq![]
    })
}

/// Clippy lints every target (tests, examples and benches too) exactly when
/// the configuration asks for all targets: `--all-targets` is then among
/// its arguments, right after Cargo's output options; otherwise that place
/// holds a feature option, the separator before the compiler's lint flags,
/// or nothing.
pub proof fn lemma_clippy_all_targets(
    manifest: Seq<char>,
    config: &ClippyConfig,
    fail_fast: bool,
    target_dir: Seq<char>,
)
    ensures
        config.targets == ClippyTargetCoverage::All ==> spec_clippy_arguments(
            manifest,
            config,
            fail_fast,
            target_dir,
        ).contains("--all-targets"@),
        ({
            let arguments = spec_clippy_arguments(manifest, config, fail_fast, target_dir);
            let place: int = 11 + spec_job_arguments(fail_fast).len() as int;
            (place < arguments.len() && arguments[place] == "--all-targets"@) <==> config.targets
                == ClippyTargetCoverage::All
        }),
{
    reveal_strlit("--all-targets");
    reveal_strlit("--all-features");
    reveal_strlit("--features");
    reveal_strlit("--no-default-features");
    reveal_strlit("--");
    let arguments = spec_clippy_arguments(manifest, config, fail_fast, target_dir);
    let head = seq!["clippy"@, "--manifest-path"@, manifest, "--target-dir"@, target_dir] + seq![
        "--workspace"@,
        "--locked"@,
        "--no-deps"@,
    ] + spec_job_arguments(fail_fast) + seq!["--quiet"@, "--message-format=json"@, "--color=never"@];
    let place: int = 11 + spec_job_arguments(fail_fast).len() as int;
    assert(head.len() == place);
    let features = spec_feature_arguments(config);
    let lints: Seq<Seq<char>> = if spec_compiler_arguments(config).len() > 0 {
        seq!["--"@] + spec_compiler_arguments(config)
    } else {
        seq![]
    };
    if config.targets == ClippyTargetCoverage::All {
        assert(arguments == head + seq!["--all-targets"@] + features + lints);
        assert(arguments[place] == "--all-targets"@);
    } else {
        assert(arguments =~= head + features + lints);
        if place < arguments.len() {
            if features.len() > 0 {
                assert(arguments[place] == features[0]);
                assert(features[0] == "--all-features"@ || features[0] == "--features"@
                    || features[0] == "--no-default-features"@);
            } else {
                assert(arguments[place] == lints[0]);
                assert(lints[0] == "--"@);
            }
            assert(arguments[place].len() != "--all-targets"@.len());
        }
    }
}

/// The arguments of the rustdoc command, for the manifest path `manifest`.
pub open spec fn spec_rustdoc_command_arguments(
    manifest: Seq<char>,
    config: &ClippyConfig,
    fail_fast: bool,
    target_dir: Seq<char>,
) -> Seq<Seq<char>> {
    seq!["doc"@, "--manifest-path"@, manifest, "--target-dir"@, target_dir]
        + seq!["--workspace"@, "--locked"@, "--no-deps"@] + spec_job_arguments(fail_fast) + seq![
        "--quiet"@,
        "--message-format=json"@,
        "--color=never"@,
    ] + spec_feature_arguments(config)
}

/// Existing rustdoc flags followed by `arguments`, separated by spaces.
pub open spec fn appended_flags(flags: Seq<char>, arguments: Seq<Seq<char>>) -> Seq<char>
    decreases arguments.len(),
{
    if arguments.len() == 0 {
        flags
    } else {
        let before = appended_flags(flags, arguments.drop_last());
        (if before.len() > 0 {
            before + " "@
        } else {
            before
        }) + arguments.last()
    }
}

/// The arguments of the compiler run that reports private dead code.
pub open spec fn spec_dead_code_arguments(manifest: Seq<char>, target_dir: Seq<char>) -> Seq<
    Seq<char>,
> {
    seq!["run"@, SEMANTIC_TOOLCHAIN@, "cargo"@, "check"@, "--manifest-path"@, manifest]
        + seq!["--target-dir"@, target_dir] + seq![
        "--workspace"@,
        "--all-targets"@,
        "--all-features"@,
        "--locked"@,
        "--message-format=json"@,
        "--color=never"@,
    ]
}

/// `--exclude-crate` before every crate name.
pub open spec fn exclusion_arguments(crates: Seq<Seq<char>>) -> Seq<Seq<char>>
    decreases crates.len(),
{
    if crates.len() == 0 {
        seq![]
    } else {
        exclusion_arguments(crates.drop_last()) + seq!["--exclude-crate"@, crates.last()]
    }
}

/// The arguments of the semantic analyzer.
pub open spec fn spec_analyzer_arguments(
    manifest: Seq<char>,
    config_file: Option<Seq<char>>,
    excluded_crates: Seq<Seq<char>>,
) -> Seq<Seq<char>> {
    seq!["__semantic"@, "check"@, "--manifest-path"@, manifest] + seq![
        "--output-format"@,
        "json"@,
        "--color"@,
        "never"@,
    ] + seq!["-W"@, "hawk::test_only"@, "-W"@, "hawk::unnecessary_crate_visibility"@] + (
    match config_file {
        Some(path) => seq!["--config"@, path],
        None => seq![],
    }) + exclusion_arguments(excluded_crates)
}

/// Appends every text of `items` to `arguments`.
fn push_all(arguments: &mut Vec<String>, items: &Vec<String>)
    ensures
        final(arguments).deep_view() == old(arguments).deep_view() + items.deep_view(),
{
    let mut index: usize = 0;
    while index < items.len()
        invariant
            index <= items@.len(),
            arguments.deep_view() == old(arguments).deep_view() + items.deep_view().subrange(
                0,
                index as int,
            ),
        decreases items@.len() - index,
    {
        let item = items[index].clone();
        proof {
            assert(item@ == items.deep_view()[index as int]);
        }
        push_owned(arguments, item);
        proof {
            assert(arguments.deep_view() =~= old(arguments).deep_view()
                + items.deep_view().subrange(0, index + 1));
        }
        index = index + 1;
    }
    assert(items.deep_view().subrange(0, items@.len() as int) =~= items.deep_view());
}

/// Appends an owned text.
fn push_owned(arguments: &mut Vec<String>, item: String)
    ensures
        final(arguments).deep_view() == old(arguments).deep_view().push(item@),
{
    let ghost view = item@;
    arguments.push(item);
    assert(arguments.deep_view() =~= old(arguments).deep_view().push(view));
}

/// Appends one text.
fn push_text(arguments: &mut Vec<String>, item: &str)
    ensures
        final(arguments).deep_view() == old(arguments).deep_view().push(item@),
{
    arguments.push(String::from_str(item));
    assert(arguments.deep_view() =~= old(arguments).deep_view().push(item@));
}

/// The texts of a list of strings.
pub open spec fn texts(parts: Seq<String>) -> Seq<Seq<char>> {
    parts.map_values(|part: String| part@)
}

/// The items of `parts` separated by `separator`.
pub fn join_texts(parts: &[String], separator: &str) -> (text: String)
    ensures
        text@ == join(texts(parts@), separator@),
{
    let mut text = String::new();
    let mut index: usize = 0;
    while index < parts.len()
        invariant
            index <= parts@.len(),
            text@ == join(texts(parts@).subrange(0, index as int), separator@),
        decreases parts@.len() - index,
    {
        proof {
            let after = texts(parts@).subrange(0, index + 1);
            assert(after.drop_last() =~= texts(parts@).subrange(0, index as int));
        }
        if index > 0 {
            text.append(separator);
        }
        text.append(parts[index].as_str());
        proof {
            let after = texts(parts@).subrange(0, index + 1);
            if index == 0 {
                assert(after.len() == 1);
            }
            assert(text@ =~= join(after, separator@));
        }
        index = index + 1;
    }
    assert(texts(parts@).subrange(0, parts@.len() as int) =~= texts(parts@));
    text
}

/// Appends the Cargo flags that select features.
pub fn feature_arguments(arguments: &mut Vec<String>, config: &ClippyConfig)
    ensures
        final(arguments).deep_view() == old(arguments).deep_view() + spec_feature_arguments(
            config,
        ),
{
    let ghost start = arguments.deep_view();
    if config.checks_all_features() {
        push_text(arguments, "--all-features");
    } else {
        match &config.features {
            crate::config::ClippyFeatureSelection::Selected(list) => {
                if list.len() > 0 {
                    push_text(arguments, "--features");
                    let joined = join_texts(list.as_slice(), ",");
                    push_owned(arguments, joined);
                    assert(arguments.deep_view() =~= start + seq![
                        "--features"@,
                        join(texts(list@), ","@),
                    ]);
                }
            },
            _ => {},
        }
    }
    let ghost middle = arguments.deep_view();
    if config.no_default_features {
        push_text(arguments, "--no-default-features");
    }
    assert(arguments.deep_view() =~= start + spec_feature_arguments(config));
}

/// Appends the parallelism flags.
fn job_arguments(arguments: &mut Vec<String>, fail_fast: bool)
    ensures
        final(arguments).deep_view() == old(arguments).deep_view() + spec_job_arguments(
            fail_fast,
        ),
{
    if fail_fast {
        push_text(arguments, "--jobs");
        push_text(arguments, "1");
    } else {
        push_text(arguments, "--keep-going");
    }
    assert(arguments.deep_view() =~= old(arguments).deep_view() + spec_job_arguments(fail_fast));
}

/// The offline setting passed to Cargo.
fn offline_environment(environment: &mut Vec<(String, String)>, offline: bool)
    ensures
        environment_view(final(environment)@) == environment_view(old(environment)@)
            + spec_offline_environment(offline),
{
    if offline {
        environment.push((String::from_str("CARGO_NET_OFFLINE"), String::from_str("true")));
    }
    assert(environment_view(environment@) =~= environment_view(old(environment)@)
        + spec_offline_environment(offline));
}

/// The manifest of the workspace at `workspace_root`.
pub fn manifest_path(workspace_root: &str) -> (path: String)
    ensures
        !verbatim(workspace_root@) ==> joined_onto(path@, workspace_root@, "Cargo.toml"@),
{
    proof {
        reveal_strlit("Cargo.toml");
    }
    join_path(workspace_root, "Cargo.toml")
}

/// The Clippy command for the workspace, with Cargo artifacts in
/// `target_dir`.
pub fn clippy_command(
    workspace_root: &str,
    config: &ClippyConfig,
    fail_fast: bool,
    target_dir: &str,
    offline: bool,
) -> (command: ToolCommand)
    ensures
        !verbatim(workspace_root@) ==> joined_onto(
            command.arguments.deep_view()[2],
            workspace_root@,
            "Cargo.toml"@,
        ),
        command.program@ == "cargo"@,
        command.current_dir@ == workspace_root@,
        command.arguments@.len() > 2,
        command.arguments.deep_view() == spec_clippy_arguments(
            command.arguments.deep_view()[2],
            config,
            fail_fast,
            target_dir@,
        ),
        environment_view(command.environment@) == spec_offline_environment(offline),
{
    let manifest = manifest_path(workspace_root);
    let ghost manifest_view = manifest@;
    let mut arguments: Vec<String> = Vec::new();
    push_text(&mut arguments, "clippy");
    push_text(&mut arguments, "--manifest-path");
    push_owned(&mut arguments, manifest);
    push_text(&mut arguments, "--target-dir");
    push_text(&mut arguments, target_dir);
    push_text(&mut arguments, "--workspace");
    push_text(&mut arguments, "--locked");
    push_text(&mut arguments, "--no-deps");
    job_arguments(&mut arguments, fail_fast);
    push_text(&mut arguments, "--quiet");
    push_text(&mut arguments, "--message-format=json");
    push_text(&mut arguments, "--color=never");
    let ghost before_targets = arguments.deep_view();
    if config.checks_all_targets() {
        push_text(&mut arguments, "--all-targets");
    }
    feature_arguments(&mut arguments, config);
    let ghost before_lints = arguments.deep_view();
    let lints = compiler_arguments(config);
    if lints.len() > 0 {
        push_text(&mut arguments, "--");
        push_all(&mut arguments, &lints);
    }
    assert(arguments.deep_view()[2] == manifest_view);
    assert(arguments.deep_view() =~= spec_clippy_arguments(
        manifest_view,
        config,
        fail_fast,
        target_dir@,
    ));
    let mut environment: Vec<(String, String)> = Vec::new();
    offline_environment(&mut environment, offline);
    assert(environment_view(environment@) =~= spec_offline_environment(offline));
    ToolCommand {
        program: String::from_str("cargo"),
        arguments,
        current_dir: String::from_str(workspace_root),
        environment,
    }
}

/// Existing rustdoc flags followed by the profile's arguments.
pub fn rustdoc_flags(existing: &str, config: &ClippyConfig) -> (flags: String)
    ensures
        flags@ == appended_flags(existing@, spec_rustdoc_arguments(config)),
{
    let arguments = rustdoc_arguments(config);
    let mut flags = String::from_str(existing);
    let mut index: usize = 0;
    while index < arguments.len()
        invariant
            index <= arguments@.len(),
            flags@ == appended_flags(existing@, arguments.deep_view().subrange(0, index as int)),
        decreases arguments@.len() - index,
    {
        proof {
            let after = arguments.deep_view().subrange(0, index + 1);
            assert(after.drop_last() =~= arguments.deep_view().subrange(0, index as int));
        }
        if flags.as_str().unicode_len() > 0 {
            flags.append(" ");
        }
        flags.append(arguments[index].as_str());
        index = index + 1;
    }
    assert(arguments.deep_view().subrange(0, arguments@.len() as int) =~= arguments.deep_view());
    flags
}

/// The rustdoc command for the workspace, with Cargo artifacts in
/// `target_dir`; `existing_flags` holds the caller's `RUSTDOCFLAGS`.
pub fn rustdoc_command(
    workspace_root: &str,
    config: &ClippyConfig,
    fail_fast: bool,
    target_dir: &str,
    existing_flags: &str,
    offline: bool,
) -> (command: ToolCommand)
    ensures
        !verbatim(workspace_root@) ==> joined_onto(
            command.arguments.deep_view()[2],
            workspace_root@,
            "Cargo.toml"@,
        ),
        command.program@ == "cargo"@,
        command.current_dir@ == workspace_root@,
        command.arguments@.len() > 2,
        command.arguments.deep_view() == spec_rustdoc_command_arguments(
            command.arguments.deep_view()[2],
            config,
            fail_fast,
            target_dir@,
        ),
        environment_view(command.environment@) == seq![
            ("RUSTDOCFLAGS"@, appended_flags(existing_flags@, spec_rustdoc_arguments(config))),
        ] + spec_offline_environment(offline),
{
    let manifest = manifest_path(workspace_root);
    let ghost manifest_view = manifest@;
    let mut arguments: Vec<String> = Vec::new();
    push_text(&mut arguments, "doc");
    push_text(&mut arguments, "--manifest-path");
    push_owned(&mut arguments, manifest);
    push_text(&mut arguments, "--target-dir");
    push_text(&mut arguments, target_dir);
    push_text(&mut arguments, "--workspace");
    push_text(&mut arguments, "--locked");
    push_text(&mut arguments, "--no-deps");
    job_arguments(&mut arguments, fail_fast);
    push_text(&mut arguments, "--quiet");
    push_text(&mut arguments, "--message-format=json");
    push_text(&mut arguments, "--color=never");
    feature_arguments(&mut arguments, config);
    assert(arguments.deep_view()[2] == manifest_view);
    assert(arguments.deep_view() =~= spec_rustdoc_command_arguments(
        manifest_view,
        config,
        fail_fast,
        target_dir@,
    ));
    let mut environment: Vec<(String, String)> = Vec::new();
    environment.push((String::from_str("RUSTDOCFLAGS"), rustdoc_flags(existing_flags, config)));
    offline_environment(&mut environment, offline);
    assert(environment_view(environment@) =~= seq![
        ("RUSTDOCFLAGS"@, appended_flags(existing_flags@, spec_rustdoc_arguments(config))),
    ] + spec_offline_environment(offline));
    ToolCommand {
        program: String::from_str("cargo"),
        arguments,
        current_dir: String::from_str(workspace_root),
        environment,
    }
}

/// The compiler run that reports private dead code, with build artifacts in
/// `target_dir`.
pub fn dead_code_command(workspace_root: &str, target_dir: &str, offline: bool) -> (command:
    ToolCommand)
    ensures
        !verbatim(workspace_root@) ==> joined_onto(
            command.arguments.deep_view()[5],
            workspace_root@,
            "Cargo.toml"@,
        ),
        command.program@ == "rustup"@,
        command.current_dir@ == workspace_root@,
        command.arguments@.len() > 5,
        command.arguments.deep_view() == spec_dead_code_arguments(
            command.arguments.deep_view()[5],
            target_dir@,
        ),
        environment_view(command.environment@) == spec_offline_environment(offline),
{
    let manifest = manifest_path(workspace_root);
    let ghost manifest_view = manifest@;
    let mut arguments: Vec<String> = Vec::new();
    push_text(&mut arguments, "run");
    push_text(&mut arguments, SEMANTIC_TOOLCHAIN);
    push_text(&mut arguments, "cargo");
    push_text(&mut arguments, "check");
    push_text(&mut arguments, "--manifest-path");
    push_owned(&mut arguments, manifest);
    push_text(&mut arguments, "--target-dir");
    push_text(&mut arguments, target_dir);
    push_text(&mut arguments, "--workspace");
    push_text(&mut arguments, "--all-targets");
    push_text(&mut arguments, "--all-features");
    push_text(&mut arguments, "--locked");
    push_text(&mut arguments, "--message-format=json");
    push_text(&mut arguments, "--color=never");
    assert(arguments.deep_view()[5] == manifest_view);
    assert(arguments.deep_view() =~= spec_dead_code_arguments(manifest_view, target_dir@));
    let mut environment: Vec<(String, String)> = Vec::new();
    offline_environment(&mut environment, offline);
    assert(environment_view(environment@) =~= spec_offline_environment(offline));
    ToolCommand {
        program: String::from_str("rustup"),
        arguments,
        current_dir: String::from_str(workspace_root),
        environment,
    }
}

/// The semantic analyzer run through `executable`, with an optional
/// configuration file and crates to leave out.
pub fn analyzer_command(
    executable: &str,
    workspace_root: &str,
    config_file: Option<&str>,
    excluded_crates: &Vec<String>,
    offline: bool,
) -> (command: ToolCommand)
    ensures
        !verbatim(workspace_root@) ==> joined_onto(
            command.arguments.deep_view()[3],
            workspace_root@,
            "Cargo.toml"@,
        ),
        command.program@ == executable@,
        command.current_dir@ == workspace_root@,
        command.arguments@.len() > 3,
        command.arguments.deep_view() == spec_analyzer_arguments(
            command.arguments.deep_view()[3],
            match config_file {
                Some(path) => Some(path@),
                None => None,
            },
            excluded_crates.deep_view(),
        ),
        environment_view(command.environment@) == seq![
            ("AXIOM_INTERNAL_SEMANTIC_CONFIG"@, "1"@),
            ("RUSTUP_TOOLCHAIN"@, SEMANTIC_TOOLCHAIN@),
        ] + spec_offline_environment(offline),
{
    let manifest = manifest_path(workspace_root);
    let ghost manifest_view = manifest@;
    let mut arguments: Vec<String> = Vec::new();
    push_text(&mut arguments, "__semantic");
    push_text(&mut arguments, "check");
    push_text(&mut arguments, "--manifest-path");
    push_owned(&mut arguments, manifest);
    push_text(&mut arguments, "--output-format");
    push_text(&mut arguments, "json");
    push_text(&mut arguments, "--color");
    push_text(&mut arguments, "never");
    push_text(&mut arguments, "-W");
    push_text(&mut arguments, "hawk::test_only");
    push_text(&mut arguments, "-W");
    push_text(&mut arguments, "hawk::unnecessary_crate_visibility");
    let ghost before_config = arguments.deep_view();
    match config_file {
        Some(path) => {
            push_text(&mut arguments, "--config");
            push_text(&mut arguments, path);
        },
        None => {},
    }
    let ghost before_crates = arguments.deep_view();
    let mut index: usize = 0;
    while index < excluded_crates.len()
        invariant
            index <= excluded_crates@.len(),
            arguments.deep_view() == before_crates + exclusion_arguments(
                excluded_crates.deep_view().subrange(0, index as int),
            ),
        decreases excluded_crates@.len() - index,
    {
        push_text(&mut arguments, "--exclude-crate");
        push_owned(&mut arguments, excluded_crates[index].clone());
        proof {
            let after = excluded_crates.deep_view().subrange(0, index + 1);
            assert(after.drop_last() =~= excluded_crates.deep_view().subrange(0, index as int));
            assert(arguments.deep_view() =~= before_crates + exclusion_arguments(after));
        }
        index = index + 1;
    }
    assert(excluded_crates.deep_view().subrange(0, excluded_crates@.len() as int)
        =~= excluded_crates.deep_view());
    assert(arguments.deep_view()[3] == manifest_view);
    assert(arguments.deep_view() =~= spec_analyzer_arguments(
        manifest_view,
        match config_file {
            Some(path) => Some(path@),
            None => None,
        },
        excluded_crates.deep_view(),
    ));
    let mut environment: Vec<(String, String)> = Vec::new();
    environment.push(
        (String::from_str("AXIOM_INTERNAL_SEMANTIC_CONFIG"), String::from_str("1")),
    );
    environment.push((String::from_str("RUSTUP_TOOLCHAIN"), String::from_str(SEMANTIC_TOOLCHAIN)));
    offline_environment(&mut environment, offline);
    assert(environment_view(environment@) =~= seq![
        ("AXIOM_INTERNAL_SEMANTIC_CONFIG"@, "1"@),
        ("RUSTUP_TOOLCHAIN"@, SEMANTIC_TOOLCHAIN@),
    ] + spec_offline_environment(offline));
    ToolCommand {
        program: String::from_str(executable),
        arguments,
        current_dir: String::from_str(workspace_root),
        environment,
    }
}

} // verus!
