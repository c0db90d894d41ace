use cargo_policy::facts::{RustEdition, SourceUnit};
use cargo_policy::init::{default_policy, ACTIVE_SEMANTIC_RULES, LIBRARY_SEMANTIC_EXAMPLE};
use cargo_policy::workspace::{
    build_globs, parse_edition, selected_source, sort_sources, PackageMetadata, PackageRoot, Workspace,
};

#[test]
fn editions_default_to_2024() {
    assert_eq!(parse_edition("2015"), RustEdition::Edition2015);
    assert_eq!(parse_edition("2018"), RustEdition::Edition2018);
    assert_eq!(parse_edition("2021"), RustEdition::Edition2021);
    assert_eq!(parse_edition("2024"), RustEdition::Edition2024);
    assert_eq!(parse_edition("2030"), RustEdition::Edition2024);
}

#[test]
fn sources_take_the_edition_of_their_innermost_package() {
    let packages = vec![
        PackageRoot { path: "/ws".to_owned(), edition: RustEdition::Edition2018 },
        PackageRoot { path: "/ws/crates/inner".to_owned(), edition: RustEdition::Edition2021 },
    ];
    assert_eq!(
        PackageRoot::edition_for("/ws/crates/inner/src/lib.rs", &packages),
        RustEdition::Edition2021
    );
    assert_eq!(PackageRoot::edition_for("/ws/src/main.rs", &packages), RustEdition::Edition2018);
    assert_eq!(PackageRoot::edition_for("/elsewhere/lib.rs", &packages), RustEdition::Edition2024);
}

#[test]
fn the_last_of_the_deepest_containing_packages_decides() {
    let packages = vec![
        PackageRoot { path: "a".to_owned(), edition: RustEdition::Edition2018 },
        PackageRoot { path: "b".to_owned(), edition: RustEdition::Edition2021 },
        PackageRoot { path: "c".to_owned(), edition: RustEdition::Edition2015 },
    ];
    assert_eq!(
        PackageRoot::deepest_edition(&packages, &[true, true, false], &[3, 2, 9]),
        RustEdition::Edition2018
    );
    assert_eq!(
        PackageRoot::deepest_edition(&packages, &[true, true, false], &[2, 2, 9]),
        RustEdition::Edition2021
    );
    assert_eq!(
        PackageRoot::deepest_edition(&packages, &[false, false, false], &[2, 2, 9]),
        RustEdition::Edition2024
    );
}

#[test]
fn workspace_members_give_package_roots_and_binaries() {
    let packages = vec![
        PackageMetadata {
            id: "app".to_owned(),
            manifest_path: "/ws/app/Cargo.toml".to_owned(),
            edition: "2021".to_owned(),
            binary_targets: vec![false, true],
        },
        PackageMetadata {
            id: "dependency".to_owned(),
            manifest_path: "/registry/dependency/Cargo.toml".to_owned(),
            edition: "2018".to_owned(),
            binary_targets: vec![true],
        },
    ];
    let workspace = Workspace::from_metadata(
        "/ws".to_owned(),
        "/ws/target".to_owned(),
        &packages,
        &["app".to_owned()],
    );
    assert_eq!(workspace.root(), "/ws");
    assert_eq!(workspace.target_path(), "/ws/target");
    assert!(workspace.has_binary_targets());
    assert_eq!(workspace.packages().len(), 1);
    assert_eq!(workspace.packages()[0].path, "/ws/app");
    assert_eq!(workspace.packages()[0].edition, RustEdition::Edition2021);
    assert_eq!(workspace.policy_path(), "/ws/policy.toml");
    let library = Workspace::from_metadata("/ws".to_owned(), "/t".to_owned(), &packages[..1], &[]);
    assert!(!library.has_binary_targets());
}

#[test]
fn source_globs_select_workspace_relative_paths() {
    let included = build_globs(&["**/*.rs".to_owned()]).expect("valid globs");
    let excluded = build_globs(&["src/**".to_owned()]).expect("valid globs");
    assert_eq!(
        selected_source("/ws/tests/it.rs", "/ws", &included, &excluded),
        Some("tests/it.rs".to_owned())
    );
    assert_eq!(selected_source("/ws/src/lib.rs", "/ws", &included, &excluded), None);
    assert_eq!(selected_source("/other/lib.rs", "/ws", &included, &excluded), None);
    let error = build_globs(&["[".to_owned()]).expect_err("invalid glob");
    assert!(error.message.starts_with("invalid source glob `[`: "));
}

#[test]
fn default_policy_depends_on_binary_targets() {
    let binary = default_policy(true);
    assert!(binary.contains("limit = 50"));
    assert!(binary.contains("profile = \"axiom\""));
    assert!(binary.ends_with(ACTIVE_SEMANTIC_RULES));
    assert!(binary.contains("[rules.\"dead-code/private\"]\nlevel = \"warn\""));
    let library = default_policy(false);
    assert!(library.ends_with(LIBRARY_SEMANTIC_EXAMPLE));
    assert!(library.contains("# [[semantic.production]]"));
}

fn unit(relative: &str) -> SourceUnit {
    SourceUnit::new(
        format!("/ws/{relative}"),
        relative.to_owned(),
        RustEdition::Edition2021,
        "fn f() {}\n".to_owned(),
    )
}

#[test]
fn sources_sort_by_path_components() {
    let sorted = sort_sources(vec![
        unit("src-x/a.rs"),
        unit("src/z.rs"),
        unit("src/b/c.rs"),
        unit("build.rs"),
    ]);
    let paths: Vec<_> = sorted.iter().map(|item| item.relative_path.as_str()).collect();
    assert_eq!(paths, vec!["build.rs", "src/b/c.rs", "src/z.rs", "src-x/a.rs"]);
}

#[test]
fn the_first_invalid_glob_is_reported_with_its_reason() {
    let patterns = vec!["src/**".to_owned(), "a{".to_owned(), "[".to_owned()];
    let error = build_globs(&patterns).expect_err("invalid glob");
    assert!(error.message.starts_with("invalid source glob `a{`: error parsing glob 'a{'"));
}
