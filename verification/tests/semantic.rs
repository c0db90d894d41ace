use cargo_policy::diagnostic::{Position, SourceSpan};
use cargo_policy::facts::{
    AnalysisInput, CodebaseFacts, RustEdition, SemanticFindingFact, SemanticFindingKind,
    SourceUnit,
};
use cargo_policy::semantic::{
    apply_report, axiom_rule_to_hawk, dead_code_outcome, finish_stream, handle_event, hir_kind,
    parse_messages, push_unique, source_location, EventStep, RawIdentity, RawLocation,
    RawSemanticDiagnostic, RustcCode, RustcDiagnostic, RustcMessage, RustcSpan, SemanticReport,
    StreamEvent,
};
use cargo_policy::semantic_config::{normalize_overrides, take_string_array, ConfigValue};

fn workspace_input() -> AnalysisInput {
    let text = "pub fn example() {}\n".to_owned();
    AnalysisInput {
        workspace_root: "/workspace".to_owned(),
        sources: vec![SourceUnit::new(
            "/workspace/src/lib.rs".to_owned(),
            "src/lib.rs".to_owned(),
            RustEdition::Edition2024,
            text,
        )],
    }
}

fn location(file: &str) -> RawLocation {
    RawLocation {
        file: file.to_owned(),
        byte_start: Some(4),
        byte_end: Some(6),
        line: Some(1),
        column: Some(5),
        end_line: Some(1),
        end_column: Some(7),
    }
}

#[test]
fn maps_every_hir_rule_to_the_embedded_analyzer() {
    for (rule, code, kind) in [
        ("dead-code/public", "hawk::dead_public", SemanticFindingKind::DeadPublic),
        ("dead-code/test-only", "hawk::test_only", SemanticFindingKind::TestOnly),
        (
            "visibility/unnecessary-public",
            "hawk::unnecessary_public",
            SemanticFindingKind::UnnecessaryPublic,
        ),
        (
            "visibility/unnecessary-restricted",
            "hawk::unnecessary_restricted_visibility",
            SemanticFindingKind::UnnecessaryRestrictedVisibility,
        ),
        (
            "visibility/unnecessary-crate",
            "hawk::unnecessary_crate_visibility",
            SemanticFindingKind::UnnecessaryCrateVisibility,
        ),
    ] {
        assert_eq!(axiom_rule_to_hawk(rule), Some(code));
        assert_eq!(hir_kind(code), Some(kind));
    }
    assert_eq!(axiom_rule_to_hawk("dead-code/private"), None);
    assert_eq!(hir_kind("hawk::unknown"), None);
}

#[test]
fn rewrites_axiom_override_ids_for_the_internal_config() {
    let entry = vec![(
        "rule".to_owned(),
        ConfigValue::Text("dead-code/public".to_owned()),
    )];
    let mut config = vec![(
        "override".to_owned(),
        ConfigValue::Array(vec![ConfigValue::Table(entry)]),
    )];

    normalize_overrides(&mut config).expect("valid override");
    let ConfigValue::Array(items) = &config[0].1 else {
        panic!("array");
    };
    let ConfigValue::Table(entry) = &items[0] else {
        panic!("table");
    };
    assert!(entry
        .iter()
        .any(|(key, value)| key == "lint"
            && matches!(value, ConfigValue::Text(lint) if lint == "hawk::dead_public")));
    assert!(!entry.iter().any(|(key, _)| key == "rule"));
}

#[test]
fn rejects_override_rules_that_name_no_semantic_rule() {
    let mut config = vec![(
        "override".to_owned(),
        ConfigValue::Array(vec![ConfigValue::Table(vec![(
            "rule".to_owned(),
            ConfigValue::Text("size/file-max-lines".to_owned()),
        )])]),
    )];
    let error = normalize_overrides(&mut config).expect_err("unsupported rule");
    assert_eq!(
        error.message,
        "semantic override references unsupported rule `size/file-max-lines`"
    );
    let mut config = vec![(
        "override".to_owned(),
        ConfigValue::Array(vec![ConfigValue::Table(vec![(
            "rule".to_owned(),
            ConfigValue::Other("1".to_owned()),
        )])]),
    )];
    let error = normalize_overrides(&mut config).expect_err("rule is not a string");
    assert_eq!(error.message, "semantic.override.rule must be a string");
}

#[test]
fn takes_excluded_crates_out_of_the_semantic_table() {
    let mut table = vec![
        (
            "exclude-crates".to_owned(),
            ConfigValue::Array(vec![ConfigValue::Text("fixtures".to_owned())]),
        ),
        ("production".to_owned(), ConfigValue::Other("[]".to_owned())),
    ];
    let crates = take_string_array(&mut table, "exclude-crates").expect("strings");
    assert_eq!(crates, vec!["fixtures".to_owned()]);
    assert_eq!(table.len(), 1);
    assert!(take_string_array(&mut table, "exclude-crates").expect("absent").is_empty());
    let mut table = vec![("exclude-crates".to_owned(), ConfigValue::Text("x".to_owned()))];
    let error = take_string_array(&mut table, "exclude-crates").expect_err("not an array");
    assert_eq!(error.message, "semantic.exclude-crates must be an array of strings");
    let mut table = vec![(
        "exclude-crates".to_owned(),
        ConfigValue::Array(vec![ConfigValue::Other("1".to_owned())]),
    )];
    let error = take_string_array(&mut table, "exclude-crates").expect_err("not strings");
    assert_eq!(error.message, "semantic.exclude-crates must contain only strings");
}

#[test]
fn accepts_only_locations_from_loaded_workspace_sources() {
    let input = workspace_input();
    let (path, span) = source_location(&input, &location("src/lib.rs")).expect("workspace location");
    assert_eq!(path, "src/lib.rs");
    assert_eq!(span.byte_start, 4);

    let external = location("../dependency/src/lib.rs");
    assert!(source_location(&input, &external).is_none());
}

#[test]
fn absolute_locations_are_made_relative_and_byte_ranges_default() {
    let input = workspace_input();
    let mut absolute = location("/workspace/src/lib.rs");
    absolute.byte_end = None;
    absolute.end_line = None;
    absolute.end_column = None;
    let (path, span) = source_location(&input, &absolute).expect("absolute location");
    assert_eq!(path, "src/lib.rs");
    assert_eq!(span.byte_end, 5);
    assert_eq!(span.end, Position { line: 1, column: 6 });

    let mut without_range = location("src\\lib.rs");
    without_range.byte_start = None;
    let (_, span) = source_location(&input, &without_range).expect("whole-file location");
    assert_eq!(span.byte_start, 0);
    assert_eq!(span.byte_end, 1);
    assert_eq!(span.start, Position { line: 1, column: 1 });
}

fn finding(kind: SemanticFindingKind, start: u32) -> SemanticFindingFact {
    let position = Position { line: 1, column: start + 1 };
    SemanticFindingFact {
        kind,
        item: "example".to_owned(),
        item_kind: None,
        path: "src/lib.rs".to_owned(),
        span: SourceSpan { byte_start: start, byte_end: start + 1, start: position, end: position },
    }
}

#[test]
fn semantic_findings_are_recorded_once() {
    let mut facts = CodebaseFacts::new();
    push_unique(&mut facts, finding(SemanticFindingKind::DeadPublic, 4));
    push_unique(&mut facts, finding(SemanticFindingKind::DeadPublic, 4));
    push_unique(&mut facts, finding(SemanticFindingKind::TestOnly, 4));
    push_unique(&mut facts, finding(SemanticFindingKind::DeadPublic, 5));
    assert_eq!(facts.semantic_findings.len(), 3);
}

fn analyzer_diagnostic(category: &str, code: &str) -> RawSemanticDiagnostic {
    RawSemanticDiagnostic {
        category: category.to_owned(),
        code: code.to_owned(),
        identity: Some(RawIdentity { item: "example".to_owned(), kind: "fn".to_owned() }),
        location: Some(location("src/lib.rs")),
        reason: None,
    }
}

#[test]
fn analyzer_reports_add_findings_and_check_their_schema() {
    let input = workspace_input();
    let mut facts = CodebaseFacts::new();
    let report = SemanticReport {
        schema_version: 5,
        diagnostics: vec![
            analyzer_diagnostic("lint", "hawk::dead_public"),
            analyzer_diagnostic("lint", "hawk::unknown"),
        ],
    };
    apply_report(&input, &mut facts, report).expect("valid report");
    assert_eq!(facts.semantic_findings.len(), 1);
    assert_eq!(facts.semantic_findings[0].kind, SemanticFindingKind::DeadPublic);
    assert_eq!(facts.semantic_findings[0].item_kind.as_deref(), Some("fn"));

    let stale = SemanticReport { schema_version: 4, diagnostics: Vec::new() };
    let error = apply_report(&input, &mut facts, stale).expect_err("old schema");
    assert_eq!(
        error.message,
        "semantic analyzer schema 4 is incompatible with expected schema 5"
    );

    let configuration = SemanticReport {
        schema_version: 5,
        diagnostics: vec![analyzer_diagnostic("configuration", "stale-exception")],
    };
    let error = apply_report(&input, &mut facts, configuration).expect_err("configuration");
    assert_eq!(
        error.message,
        "semantic configuration stale-exception: invalid or stale exception"
    );
}

#[test]
fn stream_events_add_findings_until_completion() {
    let input = workspace_input();
    let mut facts = CodebaseFacts::new();
    let event = StreamEvent {
        stream_schema_version: 1,
        kind: "private_dead_code".to_owned(),
        diagnostic: Some(analyzer_diagnostic("lint", "hawk::test_only")),
        report: None,
    };
    assert!(matches!(handle_event(event, &input, &mut facts), Ok(EventStep::Finding(true))));
    let complete = StreamEvent {
        stream_schema_version: 1,
        kind: "complete".to_owned(),
        diagnostic: None,
        report: None,
    };
    assert!(matches!(handle_event(complete, &input, &mut facts), Ok(EventStep::Complete(None))));
    let unknown = StreamEvent {
        stream_schema_version: 1,
        kind: "progress".to_owned(),
        diagnostic: None,
        report: None,
    };
    let error = handle_event(unknown, &input, &mut facts).expect_err("unknown event");
    assert_eq!(error.message, "semantic analyzer returned unknown stream event `progress`");
    let error = finish_stream(true, "exit status: 0", "", None).expect_err("no report");
    assert_eq!(error.message, "semantic analysis stream ended before completion");
    let error = finish_stream(false, "exit status: 3", "  \n", None).expect_err("failed");
    assert_eq!(error.message, "semantic analysis failed with exit status: 3");
}

fn rustc_message(code: Option<&str>, level: &str, message: &str) -> Option<RustcMessage> {
    Some(RustcMessage {
        message: Some(RustcDiagnostic {
            message: message.to_owned(),
            level: level.to_owned(),
            code: code.map(|code| RustcCode { code: code.to_owned() }),
            spans: vec![RustcSpan {
                file_name: "src/lib.rs".to_owned(),
                byte_start: 4,
                byte_end: 6,
                line_start: 1,
                line_end: 1,
                column_start: 5,
                column_end: 7,
                is_primary: true,
            }],
        }),
    })
}

#[test]
fn dead_code_output_counts_findings_and_other_errors() {
    let input = workspace_input();
    let mut facts = CodebaseFacts::new();
    let lines = vec![
        None,
        rustc_message(Some("dead_code"), "warning", "function `example` is never used"),
        rustc_message(Some("E0425"), "error", "cannot find value"),
        rustc_message(None, "warning", "unused"),
    ];
    let (dead, errors) = parse_messages(&input, &mut facts, lines);
    assert_eq!(dead, 1);
    assert_eq!(errors, vec!["cannot find value".to_owned()]);
    assert_eq!(facts.semantic_findings[0].kind, SemanticFindingKind::PrivateDeadCode);
    assert!(dead_code_outcome(false, 1, Vec::new(), "").is_ok());
    let error = dead_code_outcome(false, 1, errors, "").expect_err("other errors");
    assert_eq!(
        error.message,
        "rustc dead-code analysis could not complete: cannot find value"
    );
    let error = dead_code_outcome(false, 0, Vec::new(), " boom \n").expect_err("no findings");
    assert_eq!(error.message, "rustc dead-code analysis could not complete: boom");
}

#[test]
fn command_failures_report_trimmed_stderr() {
    let failed = cargo_policy::semantic::command_failure("semantic analysis", "exit status: 1", "\t boom \u{3000}\n");
    assert_eq!(failed.message, "semantic analysis failed: boom");
    let silent = cargo_policy::semantic::command_failure("semantic analysis", "exit status: 1", " \n\r ");
    assert_eq!(silent.message, "semantic analysis failed with exit status: 1");
}
