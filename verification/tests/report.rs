use cargo_policy::diagnostic::{Diagnostic, Level, Position, RuleClass, SourceSpan};
use cargo_policy::facts::{AnalysisError, AnalysisInput, RustEdition, SourceUnit};
use cargo_policy::human::{location, operational, paint, policy_diagnostics, severity_color, snippet, tool_diagnostic};
use cargo_policy::report::{
    check, is_compiler_error_code, level_name, operational as json_operational, policy, tool,
    write_human,
};
use cargo_policy::tools::{ToolDiagnostic, ToolReport};

fn span(line: u32, column: u32, end_column: u32) -> SourceSpan {
    SourceSpan {
        byte_start: 0,
        byte_end: 1,
        start: Position { line, column },
        end: Position { line, column: end_column },
    }
}

fn policy_finding(level: Level) -> Diagnostic {
    Diagnostic {
        rule_id: "size/function-max-lines".to_owned(),
        class: RuleClass::Budget,
        level,
        message: "function is too long".to_owned(),
        help: "split it".to_owned(),
        path: "src/lib.rs".to_owned(),
        span: span(1, 4, 9),
        observed: Some(51),
        limit: Some(50),
        unit: None,
    }
}

fn tool_finding(tool: &'static str, rule: &str, level: Level) -> ToolDiagnostic {
    ToolDiagnostic {
        tool,
        rule_id: rule.to_owned(),
        level,
        message: "unneeded `return` statement".to_owned(),
        help: None,
        path: Some("src/lib.rs".to_owned()),
        span: None,
        rendered: None,
    }
}

fn input() -> AnalysisInput {
    AnalysisInput {
        workspace_root: "/workspace".to_owned(),
        sources: vec![SourceUnit::new(
            "/workspace/src/lib.rs".to_owned(),
            "src/lib.rs".to_owned(),
            RustEdition::Edition2021,
            "pub fn small() {}\n".to_owned(),
        )],
    }
}

#[test]
fn policy_settings_name_the_rule_level() {
    let hint = policy(&policy_finding(Level::Warn));
    assert_eq!(hint.key, "rules.\"size/function-max-lines\".level");
    assert_eq!(hint.level, "warn");
    assert_eq!(
        write_human("policy.toml", &hint),
        "  = policy: rules.\"size/function-max-lines\".level = \"warn\" in policy.toml\n  = configure: \"deny\" = error, \"warn\" = warning, \"allow\" = disabled\n"
    );
    assert_eq!(level_name(Level::Allow), "allow");
}

#[test]
fn tool_settings_exist_only_for_configurable_lints() {
    let hint = tool(&tool_finding("clippy", "clippy::needless_return", Level::Deny)).expect("lint");
    assert_eq!(hint.key, "tools.clippy.lints.\"clippy::needless_return\"");
    assert_eq!(hint.level, "deny");
    assert!(tool(&tool_finding("clippy", "clippy", Level::Deny)).is_none());
    assert!(tool(&tool_finding("clippy", "E0308", Level::Deny)).is_none());
    assert!(tool(&tool_finding("cargo", "cargo::lint", Level::Deny)).is_none());
    assert!(is_compiler_error_code("E0425"));
    assert!(!is_compiler_error_code("E042"));
    assert!(!is_compiler_error_code("W0425"));
    assert!(!is_compiler_error_code("E04a5"));
}

#[test]
fn summary_lines_count_errors_and_warnings() {
    let diagnostics = vec![policy_finding(Level::Warn)];
    assert_eq!(
        cargo_policy::report::write(&diagnostics, &[], 1, false),
        "axiom check found 0 error(s) and 1 warning(s)\n"
    );
    let reports = vec![ToolReport { name: "clippy", diagnostics: Vec::new() }];
    assert_eq!(cargo_policy::report::write(&[], &reports, 1, false), "axiom check passed (1 Rust files; clippy passed)\n");
    assert_eq!(cargo_policy::report::write(&[], &[], 0, false), "axiom check passed (0 Rust files)\n");
    assert_eq!(
        cargo_policy::report::write(&diagnostics, &[], 1, true),
        "axiom check stopped after first finding (0 error(s) and 1 warning(s))\n"
    );
}

#[test]
fn json_reports_count_and_classify_findings() {
    let diagnostics = vec![policy_finding(Level::Deny)];
    let reports = vec![ToolReport {
        name: "clippy",
        diagnostics: vec![tool_finding("clippy", "clippy::needless_return", Level::Warn)],
    }];
    let output = check(&diagnostics, &reports, "policy.toml", false);
    assert_eq!(output.schema_version, 1);
    assert_eq!(output.outcome, "violations");
    assert_eq!(output.summary.errors, 1);
    assert_eq!(output.summary.warnings, 1);
    assert_eq!(output.diagnostics[0].kind, "policy");
    assert_eq!(output.diagnostics[0].level, "error");
    assert_eq!(output.diagnostics[0].observed, Some(51));
    let configuration = output.diagnostics[0].configuration.as_ref().expect("setting");
    assert_eq!(configuration.key, "rules.\"size/function-max-lines\".level");
    assert_eq!(configuration.allow, "disabled");
    assert_eq!(output.diagnostics[1].kind, "tool");
    assert_eq!(output.diagnostics[1].level, "warning");

    let warned = check(&[], &reports, "policy.toml", false);
    assert_eq!(warned.outcome, "passed");
    let stopped = check(&[], &reports, "policy.toml", true);
    assert_eq!(stopped.outcome, "violations");

    let errors = vec![AnalysisError::new("could not parse".to_owned())];
    let failed = json_operational(&errors);
    assert_eq!(failed.outcome, "error");
    assert_eq!(failed.summary.errors, 1);
    assert_eq!(failed.diagnostics[0].kind, "operational");
}

#[test]
fn human_findings_show_the_source_line_and_a_marker() {
    assert_eq!(severity_color("warning"), "33");
    assert_eq!(severity_color("error"), "31");
    assert_eq!(paint("x", "31", true), "\u{1b}[31mx\u{1b}[0m");
    assert_eq!(paint("x", "31", false), "x");
    let input = input();
    assert_eq!(
        snippet(&input.sources[0], span(1, 4, 9), false),
        "   |\n 1 | pub fn small() {}\n   |    ^^^^^\n"
    );
    assert_eq!(snippet(&input.sources[0], span(3, 1, 1), false), "");
    assert_eq!(
        location("src/other.rs", span(2, 1, 2), &input, false),
        " --> src/other.rs:2:1\n"
    );
    let text = policy_diagnostics(&[policy_finding(Level::Warn)], &input, "policy.toml", false);
    assert!(text.starts_with("warning[size/function-max-lines]: function is too long\n --> src/lib.rs:1:4\n"));
    assert!(text.contains("  = limit: 50 physical lines\n  = help: split it\n"));
    assert!(text.ends_with("disabled\n\n"));
    let shown = tool_diagnostic(
        &tool_finding("clippy", "clippy::needless_return", Level::Deny),
        &input,
        "policy.toml",
        false,
    );
    assert!(shown.starts_with("error[clippy::clippy::needless_return]: unneeded `return` statement\n --> src/lib.rs\n"));
    let mut rendered = tool_finding("clippy", "clippy", Level::Warn);
    rendered.rendered = Some("warning: rendered".to_owned());
    assert_eq!(tool_diagnostic(&rendered, &input, "policy.toml", false), "warning: rendered\n\n");
    let errors = vec![AnalysisError::new("broken".to_owned())];
    assert_eq!(
        operational(&errors, None, false),
        "error[policy/tool]: broken\n\naxiom check could not complete\n"
    );
}
