use cargo_policy::check::{drop_warnings, exit_code, Analysis};
use cargo_policy::config::ToolConfig;
use cargo_policy::diagnostic::{Diagnostic, Level, Position, RuleClass, SourceSpan};
use cargo_policy::lint_levels::LintLevels;
use cargo_policy::report::check;
use cargo_policy::selection::{Family, Selection};
use cargo_policy::tools::{any_enabled, enabled, tools_to_run, ToolDiagnostic, ToolReport};

fn tool_finding(rule: &str, level: Level) -> ToolDiagnostic {
    ToolDiagnostic {
        tool: "clippy",
        rule_id: rule.to_owned(),
        level,
        message: "message".to_owned(),
        help: None,
        path: None,
        span: None,
        rendered: None,
    }
}

fn policy_finding(level: Level) -> Diagnostic {
    let position = Position { line: 1, column: 1 };
    Diagnostic {
        rule_id: "size/file-max-lines".to_owned(),
        class: RuleClass::Budget,
        level,
        message: "file is too long".to_owned(),
        help: "split it".to_owned(),
        path: "src/lib.rs".to_owned(),
        span: SourceSpan { byte_start: 0, byte_end: 0, start: position, end: position },
        observed: Some(201),
        limit: Some(200),
        unit: None,
    }
}

#[test]
fn json_outcome_passes_exactly_when_the_exit_status_is_zero() {
    let cases = [
        (vec![policy_finding(Level::Warn)], false),
        (vec![policy_finding(Level::Deny)], false),
        (vec![policy_finding(Level::Warn)], true),
        (Vec::new(), false),
    ];
    for (diagnostics, stopped) in cases {
        let output = check(&diagnostics, &[], "policy.toml", stopped);
        let analysis = Analysis { diagnostics, tool_reports: Vec::new(), stopped };
        assert_eq!(output.outcome == "passed", exit_code(&analysis) == 0);
    }
}

#[test]
fn family_selectors_isolate_and_union() {
    let everything = Selection::from_flags([false; 6]);
    for family in [Family::Size, Family::Testing, Family::Clippy, Family::Rustdoc] {
        assert!(everything.includes(family));
    }
    let union = Selection::from_flags([true, true, false, false, false, false]);
    assert!(union.includes(Family::Size));
    assert!(union.includes(Family::Testing));
    assert!(!union.includes(Family::DeadCode));
    assert!(!union.includes(Family::Clippy));
}

#[test]
fn explicit_selectors_do_not_enable_disabled_tools() {
    let mut config = ToolConfig::new();
    let clippy = Selection::from_flags([false, false, false, false, true, true]);
    assert_eq!(tools_to_run(&config, clippy), vec![Family::Clippy, Family::Rustdoc]);
    config.clippy.check_docs = false;
    assert_eq!(tools_to_run(&config, clippy), vec![Family::Clippy]);
    config.clippy.enabled = false;
    assert!(!enabled(&config, clippy, Family::Clippy));
    assert!(!any_enabled(&config, clippy));
    assert!(tools_to_run(&config, clippy).is_empty());
}

#[test]
fn ignoring_warnings_removes_only_warnings() {
    let mut report = ToolReport {
        name: "clippy",
        diagnostics: vec![
            tool_finding("clippy::a", Level::Warn),
            tool_finding("clippy::b", Level::Deny),
            tool_finding("clippy::c", Level::Warn),
            tool_finding("clippy::d", Level::Deny),
        ],
    };
    drop_warnings(&mut report);
    let rules: Vec<_> = report.diagnostics.iter().map(|item| item.rule_id.as_str()).collect();
    assert_eq!(rules, ["clippy::b", "clippy::d"]);
}

#[test]
fn lint_levels_keep_the_last_setting_of_each_lint_in_order() {
    let mut levels = LintLevels::new();
    assert_eq!(levels.insert("clippy::b".to_owned(), Level::Warn), None);
    assert_eq!(levels.insert("clippy::a".to_owned(), Level::Deny), None);
    assert_eq!(levels.insert("clippy::b".to_owned(), Level::Allow), Some(Level::Warn));
    assert_eq!(levels.len(), 2);
    assert_eq!(levels.entry(0), ("clippy::a", Level::Deny));
    assert_eq!(levels.entry(1), ("clippy::b", Level::Allow));
}
