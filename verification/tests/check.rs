use core::time::Duration;

use cargo_policy::check::{
    exit_code, fail_fast_order, fail_fast_report, FailFastStage, first_finding, sort_diagnostics, tool_step, Analysis, Event,
    Policies, Progress, RulePlan, State, ToolStep,
};
use cargo_policy::diagnostic::{Diagnostic, Level, Position, RuleClass, SourceSpan};
use cargo_policy::facts::AnalysisError;
use cargo_policy::selection::{Family, Selection};
use cargo_policy::tools::{RunEvent, ToolDiagnostic, ToolReport};

fn finding(path: &str, start: u32, rule: &str, level: Level) -> Diagnostic {
    let position = Position { line: 1, column: 1 };
    Diagnostic {
        rule_id: rule.to_owned(),
        class: RuleClass::Invariant,
        level,
        message: "message".to_owned(),
        help: "help".to_owned(),
        path: path.to_owned(),
        span: SourceSpan { byte_start: start, byte_end: start, start: position, end: position },
        observed: None,
        limit: None,
        unit: None,
    }
}

fn tool_finding(rule: &str, level: Level) -> ToolDiagnostic {
    ToolDiagnostic {
        tool: "clippy",
        rule_id: rule.to_owned(),
        level,
        message: "message".to_owned(),
        help: None,
        path: None,
        span: None,
        rendered: None,
    }
}

#[test]
fn warnings_do_not_fail_a_check_but_stopping_does() {
    let warned = Analysis {
        diagnostics: vec![finding("src/lib.rs", 0, "size/file-max-lines", Level::Warn)],
        tool_reports: Vec::new(),
        stopped: false,
    };
    assert_eq!(exit_code(&warned), 0);
    let stopped = Analysis { diagnostics: Vec::new(), tool_reports: Vec::new(), stopped: true };
    assert_eq!(exit_code(&stopped), 1);
    let denied = Analysis {
        diagnostics: Vec::new(),
        tool_reports: vec![ToolReport {
            name: "clippy",
            diagnostics: vec![tool_finding("clippy::needless_return", Level::Deny)],
        }],
        stopped: false,
    };
    assert_eq!(exit_code(&denied), 1);
}

#[test]
fn fail_fast_keeps_only_the_first_finding() {
    let report = ToolReport {
        name: "clippy",
        diagnostics: vec![
            tool_finding("clippy::a", Level::Warn),
            tool_finding("clippy::b", Level::Deny),
            tool_finding("clippy::c", Level::Deny),
        ],
    };
    let kept = fail_fast_report(report, true);
    assert_eq!(kept.diagnostics.len(), 1);
    assert_eq!(kept.diagnostics[0].rule_id, "clippy::b");
    match tool_step(Vec::new(), kept) {
        ToolStep::Stopped(analysis) => {
            assert!(analysis.stopped);
            assert_eq!(analysis.tool_reports.len(), 1);
        },
        ToolStep::Continue(_) => panic!("a finding stops the check"),
    }
    let clean = ToolReport { name: "rustdoc", diagnostics: Vec::new() };
    assert!(matches!(tool_step(Vec::new(), clean), ToolStep::Continue(reports) if reports.len() == 1));
    assert!(first_finding(Vec::new()).is_none());
    let first = first_finding(vec![
        finding("a.rs", 0, "size/x", Level::Deny),
        finding("b.rs", 0, "size/y", Level::Deny),
    ])
    .expect("finding");
    assert_eq!(first.diagnostics.len(), 1);
    assert_eq!(first.diagnostics[0].path, "a.rs");
}

#[test]
fn selected_rules_are_sorted_into_families() {
    let rules = vec![
        RulePlan { id: "size/function-max-lines".to_owned(), level: Level::Deny, hir: false },
        RulePlan { id: "testing/separate-test-files".to_owned(), level: Level::Warn, hir: false },
        RulePlan { id: "dead-code/private".to_owned(), level: Level::Warn, hir: false },
        RulePlan { id: "visibility/unnecessary-public".to_owned(), level: Level::Allow, hir: true },
        RulePlan { id: "dead-code/public".to_owned(), level: Level::Deny, hir: true },
        RulePlan { id: "other/rule".to_owned(), level: Level::Deny, hir: true },
    ];
    let everything = Policies::prepare(&rules, Selection::from_flags([false; 6]), false);
    assert_eq!(everything.size, vec![0]);
    assert_eq!(everything.testing, vec![1]);
    assert_eq!(everything.dead_code, vec![2, 4]);
    assert!(everything.visibility.is_empty());
    assert!(everything.collect_hir);
    assert!(everything.collect_private_dead_code);
    assert!(everything.has_family(Family::Size));
    assert!(!everything.has_family(Family::Visibility));
    assert!(!everything.is_empty());

    let quiet = Policies::prepare(&rules, Selection::from_flags([false; 6]), true);
    assert!(quiet.testing.is_empty());
    assert!(!quiet.collect_private_dead_code);

    let size_only = Policies::prepare(
        &rules,
        Selection::from_flags([true, false, false, false, false, false]),
        false,
    );
    assert_eq!(size_only.size, vec![0]);
    assert!(size_only.dead_code.is_empty());
    assert!(!size_only.has_semantic());
    assert!(size_only.has_syntax());
}

#[test]
fn diagnostics_are_ordered_by_path_offset_and_rule() {
    let sorted = sort_diagnostics(vec![
        finding("src/b.rs", 0, "size/a", Level::Deny),
        finding("src/a.rs", 9, "size/b", Level::Deny),
        finding("src/a.rs", 9, "size/a", Level::Deny),
        finding("src/a.rs", 2, "size/z", Level::Deny),
    ]);
    let order: Vec<_> = sorted
        .iter()
        .map(|item| (item.path.as_str(), item.span.byte_start, item.rule_id.as_str()))
        .collect();
    assert_eq!(
        order,
        vec![
            ("src/a.rs", 2, "size/z"),
            ("src/a.rs", 9, "size/a"),
            ("src/a.rs", 9, "size/b"),
            ("src/b.rs", 0, "size/a"),
        ]
    );
}

#[test]
fn comprehensive_checks_gather_worker_events() {
    let mut state = State::new(false, false);
    assert!(!state.complete());
    let shown = state.handle(Event::Tool(RunEvent::Started("clippy")), true);
    assert!(matches!(shown, Progress::ToolStarted("clippy")));
    let report = ToolReport {
        name: "clippy",
        diagnostics: vec![
            tool_finding("clippy::a", Level::Warn),
            tool_finding("clippy::b", Level::Deny),
        ],
    };
    let shown = state.handle(Event::Tool(RunEvent::Finished(report, Duration::from_millis(5))), true);
    assert!(matches!(shown, Progress::ToolFinished(_)));
    assert_eq!(state.tool_reports[0].diagnostics.len(), 1);
    let shown = state.handle(Event::ToolsComplete(Ok(())), true);
    assert!(matches!(shown, Progress::Nothing));
    let shown = state.handle(Event::Policies(Ok(Vec::new()), Duration::ZERO), true);
    assert!(matches!(shown, Progress::PoliciesFinished(_)));
    assert!(state.complete());
    let analysis = state.finish().expect("no errors");
    assert!(!analysis.stopped);
    assert_eq!(analysis.tool_reports.len(), 1);
}

#[test]
fn failing_workers_turn_the_check_into_errors() {
    let mut state = State::new(true, false);
    let _ = state.handle(Event::Tool(RunEvent::Started("rustdoc")), false);
    let failure = AnalysisError::new("rustdoc could not complete: exit status: 1".to_owned());
    let shown = state.handle(Event::ToolsComplete(Err(failure)), false);
    assert!(matches!(shown, Progress::ToolsFailed("rustdoc")));
    state.worker_lost();
    let errors = state.finish().expect_err("errors");
    assert_eq!(errors.len(), 2);
    assert_eq!(
        errors[1].message,
        "an Axiom check worker stopped before reporting its result"
    );
    let mut state = State::new(false, true);
    let shown = state.handle(Event::ToolsComplete(Err(AnalysisError::new("x".to_owned()))), false);
    assert!(matches!(shown, Progress::ToolsFailed("tools")));
}

#[test]
fn paths_order_by_components_not_by_characters() {
    let sorted = sort_diagnostics(vec![
        finding("src-x/a.rs", 0, "size/a", Level::Deny),
        finding("src/z.rs", 0, "size/a", Level::Deny),
    ]);
    let paths: Vec<_> = sorted.iter().map(|item| item.path.as_str()).collect();
    assert_eq!(paths, vec!["src/z.rs", "src-x/a.rs"]);
}

fn plan(size: bool, dead_code: bool, semantic: bool) -> Policies {
    Policies {
        size: if size { vec![0] } else { Vec::new() },
        testing: Vec::new(),
        dead_code: if dead_code { vec![1] } else { Vec::new() },
        visibility: Vec::new(),
        collect_hir: false,
        collect_private_dead_code: semantic,
    }
}

#[test]
fn fail_fast_runs_light_to_heavy() {
    let tools = cargo_policy::config::ToolConfig::new();
    let all = Selection::from_flags([false; 6]);
    assert_eq!(
        fail_fast_order(&plan(true, true, true), &tools, all),
        vec![
            FailFastStage::Syntax,
            FailFastStage::Policy(Family::Size),
            FailFastStage::Tool(Family::Clippy),
            FailFastStage::Tool(Family::Rustdoc),
            FailFastStage::Semantic,
            FailFastStage::Policy(Family::DeadCode),
        ]
    );
    assert_eq!(
        fail_fast_order(&plan(false, true, true), &tools, all),
        vec![
            FailFastStage::Tool(Family::Clippy),
            FailFastStage::Tool(Family::Rustdoc),
            FailFastStage::Syntax,
            FailFastStage::Semantic,
            FailFastStage::Policy(Family::DeadCode),
        ]
    );
}
