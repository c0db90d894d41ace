use cargo_policy::diagnostic::Level;
use cargo_policy::facts::AnalysisInput;
use cargo_policy::messages::{
    collect_diagnostics, command_error, execution_outcome, level, streamed_diagnostic,
    tool_location, with_forward_slashes, CargoMessage, ChildMessage, CompilerDiagnostic,
    MessageLevel, MessageSpan,
};

fn input() -> AnalysisInput {
    AnalysisInput { workspace_root: "/workspace".to_owned(), sources: Vec::new() }
}

fn span(file: &str, start: u32, primary: bool) -> MessageSpan {
    MessageSpan {
        file_name: file.to_owned(),
        byte_start: start,
        byte_end: start + 2,
        line_start: 3,
        line_end: 3,
        column_start: 5,
        column_end: 7,
        is_primary: primary,
    }
}

fn compiler(code: Option<&str>, severity: MessageLevel, start: u32) -> CargoMessage {
    CargoMessage::Compiler(CompilerDiagnostic {
        message: "needless return".to_owned(),
        code: code.map(str::to_owned),
        level: severity,
        spans: vec![span("/other/file.rs", 0, false), span("src\\lib.rs", start, true)],
        children: vec![
            ChildMessage { level: MessageLevel::Note, message: "note".to_owned() },
            ChildMessage { level: MessageLevel::Help, message: "remove it".to_owned() },
        ],
        rendered: None,
    })
}

#[test]
fn compiler_levels_map_to_policy_levels() {
    assert_eq!(level(MessageLevel::Warning), Some(Level::Warn));
    assert_eq!(level(MessageLevel::Error), Some(Level::Deny));
    assert_eq!(level(MessageLevel::Ice), Some(Level::Deny));
    assert_eq!(level(MessageLevel::FailureNote), Some(Level::Deny));
    assert_eq!(level(MessageLevel::Note), None);
    assert_eq!(level(MessageLevel::Help), None);
}

#[test]
fn locations_use_forward_slashes_relative_to_the_workspace() {
    assert_eq!(with_forward_slashes("src\\a\\b.rs"), "src/a/b.rs");
    let (path, position) = tool_location("/workspace", &span("/workspace/src/lib.rs", 10, true));
    assert_eq!(path, "src/lib.rs");
    assert_eq!(position.byte_start, 10);
    assert_eq!(position.start.line, 3);
    assert_eq!(position.end.column, 7);
    let (outside, _) = tool_location("/workspace", &span("/registry/dep/lib.rs", 0, true));
    assert_eq!(outside, "/registry/dep/lib.rs");
    let mut wide = span("src/lib.rs", 0, true);
    wide.line_end = usize::MAX;
    let (_, position) = tool_location("/workspace", &wide);
    assert_eq!(position.end.line, u32::MAX);
}

#[test]
fn duplicate_findings_are_reported_once_in_stream_order() {
    let messages = vec![
        compiler(Some("clippy::needless_return"), MessageLevel::Warning, 4),
        CargoMessage::Other,
        compiler(Some("clippy::needless_return"), MessageLevel::Warning, 4),
        compiler(Some("clippy::needless_return"), MessageLevel::Error, 4),
        compiler(None, MessageLevel::Note, 8),
        compiler(None, MessageLevel::Warning, 9),
    ];
    let found = collect_diagnostics("clippy", &input(), messages);
    assert_eq!(found.len(), 3);
    assert_eq!(found[0].rule_id, "clippy::needless_return");
    assert_eq!(found[0].level, Level::Warn);
    assert_eq!(found[0].help.as_deref(), Some("remove it"));
    assert_eq!(found[0].path.as_deref(), Some("src/lib.rs"));
    assert_eq!(found[1].level, Level::Deny);
    assert_eq!(found[2].rule_id, "clippy");
}

#[test]
fn failed_runs_need_a_denied_finding_to_explain_them() {
    let error = execution_outcome("clippy", false, "exit status: 101", "  broken \n", Vec::new())
        .expect_err("unexplained failure");
    assert_eq!(error.message, "clippy could not complete: broken");
    let error = execution_outcome("rustdoc", false, "exit status: 1", "", Vec::new())
        .expect_err("silent failure");
    assert_eq!(error.message, "rustdoc could not complete: exit status: 1");
    let denied = collect_diagnostics(
        "clippy",
        &input(),
        vec![compiler(Some("E0308"), MessageLevel::Error, 1)],
    );
    let report = execution_outcome("clippy", false, "exit status: 101", "", denied)
        .expect("explained failure");
    assert_eq!(report.name, "clippy");
    assert_eq!(report.diagnostics.len(), 1);
    assert!(execution_outcome("clippy", true, "exit status: 0", "", Vec::new()).is_ok());
    assert_eq!(command_error("clippy", "status", "").message, "clippy could not complete: status");
}

#[test]
fn streamed_runs_stop_at_the_first_reported_message() {
    assert!(streamed_diagnostic("clippy", &input(), CargoMessage::Other, false).is_none());
    let warning = compiler(Some("clippy::dbg_macro"), MessageLevel::Warning, 2);
    assert!(streamed_diagnostic("clippy", &input(), warning, true).is_none());
    let warning = compiler(Some("clippy::dbg_macro"), MessageLevel::Warning, 2);
    let found = streamed_diagnostic("clippy", &input(), warning, false).expect("warning");
    assert_eq!(found.rule_id, "clippy::dbg_macro");
    let note = compiler(None, MessageLevel::Note, 2);
    assert!(streamed_diagnostic("clippy", &input(), note, false).is_none());
}
