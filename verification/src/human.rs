use vstd::prelude::*;
use vstd::string::*;
use vstd::utf8::*;

use crate::diagnostic::{Diagnostic, Level, SourceSpan};
use crate::facts::{AnalysisError, AnalysisInput, SourceUnit};
use crate::lines::{line_starts, line_text_bytes};
use crate::report::{
    has_lint_setting, lint_key, policy, rule_key, setting_text, spec_level_name, tool, write_human,
};
use crate::semantic::source_at;
use crate::text::{concat, decimal, decimal_text, push_decimal, push_repeated, repeat_char, same_text};
use crate::tools::{ToolDiagnostic, ToolReport};

verus! {

/// The terminal colour of a severity: yellow for warnings, red otherwise.
pub open spec fn spec_severity_color(severity: Seq<char>) -> Seq<char> {
    if severity == "warning"@ {
        "33"@
    } else {
        "31"@
    }
}

/// The terminal colour of a severity.
pub fn severity_color(severity: &str) -> (code: &'static str)
    ensures
        code@ == spec_severity_color(severity@),
{
    if same_text(severity, "warning") {
        "33"
    } else {
        "31"
    }
}

/// `text` in the terminal colour `code`, when colour is enabled.
pub open spec fn painted(text: Seq<char>, code: Seq<char>, enabled: bool) -> Seq<char> {
    if enabled {
        "\u{1b}["@ + code + "m"@ + text + "\u{1b}[0m"@
    } else {
        text
    }
}

/// `text` in the terminal colour `code`, when colour is enabled.
pub fn paint(text: &str, code: &str, enabled: bool) -> (result: String)
    ensures
        result@ == painted(text@, code@, enabled),
{
    if enabled {
        let mut result = concat("\u{1b}[", code);
        result.append("m");
        result.append(text);
        result.append("\u{1b}[0m");
        result
    } else {
        String::from_str(text)
    }
}

/// The severity word of a level: warnings warn, everything else is an error.
pub open spec fn severity_word(level: Level) -> Seq<char> {
    crate::report::severity_word(level)
}

fn severity(level: Level) -> (word: &'static str)
    ensures
        word@ == severity_word(level),
{
    if level == Level::Warn {
        "warning"
    } else {
        "error"
    }
}

/// `n - 1`, or zero.
pub open spec fn before_column(n: u32) -> nat {
    if n == 0 {
        0
    } else {
        (n - 1) as nat
    }
}

/// How many columns a span's marker covers: the columns of a one-line span,
/// at least one, and one for a span over several lines.
pub open spec fn marker_width(span: SourceSpan) -> nat {
    if span.end.line == span.start.line && span.end.column > span.start.column {
        (span.end.column - span.start.column) as nat
    } else {
        1
    }
}

/// The three lines that show the source line of a span and mark the span.
pub open spec fn snippet_text(line: Seq<char>, span: SourceSpan, color: bool) -> Seq<char> {
    let gutter = decimal(span.start.line as nat).len();
    let marker = repeat_char(' ', before_column(span.start.column)) + repeat_char(
        '^',
        marker_width(span),
    );
    " "@ + repeat_char(' ', gutter) + " |\n"@ + " "@ + decimal(span.start.line as nat) + " | "@ + line
        + "\n"@ + " "@ + repeat_char(' ', gutter) + " | "@ + painted(marker, "31"@, color) + "\n"@
}

/// The text of line `line` of a source, by its bytes.
pub open spec fn source_line(bytes: Seq<u8>, line: int) -> Seq<char> {
    decode_utf8(line_text_bytes(bytes, line))
}

/// The snippet of a span in a source: empty when the source has no such
/// line.
pub open spec fn spec_snippet(source: SourceUnit, span: SourceSpan, color: bool) -> Seq<char> {
    let bytes = source.lines.text_bytes();
    if 1 <= span.start.line <= line_starts(bytes).len() {
        snippet_text(source_line(bytes, span.start.line as int), span, color)
    } else {
        seq![]
    }
}

/// The snippet of a span in a source.
pub fn snippet(source: &SourceUnit, span: SourceSpan, color: bool) -> (text: String)
    requires
        source.wf(),
    ensures
        text@ == spec_snippet(*source, span, color),
{
    proof {
        reveal_strlit(" ");
        reveal_strlit("^");
    }
    let line = match source.lines.line_text(source.text.as_str(), span.start.line) {
        Some(line) => line,
        None => {
            return String::new();
        },
    };
    proof {
        encode_utf8_decode_utf8(line@);
    }
    let number = decimal_text(span.start.line as u64);
    let gutter = number.unicode_len();
    let start: usize = if span.start.column == 0 {
        0
    } else {
        (span.start.column - 1) as usize
    };
    let width: usize = if span.end.line == span.start.line && span.end.column > span.start.column {
        (span.end.column - span.start.column) as usize
    } else {
        1
    };
    let mut text = String::from_str(" ");
    push_repeated(&mut text, " ", gutter);
    text.append(" |\n");
    text.append(" ");
    text.append(number.as_str());
    text.append(" | ");
    text.append(line);
    text.append("\n");
    text.append(" ");
    push_repeated(&mut text, " ", gutter);
    text.append(" | ");
    let mut marker = String::new();
    push_repeated(&mut marker, " ", start);
    push_repeated(&mut marker, "^", width);
    let painted_marker = paint(marker.as_str(), "31", color);
    text.append(painted_marker.as_str());
    text.append("\n");
    proof {
        assert(marker@ =~= repeat_char(' ', before_column(span.start.column)) + repeat_char(
            '^',
            marker_width(span),
        ));
    }
    text
}

/// The first loaded source at `path`.
pub open spec fn first_source(sources: Seq<SourceUnit>, path: Seq<char>) -> Option<int>
    decreases sources.len(),
{
    if sources.len() == 0 {
        None
    } else if sources[0].relative_path@ == path {
        Some(0)
    } else {
        match first_source(sources.drop_first(), path) {
            Some(k) => Some(k + 1),
            None => None,
        }
    }
}

proof fn lemma_first_source(sources: Seq<SourceUnit>, path: Seq<char>)
    ensures
        match first_source(sources, path) {
            Some(k) => 0 <= k < sources.len() && sources[k].relative_path@ == path && forall|m: int|
                0 <= m < k ==> sources[m].relative_path@ != path,
            None => forall|m: int| 0 <= m < sources.len() ==> sources[m].relative_path@ != path,
        },
    decreases sources.len(),
{
    if sources.len() > 0 {
        lemma_first_source(sources.drop_first(), path);
        if sources[0].relative_path@ != path {
            assert forall|m: int| 1 <= m < sources.len() implies sources[m] == sources.drop_first()[m
                - 1] by {}
        }
    }
}

/// Where a finding is: its path, line and column, then its snippet when
/// its path is a loaded source.
pub open spec fn location_text(
    path: Seq<char>,
    span: SourceSpan,
    input: &AnalysisInput,
    color: bool,
) -> Seq<char> {
    " --> "@ + path + ":"@ + decimal(span.start.line as nat) + ":"@ + decimal(
        span.start.column as nat,
    ) + "\n"@ + match first_source(input.sources@, path) {
        Some(k) => spec_snippet(input.sources@[k], span, color),
        None => seq![],
    }
}

/// Where a finding is.
pub fn location(path: &str, span: SourceSpan, input: &AnalysisInput, color: bool) -> (text: String)
    requires
        input.wf(),
    ensures
        text@ == location_text(path@, span, input, color),
{
    let mut text = concat(" --> ", path);
    text.append(":");
    push_decimal(&mut text, span.start.line as u64);
    text.append(":");
    push_decimal(&mut text, span.start.column as u64);
    text.append("\n");
    proof {
        lemma_first_source(input.sources@, path@);
    }
    match crate::semantic::find_source(input, path) {
        Some(k) => {
            proof {
                match first_source(input.sources@, path@) {
                    Some(j) => {
                        if j < k {
                            assert(!source_at(input, j, path@));
                        } else if j > k {
                            assert(input.sources@[k as int].relative_path@ != path@);
                        }
                    },
                    None => {
                        assert(input.sources@[k as int].relative_path@ != path@);
                    },
                }
            }
            assert(first_source(input.sources@, path@) == Some(k as int));
            assert(input.sources@[k as int].wf());
            let shown = snippet(&input.sources[k], span, color);
            text.append(shown.as_str());
        },
        None => {
            proof {
                if let Some(j) = first_source(input.sources@, path@) {
                    assert(!source_at(input, j, path@));
                }
            }
        },
    }
    text
}

/// The human report of one policy finding.
pub open spec fn policy_text(
    diagnostic: Diagnostic,
    input: &AnalysisInput,
    config_path: Seq<char>,
    color: bool,
) -> Seq<char> {
    let severity = severity_word(diagnostic.level);
    painted(severity, spec_severity_color(severity), color) + "["@ + diagnostic.rule_id@ + "]: "@
        + diagnostic.message@ + "\n"@ + location_text(diagnostic.path@, diagnostic.span, input, color)
        + match diagnostic.limit {
        Some(limit) => "  = limit: "@ + decimal(limit as nat) + " physical lines\n"@,
        None => seq![],
    } + "  = help: "@ + diagnostic.help@ + "\n"@ + setting_text(
        config_path,
        rule_key(diagnostic.rule_id@),
        spec_level_name(diagnostic.level),
    ) + "\n"@
}

fn policy_diagnostic(
    diagnostic: &Diagnostic,
    input: &AnalysisInput,
    config_path: &str,
    color: bool,
) -> (text: String)
    requires
        input.wf(),
    ensures
        text@ == policy_text(*diagnostic, input, config_path@, color),
{
    let word = severity(diagnostic.level);
    let mut text = paint(word, severity_color(word), color);
    text.append("[");
    text.append(diagnostic.rule_id.as_str());
    text.append("]: ");
    text.append(diagnostic.message.as_str());
    text.append("\n");
    let shown = location(diagnostic.path.as_str(), diagnostic.span, input, color);
    text.append(shown.as_str());
    match diagnostic.limit {
        Some(limit) => {
            text.append("  = limit: ");
            push_decimal(&mut text, limit as u64);
            text.append(" physical lines\n");
        },
        None => {},
    }
    text.append("  = help: ");
    text.append(diagnostic.help.as_str());
    text.append("\n");
    let hint = policy(diagnostic);
    let setting = write_human(config_path, &hint);
    text.append(setting.as_str());
    text.append("\n");
    text
}

/// The human report of several texts, one after the other.
pub open spec fn concatenated(parts: Seq<Seq<char>>) -> Seq<char>
    decreases parts.len(),
{
    if parts.len() == 0 {
        seq![]
    } else {
        concatenated(parts.drop_last()) + parts.last()
    }
}

/// The human report of policy findings, one after the other.
pub fn policy_diagnostics(
    diagnostics: &[Diagnostic],
    input: &AnalysisInput,
    config_path: &str,
    color: bool,
) -> (text: String)
    requires
        input.wf(),
    ensures
        text@ == concatenated(
            diagnostics@.map_values(|d: Diagnostic| policy_text(d, input, config_path@, color)),
        ),
{
    let ghost parts = diagnostics@.map_values(
        |d: Diagnostic| policy_text(d, input, config_path@, color),
    );
    let mut text = String::new();
    let mut index: usize = 0;
    while index < diagnostics.len()
        invariant
            index <= diagnostics@.len(),
            input.wf(),
            parts == diagnostics@.map_values(
                |d: Diagnostic| policy_text(d, input, config_path@, color),
            ),
            text@ == concatenated(parts.subrange(0, index as int)),
        decreases diagnostics@.len() - index,
    {
        let shown = policy_diagnostic(&diagnostics[index], input, config_path, color);
        text.append(shown.as_str());
        proof {
            assert(parts.subrange(0, index + 1).drop_last() =~= parts.subrange(0, index as int));
        }
        index = index + 1;
    }
    assert(parts.subrange(0, index as int) =~= parts);
    text
}

/// The human report of one tool finding: the tool's own rendering when it
/// gave one, else a heading, its location and help; then, when the policy
/// file configures it, where.
pub open spec fn tool_text(
    diagnostic: ToolDiagnostic,
    input: &AnalysisInput,
    config_path: Seq<char>,
    color: bool,
) -> Seq<char> {
    let severity = severity_word(diagnostic.level);
    (match diagnostic.rendered {
        Some(rendered) => rendered@ + if rendered@.len() > 0 && rendered@.last() == '\n' {
            seq![]
        } else {
            "\n"@
        },
        None => painted(severity, spec_severity_color(severity), color) + "["@ + diagnostic.tool@
            + "::"@ + diagnostic.rule_id@ + "]: "@ + diagnostic.message@ + "\n"@ + match (
            diagnostic.path,
            diagnostic.span,
        ) {
            (Some(path), Some(span)) => location_text(path@, span, input, color),
            (Some(path), None) => " --> "@ + path@ + "\n"@,
            _ => seq![],
        } + match diagnostic.help {
            Some(help) => "  = help: "@ + help@ + "\n"@,
            None => seq![],
        },
    }) + (if has_lint_setting(diagnostic) {
        setting_text(config_path, lint_key(diagnostic.rule_id@), spec_level_name(diagnostic.level))
    } else {
        seq![]
    }) + "\n"@
}

/// The human report of one tool finding.
pub fn tool_diagnostic(
    diagnostic: &ToolDiagnostic,
    input: &AnalysisInput,
    config_path: &str,
    color: bool,
) -> (text: String)
    requires
        input.wf(),
    ensures
        text@ == tool_text(*diagnostic, input, config_path@, color),
{
    proof {
        reveal_strlit("\n");
    }
    let mut text = String::new();
    match &diagnostic.rendered {
        Some(rendered) => {
            text.append(rendered.as_str());
            let length = rendered.as_str().unicode_len();
            if !(length > 0 && rendered.as_str().get_char(length - 1) == '\n') {
                text.append("\n");
            }
        },
        None => {
            let word = severity(diagnostic.level);
            let heading = paint(word, severity_color(word), color);
            text.append(heading.as_str());
            text.append("[");
            text.append(diagnostic.tool);
            text.append("::");
            text.append(diagnostic.rule_id.as_str());
            text.append("]: ");
            text.append(diagnostic.message.as_str());
            text.append("\n");
            match (&diagnostic.path, diagnostic.span) {
                (Some(path), Some(span)) => {
                    let shown = location(path.as_str(), span, input, color);
                    text.append(shown.as_str());
                },
                (Some(path), None) => {
                    text.append(" --> ");
                    text.append(path.as_str());
                    text.append("\n");
                },
                _ => {},
            }
            match &diagnostic.help {
                Some(help) => {
                    text.append("  = help: ");
                    text.append(help.as_str());
                    text.append("\n");
                },
                None => {},
            }
        },
    }
    match tool(diagnostic) {
        Some(hint) => {
            let setting = write_human(config_path, &hint);
            text.append(setting.as_str());
        },
        None => {},
    }
    text.append("\n");
    text
}

/// The human report of a tool's findings, one after the other.
pub fn write_tool_report(
    report: &ToolReport,
    input: &AnalysisInput,
    config_path: &str,
    color: bool,
) -> (text: String)
    requires
        input.wf(),
    ensures
        text@ == concatenated(
            report.diagnostics@.map_values(
                |d: ToolDiagnostic| tool_text(d, input, config_path@, color),
            ),
        ),
{
    let ghost parts = report.diagnostics@.map_values(
        |d: ToolDiagnostic| tool_text(d, input, config_path@, color),
    );
    let mut text = String::new();
    let mut index: usize = 0;
    while index < report.diagnostics.len()
        invariant
            index <= report.diagnostics@.len(),
            input.wf(),
            parts == report.diagnostics@.map_values(
                |d: ToolDiagnostic| tool_text(d, input, config_path@, color),
            ),
            text@ == concatenated(parts.subrange(0, index as int)),
        decreases report.diagnostics@.len() - index,
    {
        let shown = tool_diagnostic(&report.diagnostics[index], input, config_path, color);
        text.append(shown.as_str());
        proof {
            assert(parts.subrange(0, index + 1).drop_last() =~= parts.subrange(0, index as int));
        }
        index = index + 1;
    }
    assert(parts.subrange(0, index as int) =~= parts);
    text
}

/// The human report of one operational error.
pub open spec fn error_text(error: AnalysisError, input: Option<&AnalysisInput>, color: bool) -> Seq<
    char,
> {
    painted("error"@, "31"@, color) + "[policy/tool]: "@ + error.message@ + "\n"@ + match (
        error.path,
        error.span,
        input,
    ) {
        (Some(path), Some(span), Some(input)) => location_text(path@, span, input, color),
        (Some(path), _, _) => " --> "@ + path@ + "\n"@,
        _ => seq![],
    } + "\n"@
}

/// The human report of a check that could not complete: each error, then
/// a closing line.
pub fn operational(errors: &[AnalysisError], input: Option<&AnalysisInput>, color: bool) -> (text:
    String)
    requires
        input matches Some(found) ==> found.wf(),
    ensures
        text@ == concatenated(
            errors@.map_values(|e: AnalysisError| error_text(e, input, color)),
        ) + "axiom check could not complete\n"@,
{
    let ghost parts = errors@.map_values(|e: AnalysisError| error_text(e, input, color));
    let mut text = String::new();
    let mut index: usize = 0;
    while index < errors.len()
        invariant
            index <= errors@.len(),
            input matches Some(found) ==> found.wf(),
            parts == errors@.map_values(|e: AnalysisError| error_text(e, input, color)),
            text@ == concatenated(parts.subrange(0, index as int)),
        decreases errors@.len() - index,
    {
        let error = &errors[index];
        let heading = paint("error", "31", color);
        text.append(heading.as_str());
        text.append("[policy/tool]: ");
        text.append(error.message.as_str());
        text.append("\n");
        match (&error.path, error.span, input) {
            (Some(path), Some(span), Some(found)) => {
                let shown = location(path.as_str(), span, found, color);
                text.append(shown.as_str());
            },
            (Some(path), _, _) => {
                text.append(" --> ");
                text.append(path.as_str());
                text.append("\n");
            },
            _ => {},
        }
        text.append("\n");
        proof {
            assert(parts.subrange(0, index + 1).drop_last() =~= parts.subrange(0, index as int));
            assert(text@ =~= concatenated(parts.subrange(0, index + 1)));
        }
        index = index + 1;
    }
    assert(parts.subrange(0, index as int) =~= parts);
    text.append("axiom check could not complete\n");
    text
}

} // verus!
