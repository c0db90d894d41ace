use vstd::prelude::*;
use vstd::string::*;

use crate::diagnostic::{Level, Position, SourceSpan};
use crate::facts::{AnalysisError, AnalysisInput};
use crate::lines::{saturate_u32, to_u32};
use crate::paths::{
    is_absolute_path, path_names, path_remainder, rooted_plain, strip_path_prefix,
};
use crate::text::{concat, piece_of, same_text, trim_white_space, trimmed};
use crate::tools::{ToolDiagnostic, ToolReport};

verus! {

/// Severity of a compiler message, as Cargo reports it.
#[derive(Debug, Clone, Copy, PartialEq, Eq, Structural)]
pub enum MessageLevel {
    Ice,
    Error,
    FailureNote,
    Warning,
    Note,
    Help,
    Other,
}

/// A source range that a compiler message points at.
pub struct MessageSpan {
    pub file_name: String,
    pub byte_start: u32,
    pub byte_end: u32,
    pub line_start: usize,
    pub line_end: usize,
    pub column_start: usize,
    pub column_end: usize,
    pub is_primary: bool,
}

/// A sub-message attached to a compiler message.
pub struct ChildMessage {
    pub level: MessageLevel,
    pub message: String,
}

/// A compiler message carried by Cargo's JSON output.
pub struct CompilerDiagnostic {
    pub message: String,
    pub code: Option<String>,
    pub level: MessageLevel,
    pub spans: Vec<MessageSpan>,
    pub children: Vec<ChildMessage>,
    pub rendered: Option<String>,
}

/// One message of Cargo's JSON output.
pub enum CargoMessage {
    Compiler(CompilerDiagnostic),
    Other,
}

/// The policy level of a compiler message: warnings warn, errors, internal
/// compiler errors and failure notes deny, and the rest are not reported.
pub open spec fn spec_level(level: MessageLevel) -> Option<Level> {
    match level {
        MessageLevel::Warning => Some(Level::Warn),
        MessageLevel::Ice | MessageLevel::Error | MessageLevel::FailureNote => Some(Level::Deny),
        _ => None,
    }
}

/// The policy level of a compiler message.
pub fn level(severity: MessageLevel) -> (result: Option<Level>)
    ensures
        result == spec_level(severity),
{
    match severity {
        MessageLevel::Warning => Some(Level::Warn),
        MessageLevel::Ice | MessageLevel::Error | MessageLevel::FailureNote => Some(Level::Deny),
        _ => None,
    }
}

/// `text` with every backslash replaced by a forward slash.
pub open spec fn forward_slashes(text: Seq<char>) -> Seq<char> {
    text.map_values(|c: char| if c == '\\' { '/' } else { c })
}

/// `text` with every backslash replaced by a forward slash.
pub fn with_forward_slashes(text: &str) -> (result: String)
    ensures
        result@ == forward_slashes(text@),
{
    proof {
        reveal_strlit("/");
    }
    let length = text.unicode_len();
    let mut result = String::new();
    let mut index: usize = 0;
    while index < length
        invariant
            index <= length,
            length == text@.len(),
            "/"@ == seq!['/'],
            result@ == forward_slashes(text@.subrange(0, index as int)),
        decreases length - index,
    {
        let c = text.get_char(index);
        if c == '\\' {
            result.append("/");
        } else {
            result.append(text.substring_char(index, index + 1));
        }
        proof {
            assert(text@.subrange(0, index + 1) =~= text@.subrange(0, index as int).push(c));
            assert(result@ =~= forward_slashes(text@.subrange(0, index + 1)));
        }
        index = index + 1;
    }
    assert(text@.subrange(0, length as int) =~= text@);
    result
}

/// Whether a path with forward slashes may be absolute on some platform: it
/// starts at the root or with a drive prefix.
pub open spec fn may_be_absolute(path: Seq<char>) -> bool {
    (path.len() > 0 && path[0] == '/') || (path.len() > 1 && path[1] == ':')
}

/// Whether `path` is where a compiler message about `file_name` points: the
/// file name with forward slashes, or, when that may be absolute, a part of
/// it (the part below the workspace root).
pub open spec fn located(path: Seq<char>, file_name: Seq<char>) -> bool {
    let named = forward_slashes(file_name);
    path == named || (may_be_absolute(named) && piece_of(path, named))
}

/// The positions of a compiler span, each saturated to `u32`.
pub open spec fn message_span_position(span: MessageSpan) -> SourceSpan {
    SourceSpan {
        byte_start: span.byte_start,
        byte_end: span.byte_end,
        start: Position {
            line: saturate_u32(span.line_start as int),
            column: saturate_u32(span.column_start as int),
        },
        end: Position {
            line: saturate_u32(span.line_end as int),
            column: saturate_u32(span.column_end as int),
        },
    }
}

/// Whether `path` is how the file name `named` reads below `root`, when the
/// platform does (`absolute`) or does not read it as absolute: the name
/// itself when not; when it is, what follows the root if the root leads it
/// and the name itself otherwise, stated for plain paths from the root,
/// whose components are the same everywhere.
pub open spec fn reads_below(
    path: Seq<char>,
    named: Seq<char>,
    root: Seq<char>,
    absolute: bool,
) -> bool {
    &&& !absolute ==> path == named
    &&& absolute && rooted_plain(named) && rooted_plain(root) ==> path == if path_names(
        root,
    ).is_prefix_of(path_names(named)) {
        path_remainder(named, root)
    } else {
        named
    }
}

/// The path and positions that a compiler span points at. The path has
/// forward slashes and, when it is absolute below the workspace root, is
/// made relative to that root.
pub fn tool_location(workspace_root: &str, span: &MessageSpan) -> (location: (String, SourceSpan))
    ensures
        located(location.0@, span.file_name@),
        location.1 == message_span_position(*span),
        reads_below(location.0@, forward_slashes(span.file_name@), workspace_root@, false) || (
        may_be_absolute(forward_slashes(span.file_name@)) && reads_below(
            location.0@,
            forward_slashes(span.file_name@),
            workspace_root@,
            true,
        )),
{
    let named = with_forward_slashes(span.file_name.as_str());
    proof {
        if named@.len() > 0 {
            assert(named@[0] != '\\');
        }
    }
    let mut path = named.clone();
    let absolute = is_absolute_path(named.as_str());
    if absolute {
        match strip_path_prefix(named.as_str(), workspace_root) {
            Some(relative) => {
                path = relative;
            },
            None => {},
        }
    }
    assert(named@ == forward_slashes(span.file_name@));
    assert((absolute ==> may_be_absolute(forward_slashes(span.file_name@))) && reads_below(
        path@,
        forward_slashes(span.file_name@),
        workspace_root@,
        absolute,
    ));
    let position = SourceSpan {
        byte_start: span.byte_start,
        byte_end: span.byte_end,
        start: Position { line: to_u32(span.line_start), column: to_u32(span.column_start) },
        end: Position { line: to_u32(span.line_end), column: to_u32(span.column_end) },
    };
    (path, position)
}

/// The first primary span of a compiler message.
pub open spec fn first_primary(spans: Seq<MessageSpan>) -> Option<MessageSpan>
    decreases spans.len(),
{
    if spans.len() == 0 {
        None
    } else if spans[0].is_primary {
        Some(spans[0])
    } else {
        first_primary(spans.drop_first())
    }
}

/// The text of the first help child of a compiler message.
pub open spec fn first_help(children: Seq<ChildMessage>) -> Option<Seq<char>>
    decreases children.len(),
{
    if children.len() == 0 {
        None
    } else if children[0].level == MessageLevel::Help {
        Some(children[0].message@)
    } else {
        first_help(children.drop_first())
    }
}

/// The text of an optional string.
pub open spec fn text_of(value: Option<String>) -> Option<Seq<char>> {
    match value {
        Some(text) => Some(text@),
        None => None,
    }
}

/// Whether `found` reports the compiler message `diagnostic` at `level` for
/// the wrapped tool `tool`: its rule is the message's code (the tool's name
/// when it has none), its help the first help child, and its location the
/// first primary span.
pub open spec fn reports(
    found: ToolDiagnostic,
    tool: &str,
    diagnostic: CompilerDiagnostic,
    level: Level,
) -> bool {
    &&& found.tool == tool
    &&& found.rule_id@ == match diagnostic.code {
        Some(code) => code@,
        None => tool@,
    }
    &&& found.level == level
    &&& found.message@ == diagnostic.message@
    &&& text_of(found.help) == first_help(diagnostic.children@)
    &&& text_of(found.rendered) == text_of(diagnostic.rendered)
    &&& match first_primary(diagnostic.spans@) {
        None => found.path is None && found.span is None,
        Some(span) => {
            &&& found.span == Some(message_span_position(span))
            &&& found.path matches Some(path) && located(path@, span.file_name@)
        },
    }
}

fn first_primary_index(spans: &Vec<MessageSpan>) -> (index: Option<usize>)
    ensures
        match index {
            None => first_primary(spans@) is None,
            Some(k) => k < spans@.len() && first_primary(spans@) == Some(spans@[k as int]),
        },
{
    let mut k: usize = 0;
    assert(spans@.subrange(0, spans@.len() as int) =~= spans@);
    while k < spans.len()
        invariant
            k <= spans@.len(),
            first_primary(spans@) == first_primary(spans@.subrange(k as int, spans@.len() as int)),
        decreases spans@.len() - k,
    {
        let ghost rest = spans@.subrange(k as int, spans@.len() as int);
        assert(rest.drop_first() =~= spans@.subrange(k + 1, spans@.len() as int));
        if spans[k].is_primary {
            return Some(k);
        }
        k = k + 1;
    }
    assert(spans@.subrange(k as int, spans@.len() as int).len() == 0);
    None
}

fn first_help_text(children: &Vec<ChildMessage>) -> (help: Option<String>)
    ensures
        text_of(help) == first_help(children@),
{
    let mut k: usize = 0;
    assert(children@.subrange(0, children@.len() as int) =~= children@);
    while k < children.len()
        invariant
            k <= children@.len(),
            first_help(children@) == first_help(
                children@.subrange(k as int, children@.len() as int),
            ),
        decreases children@.len() - k,
    {
        let ghost rest = children@.subrange(k as int, children@.len() as int);
        assert(rest.drop_first() =~= children@.subrange(k + 1, children@.len() as int));
        if children[k].level == MessageLevel::Help {
            return Some(children[k].message.clone());
        }
        k = k + 1;
    }
    assert(children@.subrange(k as int, children@.len() as int).len() == 0);
    None
}

fn clone_text(value: &Option<String>) -> (copy: Option<String>)
    ensures
        text_of(copy) == text_of(*value),
{
    match value {
        Some(text) => Some(text.clone()),
        None => None,
    }
}

/// The tool diagnostic that reports a compiler message at `level`.
pub fn tool_diagnostic(
    tool: &'static str,
    workspace_root: &str,
    diagnostic: CompilerDiagnostic,
    level: Level,
) -> (found: ToolDiagnostic)
    ensures
        reports(found, tool, diagnostic, level),
{
    let (path, span) = match first_primary_index(&diagnostic.spans) {
        Some(k) => {
            let (path, span) = tool_location(workspace_root, &diagnostic.spans[k]);
            (Some(path), Some(span))
        },
        None => (None, None),
    };
    let rule_id = match &diagnostic.code {
        Some(code) => code.clone(),
        None => String::from_str(tool),
    };
    let help = first_help_text(&diagnostic.children);
    let rendered = clone_text(&diagnostic.rendered);
    ToolDiagnostic {
        tool,
        rule_id,
        level,
        message: diagnostic.message.clone(),
        help,
        path,
        span,
        rendered,
    }
}

/// The compiler messages of a Cargo message stream that are reported, each
/// with its policy level, in stream order.
pub open spec fn reported(messages: Seq<CargoMessage>) -> Seq<(CompilerDiagnostic, Level)>
    decreases messages.len(),
{
    if messages.len() == 0 {
        seq![]
    } else {
        let rest = reported(messages.drop_last());
        match messages.last() {
            CargoMessage::Compiler(diagnostic) => match spec_level(diagnostic.level) {
                Some(level) => rest.push((diagnostic, level)),
                None => rest,
            },
            CargoMessage::Other => rest,
        }
    }
}

/// Whether `found` reports, one for one and in order, the reported compiler
/// messages of `messages`.
pub open spec fn reports_each(
    found: Seq<ToolDiagnostic>,
    tool: &str,
    messages: Seq<CargoMessage>,
) -> bool {
    &&& found.len() == reported(messages).len()
    &&& forall|k: int|
        0 <= k < found.len() ==> reports(
            #[trigger] found[k],
            tool,
            reported(messages)[k].0,
            reported(messages)[k].1,
        )
}

/// The byte offset at which an optional span starts.
pub open spec fn span_start(span: Option<SourceSpan>) -> Option<u32> {
    match span {
        Some(span) => Some(span.byte_start),
        None => None,
    }
}

/// Whether two tool diagnostics report the same finding: the same rule,
/// message, path and start offset, and both or neither denied.
pub open spec fn same_finding(a: ToolDiagnostic, b: ToolDiagnostic) -> bool {
    &&& a.rule_id@ == b.rule_id@
    &&& a.message@ == b.message@
    &&& text_of(a.path) == text_of(b.path)
    &&& span_start(a.span) == span_start(b.span)
    &&& (a.level == Level::Deny) == (b.level == Level::Deny)
}

/// The first diagnostic of each finding, in order of first occurrence.
pub open spec fn first_of_each(found: Seq<ToolDiagnostic>) -> Seq<ToolDiagnostic>
    decreases found.len(),
{
    if found.len() == 0 {
        seq![]
    } else {
        let kept = first_of_each(found.drop_last());
        if exists|j: int| 0 <= j < kept.len() && same_finding(#[trigger] kept[j], found.last()) {
            kept
        } else {
            kept.push(found.last())
        }
    }
}

/// Whether two tool diagnostics are distinct findings: they differ in rule,
/// message, path or start offset, or one is denied and the other not.
pub open spec fn distinct_tool_findings(a: ToolDiagnostic, b: ToolDiagnostic) -> bool {
    ||| a.rule_id@ != b.rule_id@
    ||| a.message@ != b.message@
    ||| text_of(a.path) != text_of(b.path)
    ||| span_start(a.span) != span_start(b.span)
    ||| (a.level == Level::Deny) != (b.level == Level::Deny)
}

/// Distinct findings are all kept: when every two diagnostics differ in
/// rule, message, path, start offset or denial (for instance two findings
/// of one lint at different offsets), keeping the first of each finding
/// keeps every one of them, in order.
pub proof fn lemma_distinct_findings_are_kept(found: Seq<ToolDiagnostic>)
    requires
        forall|i: int, j: int|
            0 <= i < j < found.len() ==> distinct_tool_findings(#[trigger] found[i], #[trigger] found[j]),
    ensures
        first_of_each(found) == found,
    decreases found.len(),
{
    if found.len() > 0 {
        let rest = found.drop_last();
        assert forall|i: int, j: int| 0 <= i < j < rest.len() implies distinct_tool_findings(
            #[trigger] rest[i],
            #[trigger] rest[j],
        ) by {
            assert(rest[i] == found[i] && rest[j] == found[j]);
        }
        lemma_distinct_findings_are_kept(rest);
        let kept = first_of_each(rest);
        assert forall|j: int| 0 <= j < kept.len() implies !same_finding(
            #[trigger] kept[j],
            found.last(),
        ) by {
            assert(kept[j] == found[j]);
            assert(distinct_tool_findings(found[j], found[found.len() - 1]));
        }
        assert(rest.push(found.last()) =~= found);
    }
}

/// A repeated finding is reported once: a diagnostic with the rule,
/// message, path, start offset and denial of an earlier one adds nothing to
/// the kept diagnostics.
pub proof fn lemma_repeated_finding_adds_nothing(found: Seq<ToolDiagnostic>, repeat: ToolDiagnostic, i: int)
    requires
        0 <= i < found.len(),
        found[i].rule_id@ == repeat.rule_id@,
        found[i].message@ == repeat.message@,
        text_of(found[i].path) == text_of(repeat.path),
        span_start(found[i].span) == span_start(repeat.span),
        (found[i].level == Level::Deny) == (repeat.level == Level::Deny),
    ensures
        first_of_each(found.push(repeat)) == first_of_each(found),
{
    lemma_first_of_each(found);
    let kept = first_of_each(found);
    let j = choose|j: int| 0 <= j < kept.len() && same_finding(#[trigger] kept[j], found[i]);
    assert(same_finding(kept[j], repeat));
    assert(found.push(repeat).drop_last() =~= found);
    assert(found.push(repeat).last() == repeat);
}

/// Each finding is reported once, and none is lost: no two kept diagnostics
/// report the same finding, every kept diagnostic is one of the given ones,
/// and every given diagnostic's finding is reported by a kept one.
#[verifier::spinoff_prover]
#[verifier::rlimit(50)]
pub proof fn lemma_first_of_each(found: Seq<ToolDiagnostic>)
    ensures
        forall|i: int, j: int|
            0 <= i < j < first_of_each(found).len() ==> !same_finding(
                #[trigger] first_of_each(found)[i],
                #[trigger] first_of_each(found)[j],
            ),
        forall|j: int|
            0 <= j < first_of_each(found).len() ==> found.contains(
                #[trigger] first_of_each(found)[j],
            ),
        forall|i: int|
            #![trigger found[i]]
            0 <= i < found.len() ==> exists|j: int|
                0 <= j < first_of_each(found).len() && same_finding(
                    #[trigger] first_of_each(found)[j],
                    found[i],
                ),
    decreases found.len(),
{
    if found.len() > 0 {
        let rest = found.drop_last();
        lemma_first_of_each(rest);
        let kept = first_of_each(rest);
        let last = found.last();
        assert forall|j: int| 0 <= j < kept.len() implies found.contains(#[trigger] kept[j]) by {
            let i = choose|i: int| 0 <= i < rest.len() && rest[i] == kept[j];
            assert(found[i] == kept[j]);
        }
        if exists|j: int| 0 <= j < kept.len() && same_finding(#[trigger] kept[j], last) {
            assert(first_of_each(found) == kept);
            let w = choose|j: int| 0 <= j < kept.len() && same_finding(#[trigger] kept[j], last);
            assert forall|i: int| #![trigger found[i]] 0 <= i < found.len() implies exists|j: int|
                0 <= j < kept.len() && same_finding(#[trigger] kept[j], found[i]) by {
                if i < rest.len() {
                    assert(found[i] == rest[i]);
                    let j = choose|j: int| 0 <= j < kept.len() && same_finding(kept[j], rest[i]);
                    assert(same_finding(kept[j], found[i]));
                } else {
                    assert(found[i] == last);
                    assert(same_finding(kept[w], found[i]));
                }
            }
        } else {
            let all = kept.push(last);
            assert(first_of_each(found) == all);
            assert(found.contains(last)) by {
                assert(found[found.len() - 1] == last);
            }
            assert forall|i: int| #![trigger found[i]] 0 <= i < found.len() implies exists|j: int|
                0 <= j < all.len() && same_finding(#[trigger] all[j], found[i]) by {
                if i < rest.len() {
                    assert(found[i] == rest[i]);
                    let j = choose|j: int| 0 <= j < kept.len() && same_finding(kept[j], rest[i]);
                    assert(all[j] == kept[j]);
                } else {
                    assert(all[kept.len() as int] == found[i]);
                }
            }
            assert forall|i: int, j: int| 0 <= i < j < all.len() implies !same_finding(
                #[trigger] all[i],
                #[trigger] all[j],
            ) by {
                if j < kept.len() {
                    assert(all[i] == kept[i] && all[j] == kept[j]);
                } else {
                    assert(all[i] == kept[i]);
                }
            }
        }
    }
}

fn same_text_option(a: &Option<String>, b: &Option<String>) -> (same: bool)
    ensures
        same == (text_of(*a) == text_of(*b)),
{
    match (a, b) {
        (Some(x), Some(y)) => same_text(x.as_str(), y.as_str()),
        (None, None) => true,
        _ => false,
    }
}

fn same_finding_exec(a: &ToolDiagnostic, b: &ToolDiagnostic) -> (same: bool)
    ensures
        same == same_finding(*a, *b),
{
    let same_start = match (a.span, b.span) {
        (Some(x), Some(y)) => x.byte_start == y.byte_start,
        (None, None) => true,
        _ => false,
    };
    a.rule_id == b.rule_id && a.message == b.message && same_text_option(&a.path, &b.path)
        && same_start && ((a.level == Level::Deny) == (b.level == Level::Deny))
}

/// Keeps the first diagnostic of each finding, in order.
pub fn unique_findings(found: Vec<ToolDiagnostic>) -> (kept: Vec<ToolDiagnostic>)
    ensures
        kept@ == first_of_each(found@),
{
    let ghost all = found@;
    let mut found = found;
    let total = found.len();
    let mut kept: Vec<ToolDiagnostic> = Vec::new();
    let mut index: usize = 0;
    while found.len() > 0
        invariant
            index <= all.len(),
            total == all.len(),
            found@ == all.subrange(index as int, all.len() as int),
            kept@ == first_of_each(all.subrange(0, index as int)),
        decreases found@.len(),
    {
        let item = found.remove(0);
        let mut duplicate = false;
        let mut j: usize = 0;
        while j < kept.len()
            invariant
                j <= kept@.len(),
                duplicate == exists|m: int| 0 <= m < j && #[trigger] same_finding(kept@[m], item),
            decreases kept@.len() - j,
        {
            if same_finding_exec(&kept[j], &item) {
                duplicate = true;
            }
            j = j + 1;
        }
        proof {
            let prefix = all.subrange(0, index + 1);
            assert(prefix.drop_last() =~= all.subrange(0, index as int));
            assert(prefix.last() == item);
        }
        if !duplicate {
            kept.push(item);
        }
        index = index + 1;
    }
    assert(all.subrange(0, index as int) =~= all);
    kept
}

/// The diagnostics that report the reported compiler messages of a Cargo
/// message stream, one for one and in order.
pub fn message_diagnostics(
    tool: &'static str,
    input: &AnalysisInput,
    messages: Vec<CargoMessage>,
) -> (found: Vec<ToolDiagnostic>)
    ensures
        reports_each(found@, tool, messages@),
{
    let ghost all = messages@;
    let mut messages = messages;
    let total = messages.len();
    let mut found: Vec<ToolDiagnostic> = Vec::new();
    let mut index: usize = 0;
    while messages.len() > 0
        invariant
            index <= all.len(),
            total == all.len(),
            messages@ == all.subrange(index as int, all.len() as int),
            reports_each(found@, tool, all.subrange(0, index as int)),
        decreases messages@.len(),
    {
        let message = messages.remove(0);
        let ghost before = found@;
        let ghost prefix = all.subrange(0, index + 1);
        proof {
            assert(prefix.drop_last() =~= all.subrange(0, index as int));
            assert(prefix.last() == message);
        }
        match message {
            CargoMessage::Compiler(diagnostic) => {
                match level(diagnostic.level) {
                    Some(found_level) => {
                        let ghost reported_diagnostic = diagnostic;
                        let item = tool_diagnostic(
                            tool,
                            input.workspace_root.as_str(),
                            diagnostic,
                            found_level,
                        );
                        found.push(item);
                        proof {
                            assert(reported(prefix) == reported(
                                all.subrange(0, index as int),
                            ).push((reported_diagnostic, found_level)));
                            assert forall|k: int| 0 <= k < found@.len() implies reports(
                                #[trigger] found@[k],
                                tool,
                                reported(prefix)[k].0,
                                reported(prefix)[k].1,
                            ) by {
                                if k < before.len() {
                                    assert(found@[k] == before[k]);
                                }
                            }
                        }
                    },
                    None => {},
                }
            },
            CargoMessage::Other => {},
        }
        index = index + 1;
    }
    assert(all.subrange(0, index as int) =~= all);
    found
}

/// The diagnostics of a Cargo message stream: one per reported compiler
/// message, keeping only the first of each finding, in stream order.
pub fn collect_diagnostics(
    tool: &'static str,
    input: &AnalysisInput,
    messages: Vec<CargoMessage>,
) -> (found: Vec<ToolDiagnostic>)
    ensures
        exists|candidates: Seq<ToolDiagnostic>|
            reports_each(candidates, tool, messages@) && found@ == first_of_each(candidates),
{
    let candidates = message_diagnostics(tool, input, messages);
    let ghost all = candidates@;
    let found = unique_findings(candidates);
    assert(reports_each(all, tool, messages@) && found@ == first_of_each(all));
    found
}

/// The message of a wrapped tool that could not complete: the tool's name,
/// then the detail it printed, or its exit status when it printed nothing.
pub open spec fn command_error_text(tool: Seq<char>, status: Seq<char>, detail: Seq<char>) -> Seq<
    char,
> {
    tool + " could not complete: "@ + if detail.len() == 0 {
        status
    } else {
        detail
    }
}

/// The error of a wrapped tool that could not complete.
pub fn command_error(tool: &str, status: &str, detail: &str) -> (error: AnalysisError)
    ensures
        error.message@ == command_error_text(tool@, status@, detail@),
        error.path is None,
        error.span is None,
{
    let mut message = concat(tool, " could not complete: ");
    if detail.unicode_len() == 0 {
        message.append(status);
    } else {
        message.append(detail);
    }
    AnalysisError::new(message)
}

/// Whether some diagnostic denies.
pub open spec fn any_denied(diagnostics: Seq<ToolDiagnostic>) -> bool {
    exists|k: int| 0 <= k < diagnostics.len() && (#[trigger] diagnostics[k]).level == Level::Deny
}

fn has_denied(diagnostics: &Vec<ToolDiagnostic>) -> (denied: bool)
    ensures
        denied == any_denied(diagnostics@),
{
    let mut k: usize = 0;
    while k < diagnostics.len()
        invariant
            k <= diagnostics@.len(),
            forall|m: int| 0 <= m < k ==> (#[trigger] diagnostics@[m]).level != Level::Deny,
        decreases diagnostics@.len() - k,
    {
        if diagnostics[k].level == Level::Deny {
            return true;
        }
        k = k + 1;
    }
    false
}

/// The report of a wrapped tool run, or its error: a run that failed without
/// a denied diagnostic to explain it could not complete, and its error gives
/// the trimmed output it printed, or its exit status.
pub fn execution_outcome(
    tool: &'static str,
    succeeded: bool,
    status: &str,
    stderr: &str,
    diagnostics: Vec<ToolDiagnostic>,
) -> (result: Result<ToolReport, AnalysisError>)
    ensures
        result is Ok <==> (succeeded || any_denied(diagnostics@)),
        result matches Ok(report) ==> report.name == tool && report.diagnostics@ == diagnostics@,
        result matches Err(error) ==> {
            &&& error.path is None
            &&& error.span is None
            &&& error.message@ == command_error_text(tool@, status@, trim_white_space(stderr@))
        },
{
    if !succeeded && !has_denied(&diagnostics) {
        let detail = trimmed(stderr);
        let error = command_error(tool, status, detail);
        return Err(error);
    }
    Ok(ToolReport { name: tool, diagnostics })
}

/// The decision for one message of a streamed Cargo run that stops at its
/// first finding: the diagnostic that ends the run, or `None` to read on.
/// Warnings are passed over when `ignore_warnings` is set.
pub fn streamed_diagnostic(
    tool: &'static str,
    input: &AnalysisInput,
    message: CargoMessage,
    ignore_warnings: bool,
) -> (found: Option<ToolDiagnostic>)
    ensures
        match message {
            CargoMessage::Compiler(diagnostic) => match spec_level(diagnostic.level) {
                Some(found_level) => if ignore_warnings && found_level == Level::Warn {
                    found is None
                } else {
                    found matches Some(item) && reports(item, tool, diagnostic, found_level)
                },
                None => found is None,
            },
            CargoMessage::Other => found is None,
        },
{
    match message {
        CargoMessage::Compiler(diagnostic) => match level(diagnostic.level) {
            Some(found_level) => {
                if ignore_warnings && found_level == Level::Warn {
                    None
                } else {
                    Some(
                        tool_diagnostic(
                            tool,
                            input.workspace_root.as_str(),
                            diagnostic,
                            found_level,
                        ),
                    )
                }
            },
            None => None,
        },
        CargoMessage::Other => None,
    }
}

/// The message of a wrapped tool that could not be started.
pub open spec fn spawn_error_text(tool: Seq<char>, reason: Seq<char>) -> Seq<char> {
    "could not run "@ + tool + " through Cargo: "@ + reason
}

/// The error of a wrapped tool that could not be started.
pub fn spawn_error(tool: &str, reason: &str) -> (error: AnalysisError)
    ensures
        error.message@ == spawn_error_text(tool@, reason@),
        error.path is None,
        error.span is None,
{
    let mut message = concat("could not run ", tool);
    message.append(" through Cargo: ");
    message.append(reason);
    AnalysisError::new(message)
}

/// The error of a Clippy run: an error about a run that could not be
/// started gains the hint to install Clippy.
pub fn clippy_error(error: AnalysisError) -> (found: AnalysisError)
    ensures
        found.path == error.path,
        found.span == error.span,
        found.message@ == if crate::text::occurs_in("could not run"@, error.message@) {
            error.message@ + "; install Clippy with `rustup component add clippy`"@
        } else {
            error.message@
        },
{
    if crate::text::contains_text(error.message.as_str(), "could not run") {
        let mut message = error.message;
        message.append("; install Clippy with `rustup component add clippy`");
        AnalysisError { message, path: error.path, span: error.span }
    } else {
        error
    }
}

} // verus!
