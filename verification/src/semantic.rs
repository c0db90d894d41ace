use vstd::prelude::*;
use vstd::string::*;
use vstd::utf8::*;

use crate::diagnostic::{Position, SourceSpan};
use crate::facts::{
    AnalysisError,
    AnalysisInput,
    CodebaseFacts,
    SemanticFindingFact,
    SemanticFindingKind,
};
use crate::lines::{clamped_end, span_at};
use crate::messages::{located, may_be_absolute, with_forward_slashes};
use crate::paths::{
    is_absolute_path, path_names, path_remainder, rooted_plain, strip_path_prefix,
};
use crate::text::{concat, decimal, decimal_text, piece_of, same_text, trim_white_space, trimmed};

verus! {

/// A location reported by the semantic analyzer or by rustc.
#[derive(Debug)]
pub struct RawLocation {
    pub file: String,
    pub byte_start: Option<u32>,
    pub byte_end: Option<u32>,
    pub line: Option<u32>,
    pub column: Option<u32>,
    pub end_line: Option<u32>,
    pub end_column: Option<u32>,
}

/// The item that a semantic finding is about.
#[derive(Debug)]
pub struct RawIdentity {
    pub item: String,
    pub kind: String,
}

/// One diagnostic of the semantic analyzer.
#[derive(Debug)]
pub struct RawSemanticDiagnostic {
    pub category: String,
    pub code: String,
    pub identity: Option<RawIdentity>,
    pub location: Option<RawLocation>,
    pub reason: Option<String>,
}

/// The report of the semantic analyzer.
#[derive(Debug)]
pub struct SemanticReport {
    pub schema_version: u32,
    pub diagnostics: Vec<RawSemanticDiagnostic>,
}

/// The code of a rustc diagnostic.
#[derive(Debug)]
pub struct RustcCode {
    pub code: String,
}

/// A source range of a rustc diagnostic.
#[derive(Debug)]
pub struct RustcSpan {
    pub file_name: String,
    pub byte_start: u32,
    pub byte_end: u32,
    pub line_start: u32,
    pub line_end: u32,
    pub column_start: u32,
    pub column_end: u32,
    pub is_primary: bool,
}

/// A rustc diagnostic, as Cargo forwards it.
#[derive(Debug)]
pub struct RustcDiagnostic {
    pub message: String,
    pub level: String,
    pub code: Option<RustcCode>,
    pub spans: Vec<RustcSpan>,
}

/// One line of Cargo's JSON output, which may carry a rustc diagnostic.
#[derive(Debug)]
pub struct RustcMessage {
    pub message: Option<RustcDiagnostic>,
}

/// The schema of the semantic analyzer's report that this library reads.
pub const SEMANTIC_SCHEMA: u32 = 5;

/// The schema of the semantic analyzer's event stream that this library reads.
pub const STREAM_SCHEMA: u32 = 1;

/// `value`, or `default` when it is absent.
pub open spec fn or_default(value: Option<u32>, default: u32) -> u32 {
    match value {
        Some(v) => v,
        None => default,
    }
}

/// `n + 1`, saturating at `u32::MAX`.
pub open spec fn saturating_next(n: u32) -> u32 {
    if n == u32::MAX {
        u32::MAX
    } else {
        (n + 1) as u32
    }
}

/// The span of `start..end` at a reported location: absent lines and
/// columns default to the first line and column, and an absent end to the
/// start line and the column after the start.
pub open spec fn location_span(location: RawLocation, start: u32, end: u32) -> SourceSpan {
    let line = or_default(location.line, 1);
    let column = or_default(location.column, 1);
    SourceSpan {
        byte_start: start,
        byte_end: end,
        start: Position { line, column },
        end: Position {
            line: or_default(location.end_line, line),
            column: or_default(location.end_column, saturating_next(column)),
        },
    }
}

/// The location of a rustc span, with every field present.
pub open spec fn rustc_location(span: RustcSpan) -> RawLocation {
    RawLocation {
        file: span.file_name,
        byte_start: Some(span.byte_start),
        byte_end: Some(span.byte_end),
        line: Some(span.line_start),
        column: Some(span.column_start),
        end_line: Some(span.line_end),
        end_column: Some(span.column_end),
    }
}

impl RawLocation {
    /// The span of `start..end` at this location.
    pub fn span(&self, start: u32, end: u32) -> (span: SourceSpan)
        ensures
            span == location_span(*self, start, end),
    {
        let line = match self.line {
            Some(line) => line,
            None => 1,
        };
        let column = match self.column {
            Some(column) => column,
            None => 1,
        };
        let end_line = match self.end_line {
            Some(end_line) => end_line,
            None => line,
        };
        let end_column = match self.end_column {
            Some(end_column) => end_column,
            None => column.saturating_add(1),
        };
        SourceSpan {
            byte_start: start,
            byte_end: end,
            start: Position { line, column },
            end: Position { line: end_line, column: end_column },
        }
    }

    /// The location of a rustc span.
    pub fn from_rustc(span: RustcSpan) -> (location: Self)
        ensures
            location == rustc_location(span),
    {
        RawLocation {
            file: span.file_name,
            byte_start: Some(span.byte_start),
            byte_end: Some(span.byte_end),
            line: Some(span.line_start),
            column: Some(span.column_start),
            end_line: Some(span.line_end),
            end_column: Some(span.column_end),
        }
    }
}

/// The bytes of a source's text.
pub open spec fn source_bytes(input: &AnalysisInput, k: int) -> Seq<u8> {
    input.sources@[k].lines.text_bytes()
}

/// The span that a location gives within the source `k`: its own byte range
/// when it has one (the end defaulting to the byte after the start), else
/// the first scalar of the source.
pub open spec fn span_in_source(input: &AnalysisInput, k: int, location: RawLocation) -> SourceSpan {
    match location.byte_start {
        Some(start) => location_span(
            location,
            start,
            or_default(location.byte_end, saturating_next(start)),
        ),
        None => span_at(
            source_bytes(input, k),
            0,
            if source_bytes(input, k).len() == 0 {
                0
            } else {
                1
            },
        ),
    }
}

/// Whether the first scalar of every source that a file name could name is
/// one byte long, as a location without a byte range needs: the sources
/// whose paths are a contiguous part of the name.
pub open spec fn first_scalars_are_single_bytes(input: &AnalysisInput, named: Seq<char>) -> bool {
    forall|k: int|
        0 <= k < input.sources@.len() && piece_of(input.sources@[k].relative_path@, named)
            ==> is_char_boundary(
            #[trigger] source_bytes(input, k),
            clamped_end(source_bytes(input, k), 0, 1),
        )
}

/// Whether `path` is the relative path of the source `k`.
pub open spec fn source_at(input: &AnalysisInput, k: int, path: Seq<char>) -> bool {
    0 <= k < input.sources@.len() && input.sources@[k].relative_path@ == path
}

/// Whether the path `path` names no loaded source.
pub open spec fn unknown_source(input: &AnalysisInput, path: Seq<char>) -> bool {
    forall|k: int| 0 <= k < input.sources@.len() ==> !source_at(input, k, path)
}

pub(crate) fn find_source(input: &AnalysisInput, path: &str) -> (found: Option<usize>)
    ensures
        match found {
            Some(k) => source_at(input, k as int, path@) && forall|m: int|
                0 <= m < k ==> !source_at(input, m, path@),
            None => unknown_source(input, path@),
        },
{
    let mut k: usize = 0;
    while k < input.sources.len()
        invariant
            k <= input.sources@.len(),
            forall|m: int| 0 <= m < k ==> !source_at(input, m, path@),
        decreases input.sources@.len() - k,
    {
        if same_text(input.sources[k].relative_path.as_str(), path) {
            return Some(k);
        }
        k = k + 1;
    }
    None
}

/// Whether `looked` is the workspace path under which the file name `named`
/// is looked up, when the platform does (`absolute`) or does not read it as
/// absolute: the name itself when not; when it is, what follows the
/// workspace root if the root leads it and nothing otherwise, stated for
/// plain paths from the root, whose components are the same everywhere.
pub open spec fn source_lookup(
    input: &AnalysisInput,
    named: Seq<char>,
    absolute: bool,
    looked: Option<Seq<char>>,
) -> bool {
    let root = input.workspace_root@;
    &&& !absolute ==> looked == Some(named)
    &&& absolute && rooted_plain(named) && rooted_plain(root) ==> looked == if path_names(
        root,
    ).is_prefix_of(path_names(named)) {
        Some(path_remainder(named, root))
    } else {
        None::<Seq<char>>
    }
}

/// Whether `found` is where `location` lies among the loaded sources: the
/// source whose path is the looked-up path, with the location's span in it;
/// whether the platform reads the file name as absolute (which only a name
/// that may be absolute is) is left open.
pub open spec fn located_source(
    input: &AnalysisInput,
    location: RawLocation,
    found: Option<(String, SourceSpan)>,
) -> bool {
    let named = crate::messages::forward_slashes(location.file@);
    &&& found matches Some((path, span)) ==> exists|k: int|
        {
            &&& source_at(input, k, path@)
            &&& located(path@, location.file@)
            &&& span == span_in_source(input, k, location)
        }
    &&& exists|absolute: bool, looked: Option<Seq<char>>|
        {
            &&& absolute ==> may_be_absolute(named)
            &&& source_lookup(input, named, absolute, looked)
            &&& match looked {
                None => found is None,
                Some(p) => (found is Some <==> !unknown_source(input, p)) && (found matches Some(
                    (q, _),
                ) ==> q@ == p),
            }
        }
}

/// The path and span of a location within the loaded sources. A location
/// outside them, in a file that was not loaded or outside the workspace, has
/// none.
pub fn source_location(input: &AnalysisInput, location: &RawLocation) -> (found: Option<
    (String, SourceSpan),
>)
    requires
        input.wf(),
        location.byte_start is None ==> first_scalars_are_single_bytes(
            input,
            crate::messages::forward_slashes(location.file@),
        ),
    ensures
        match found {
            Some((path, span)) => exists|k: int|
                {
                    &&& source_at(input, k, path@)
                    &&& located(path@, location.file@)
                    &&& span == span_in_source(input, k, *location)
                },
            None => !may_be_absolute(crate::messages::forward_slashes(location.file@))
                ==> unknown_source(input, crate::messages::forward_slashes(location.file@)),
        },
        !may_be_absolute(crate::messages::forward_slashes(location.file@)) ==> (found is None
            <==> unknown_source(input, crate::messages::forward_slashes(location.file@))),
        located_source(input, *location, found),
{
    let named = with_forward_slashes(location.file.as_str());
    proof {
        if named@.len() > 0 {
            assert(named@[0] != '\\');
        }
    }
    let mut path = named.clone();
    let absolute = is_absolute_path(named.as_str());
    if absolute {
        match strip_path_prefix(named.as_str(), input.workspace_root.as_str()) {
            Some(relative) => {
                path = relative;
            },
            None => {
                proof {
                    assert(source_lookup(input, named@, absolute, None));
                }
                return None;
            },
        }
    }
    proof {
        assert(source_lookup(input, named@, absolute, Some(path@)));
        if !absolute {
            assert(named@.subrange(0, named@.len() as int) =~= named@);
        }
        assert(piece_of(path@, named@));
    }
    let k = match find_source(input, path.as_str()) {
        Some(k) => k,
        None => {
            return None;
        },
    };
    let source = &input.sources[k];
    let span = match location.byte_start {
        Some(start) => {
            let end = match location.byte_end {
                Some(end) => end,
                None => start.saturating_add(1),
            };
            let found = location.span(start, end);
            assert(end == or_default(location.byte_end, saturating_next(start)));
            found
        },
        None => {
            proof {
                assert(input.sources@[k as int].wf());
                let bytes = source_bytes(input, k as int);
                assert(bytes == encode_utf8(source.text@));
                vstd::utf8::encode_utf8_valid_utf8(source.text@);
                vstd::utf8::is_char_boundary_start_end_of_seq(bytes);
                assert(is_char_boundary(bytes, clamped_end(bytes, 0, 1)));
            }
            let text = source.text.as_str();
            let text_len = text.as_bytes().len();
            assert(text.spec_bytes() == encode_utf8(source.text@));
            assert(text_len == source_bytes(input, k as int).len());
            let end: usize = if text_len == 0 {
                0
            } else {
                1
            };
            let found = source.lines.span(source.text.as_str(), 0, end);
            assert(end as int == (if source_bytes(input, k as int).len() == 0 { 0int } else { 1int }));
            assert(found == span_at(source_bytes(input, k as int), 0, end as int));
            assert(found == span_in_source(input, k as int, *location));
            found
        },
    };
    assert(source_at(input, k as int, path@));
    assert(located(path@, location.file@));
    assert(span == span_in_source(input, k as int, *location));
    assert(!unknown_source(input, path@));
    Some((path, span))
}

/// Whether two semantic findings are the same: the same kind at the same
/// path and start offset.
pub open spec fn same_semantic_finding(a: SemanticFindingFact, b: SemanticFindingFact) -> bool {
    a.kind == b.kind && a.path@ == b.path@ && a.span.byte_start == b.span.byte_start
}

/// Whether `findings` already holds `finding`.
pub open spec fn already_found(
    findings: Seq<SemanticFindingFact>,
    finding: SemanticFindingFact,
) -> bool {
    exists|k: int| 0 <= k < findings.len() && same_semantic_finding(#[trigger] findings[k], finding)
}

/// `findings` with `finding` added, unless it already holds it.
pub open spec fn with_finding(
    findings: Seq<SemanticFindingFact>,
    finding: SemanticFindingFact,
) -> Seq<SemanticFindingFact> {
    if already_found(findings, finding) {
        findings
    } else {
        findings.push(finding)
    }
}

/// Whether no two findings are the same.
pub open spec fn distinct_findings(findings: Seq<SemanticFindingFact>) -> bool {
    forall|i: int, j: int|
        0 <= i < j < findings.len() ==> !same_semantic_finding(
            #[trigger] findings[i],
            #[trigger] findings[j],
        )
}

/// Adds `finding` to the facts unless they already hold the same finding.
pub fn push_unique(facts: &mut CodebaseFacts, finding: SemanticFindingFact)
    ensures
        final(facts).files@ == old(facts).files@,
        final(facts).semantic_findings@ == with_finding(old(facts).semantic_findings@, finding),
{
    let mut k: usize = 0;
    while k < facts.semantic_findings.len()
        invariant
            k <= facts.semantic_findings@.len(),
            forall|m: int|
                0 <= m < k ==> !same_semantic_finding(
                    #[trigger] facts.semantic_findings@[m],
                    finding,
                ),
        decreases facts.semantic_findings@.len() - k,
    {
        let existing = &facts.semantic_findings[k];
        if existing.kind == finding.kind && same_text(
            existing.path.as_str(),
            finding.path.as_str(),
        ) && existing.span.byte_start == finding.span.byte_start {
            assert(same_semantic_finding(facts.semantic_findings@[k as int], finding));
            return;
        }
        k = k + 1;
    }
    facts.semantic_findings.push(finding);
}

/// Adding a finding keeps the findings distinct.
pub proof fn lemma_with_finding_distinct(
    findings: Seq<SemanticFindingFact>,
    finding: SemanticFindingFact,
)
    requires
        distinct_findings(findings),
    ensures
        distinct_findings(with_finding(findings, finding)),
{
    if !already_found(findings, finding) {
        let all = findings.push(finding);
        assert forall|i: int, j: int| 0 <= i < j < all.len() implies !same_semantic_finding(
            #[trigger] all[i],
            #[trigger] all[j],
        ) by {
            assert(all[i] == findings[i]);
            if j < findings.len() {
                assert(all[j] == findings[j]);
            } else {
                assert(all[j] == finding);
            }
        }
    }
}

/// The finding kind of a semantic analyzer code.
pub open spec fn spec_hir_kind(code: Seq<char>) -> Option<SemanticFindingKind> {
    if code == "hawk::dead_public"@ {
        Some(SemanticFindingKind::DeadPublic)
    } else if code == "hawk::test_only"@ {
        Some(SemanticFindingKind::TestOnly)
    } else if code == "hawk::unnecessary_public"@ {
        Some(SemanticFindingKind::UnnecessaryPublic)
    } else if code == "hawk::unnecessary_restricted_visibility"@ {
        Some(SemanticFindingKind::UnnecessaryRestrictedVisibility)
    } else if code == "hawk::unnecessary_crate_visibility"@ {
        Some(SemanticFindingKind::UnnecessaryCrateVisibility)
    } else {
        None
    }
}

/// The finding kind of a semantic analyzer code, if it reports one.
pub fn hir_kind(code: &str) -> (kind: Option<SemanticFindingKind>)
    ensures
        kind == spec_hir_kind(code@),
{
    if same_text(code, "hawk::dead_public") {
        Some(SemanticFindingKind::DeadPublic)
    } else if same_text(code, "hawk::test_only") {
        Some(SemanticFindingKind::TestOnly)
    } else if same_text(code, "hawk::unnecessary_public") {
        Some(SemanticFindingKind::UnnecessaryPublic)
    } else if same_text(code, "hawk::unnecessary_restricted_visibility") {
        Some(SemanticFindingKind::UnnecessaryRestrictedVisibility)
    } else if same_text(code, "hawk::unnecessary_crate_visibility") {
        Some(SemanticFindingKind::UnnecessaryCrateVisibility)
    } else {
        None
    }
}

/// The analyzer lint that a semantic rule of the policy configures.
pub open spec fn spec_rule_lint(rule: Seq<char>) -> Option<Seq<char>> {
    if rule == "dead-code/public"@ {
        Some("hawk::dead_public"@)
    } else if rule == "dead-code/test-only"@ {
        Some("hawk::test_only"@)
    } else if rule == "visibility/unnecessary-public"@ {
        Some("hawk::unnecessary_public"@)
    } else if rule == "visibility/unnecessary-restricted"@ {
        Some("hawk::unnecessary_restricted_visibility"@)
    } else if rule == "visibility/unnecessary-crate"@ {
        Some("hawk::unnecessary_crate_visibility"@)
    } else {
        None
    }
}

/// The analyzer lint that a semantic rule of the policy configures.
pub fn axiom_rule_to_hawk(rule: &str) -> (lint: Option<&'static str>)
    ensures
        match lint {
            Some(found) => spec_rule_lint(rule@) == Some(found@),
            None => spec_rule_lint(rule@) is None,
        },
{
    if same_text(rule, "dead-code/public") {
        Some("hawk::dead_public")
    } else if same_text(rule, "dead-code/test-only") {
        Some("hawk::test_only")
    } else if same_text(rule, "visibility/unnecessary-public") {
        Some("hawk::unnecessary_public")
    } else if same_text(rule, "visibility/unnecessary-restricted") {
        Some("hawk::unnecessary_restricted_visibility")
    } else if same_text(rule, "visibility/unnecessary-crate") {
        Some("hawk::unnecessary_crate_visibility")
    } else {
        None
    }
}

/// Every semantic rule that the policy can configure maps to an analyzer
/// lint whose findings are collected.
pub proof fn lemma_rule_lints_are_collected(rule: Seq<char>)
    ensures
        spec_rule_lint(rule) matches Some(lint) ==> spec_hir_kind(lint) is Some,
{
}

/// The message of a semantic configuration error.
pub open spec fn configuration_error_text(code: Seq<char>, reason: Option<String>) -> Seq<char> {
    "semantic configuration "@ + code + ": "@ + match reason {
        Some(reason) => reason@,
        None => "invalid or stale exception"@,
    }
}

/// How one analyzer diagnostic changes the findings `before` into `after`,
/// or the error it gives: a configuration diagnostic is an error; a finding
/// of a known kind, with an identity and a location, is added at the source
/// the location lies in (`located_source`) unless already present, and
/// nothing changes when it lies in none; anything else changes nothing.
pub open spec fn diagnostic_step(
    input: &AnalysisInput,
    diagnostic: RawSemanticDiagnostic,
    before: Seq<SemanticFindingFact>,
    after: Seq<SemanticFindingFact>,
) -> bool {
    if diagnostic.category@ == "configuration"@ {
        false
    } else {
        match (spec_hir_kind(diagnostic.code@), diagnostic.identity, diagnostic.location) {
            (Some(kind), Some(identity), Some(location)) => exists|
                found: Option<(String, SourceSpan)>,
            |
                #[trigger] located_source(input, location, found) && match found {
                    None => after == before,
                    Some((path, span)) => after == with_finding(
                        before,
                        SemanticFindingFact {
                            kind,
                            item: identity.item,
                            item_kind: Some(identity.kind),
                            path,
                            span,
                        },
                    ),
                },
            _ => after == before,
        }
    }
}

/// Whether the location of an analyzer diagnostic, if it has one without a
/// byte range, can be resolved without splitting a scalar.
pub open spec fn resolvable_location(input: &AnalysisInput, location: Option<RawLocation>) -> bool {
    match location {
        Some(found) => found.byte_start is None ==> first_scalars_are_single_bytes(
            input,
            crate::messages::forward_slashes(found.file@),
        ),
        None => true,
    }
}

/// Adds the finding of one analyzer diagnostic to the facts.
pub fn append_diagnostic(
    input: &AnalysisInput,
    facts: &mut CodebaseFacts,
    diagnostic: RawSemanticDiagnostic,
) -> (result: Result<(), AnalysisError>)
    requires
        input.wf(),
        resolvable_location(input, diagnostic.location),
    ensures
        final(facts).files@ == old(facts).files@,
        result is Err <==> diagnostic.category@ == "configuration"@,
        result matches Err(error) ==> {
            &&& error.message@ == configuration_error_text(diagnostic.code@, diagnostic.reason)
            &&& error.path is None
            &&& error.span is None
            &&& final(facts).semantic_findings@ == old(facts).semantic_findings@
        },
        result is Ok ==> diagnostic_step(
            input,
            diagnostic,
            old(facts).semantic_findings@,
            final(facts).semantic_findings@,
        ),
{
    if same_text(diagnostic.category.as_str(), "configuration") {
        let mut message = concat("semantic configuration ", diagnostic.code.as_str());
        message.append(": ");
        match &diagnostic.reason {
            Some(reason) => message.append(reason.as_str()),
            None => message.append("invalid or stale exception"),
        }
        return Err(AnalysisError::new(message));
    }
    let kind = match hir_kind(diagnostic.code.as_str()) {
        Some(kind) => kind,
        None => {
            return Ok(());
        },
    };
    let ghost old_diagnostic = diagnostic;
    let (identity, location) = match (diagnostic.identity, diagnostic.location) {
        (Some(identity), Some(location)) => (identity, location),
        _ => {
            return Ok(());
        },
    };
    let (path, span) = match source_location(input, &location) {
        Some(found) => found,
        None => {
            proof {
                assert(located_source(input, location, None));
            }
            return Ok(());
        },
    };
    proof {
        assert(located_source(input, location, Some((path, span))));
    }
    let finding = SemanticFindingFact {
        kind,
        item: identity.item,
        item_kind: Some(identity.kind),
        path,
        span,
    };
    push_unique(facts, finding);
    Ok(())
}

/// Whether `states` walks the findings through `diagnostics` one by one.
pub open spec fn steps_through(
    input: &AnalysisInput,
    diagnostics: Seq<RawSemanticDiagnostic>,
    states: Seq<Seq<SemanticFindingFact>>,
) -> bool {
    &&& states.len() == diagnostics.len() + 1
    &&& forall|i: int|
        0 <= i < diagnostics.len() ==> diagnostic_step(
            input,
            #[trigger] diagnostics[i],
            states[i],
            states[i + 1],
        )
}

/// Whether `diagnostic` is a configuration error of the analyzer.
pub open spec fn is_configuration(diagnostic: RawSemanticDiagnostic) -> bool {
    diagnostic.category@ == "configuration"@
}

/// The message of an analyzer report with an unexpected schema.
pub open spec fn report_schema_error_text(version: u32) -> Seq<char> {
    "semantic analyzer schema "@ + decimal(version as nat)
        + " is incompatible with expected schema "@ + decimal(SEMANTIC_SCHEMA as nat)
}

fn schema_error(prefix: &str, version: u32, expected: u32) -> (error: AnalysisError)
    ensures
        error.message@ == prefix@ + decimal(version as nat) + " is incompatible with expected schema "@
            + decimal(expected as nat),
        error.path is None,
        error.span is None,
{
    let mut message = String::from_str(prefix);
    crate::text::push_decimal(&mut message, version as u64);
    message.append(" is incompatible with expected schema ");
    crate::text::push_decimal(&mut message, expected as u64);
    AnalysisError::new(message)
}

/// Adds the findings of an analyzer report to the facts, after checking
/// its schema. The first configuration error of the report stops it.
pub fn apply_report(input: &AnalysisInput, facts: &mut CodebaseFacts, report: SemanticReport) -> (result:
    Result<(), AnalysisError>)
    requires
        input.wf(),
        forall|i: int|
            0 <= i < report.diagnostics@.len() ==> resolvable_location(
                input,
                (#[trigger] report.diagnostics@[i]).location,
            ),
    ensures
        final(facts).files@ == old(facts).files@,
        report.schema_version != SEMANTIC_SCHEMA ==> {
            &&& result matches Err(error) && error.message@ == report_schema_error_text(
                report.schema_version,
            )
            &&& final(facts).semantic_findings@ == old(facts).semantic_findings@
        },
        report.schema_version == SEMANTIC_SCHEMA ==> (result is Ok <==> forall|i: int|
            0 <= i < report.diagnostics@.len() ==> !is_configuration(
                #[trigger] report.diagnostics@[i],
            )),
        result is Ok ==> exists|states: Seq<Seq<SemanticFindingFact>>|
            {
                &&& steps_through(input, report.diagnostics@, states)
                &&& states[0] == old(facts).semantic_findings@
                &&& states.last() == final(facts).semantic_findings@
            },
        report.schema_version == SEMANTIC_SCHEMA && result is Err ==> exists|c: int|
            {
                &&& 0 <= c < report.diagnostics@.len()
                &&& is_configuration(report.diagnostics@[c])
                &&& forall|j: int| 0 <= j < c ==> !is_configuration(#[trigger] report.diagnostics@[j])
                &&& result matches Err(error) && error.message@ == configuration_error_text(
                    report.diagnostics@[c].code@,
                    report.diagnostics@[c].reason,
                )
            },
{
    if report.schema_version != SEMANTIC_SCHEMA {
        proof {
            reveal_strlit("semantic analyzer schema ");
        }
        return Err(
            schema_error("semantic analyzer schema ", report.schema_version, SEMANTIC_SCHEMA),
        );
    }
    let ghost all = report.diagnostics@;
    let ghost version = report.schema_version;
    let ghost start = facts.semantic_findings@;
    let mut diagnostics = report.diagnostics;
    let total = diagnostics.len();
    let mut index: usize = 0;
    let ghost mut states: Seq<Seq<SemanticFindingFact>> = seq![start];
    while diagnostics.len() > 0
        invariant
            index <= all.len(),
            total == all.len(),
            version == report.schema_version,
            version == SEMANTIC_SCHEMA,
            all == report.diagnostics@,
            diagnostics@ == all.subrange(index as int, all.len() as int),
            input.wf(),
            forall|i: int|
                0 <= i < all.len() ==> resolvable_location(input, (#[trigger] all[i]).location),
            facts.files@ == old(facts).files@,
            start == old(facts).semantic_findings@,
            states.len() == index + 1,
            states[0] == start,
            states.last() == facts.semantic_findings@,
            forall|i: int|
                0 <= i < index ==> diagnostic_step(input, #[trigger] all[i], states[i], states[i + 1]),
            forall|i: int| 0 <= i < index ==> !is_configuration(#[trigger] all[i]),
        decreases diagnostics@.len(),
    {
        let diagnostic = diagnostics.remove(0);
        assert(diagnostic == all[index as int]);
        let ghost before = facts.semantic_findings@;
        match append_diagnostic(input, facts, diagnostic) {
            Ok(()) => {},
            Err(error) => {
                return Err(error);
            },
        }
        proof {
            let old_states = states;
            states = states.push(facts.semantic_findings@);
            assert forall|i: int| 0 <= i < index + 1 implies diagnostic_step(
                input,
                #[trigger] all[i],
                states[i],
                states[i + 1],
            ) by {
                if i < index {
                    assert(states[i] == old_states[i] && states[i + 1] == old_states[i + 1]);
                }
            }
        }
        index = index + 1;
    }
    assert(all.subrange(0, index as int).len() == all.len());
    assert(steps_through(input, all, states));
    Ok(())
}

/// The message of an external command that failed: the operation, then the
/// trimmed output the command printed, or its exit status when that is empty.
pub open spec fn command_failure_text(operation: Seq<char>, status: Seq<char>, detail: Seq<char>) -> Seq<
    char,
> {
    if detail.len() == 0 {
        operation + " failed with "@ + status
    } else {
        operation + " failed: "@ + detail
    }
}

/// The error of an external command that failed.
pub fn command_failure(operation: &str, status: &str, stderr: &str) -> (error: AnalysisError)
    ensures
        error.message@ == command_failure_text(operation@, status@, trim_white_space(stderr@)),
        error.path is None,
        error.span is None,
{
    let detail = trimmed(stderr);
    let message = if detail.unicode_len() == 0 {
        let mut message = concat(operation, " failed with ");
        message.append(status);
        message
    } else {
        let mut message = concat(operation, " failed: ");
        message.append(detail);
        message
    };
    AnalysisError::new(message)
}

/// One event of the semantic analyzer's stream.
#[derive(Debug)]
pub struct StreamEvent {
    pub stream_schema_version: u32,
    pub kind: String,
    pub diagnostic: Option<RawSemanticDiagnostic>,
    pub report: Option<SemanticReport>,
}

/// The message of a stream event with an unexpected schema.
pub open spec fn stream_schema_error_text(version: u32) -> Seq<char> {
    "semantic stream schema "@ + decimal(version as nat) + " is incompatible with expected schema "@
        + decimal(STREAM_SCHEMA as nat)
}

/// A stream event whose schema is the one this library reads, or the error.
pub fn check_stream_event(event: StreamEvent) -> (result: Result<StreamEvent, AnalysisError>)
    ensures
        event.stream_schema_version == STREAM_SCHEMA <==> result is Ok,
        result matches Ok(found) ==> found == event,
        result matches Err(error) ==> error.message@ == stream_schema_error_text(
            event.stream_schema_version,
        ),
{
    if event.stream_schema_version != STREAM_SCHEMA {
        proof {
            reveal_strlit("semantic stream schema ");
        }
        return Err(
            schema_error("semantic stream schema ", event.stream_schema_version, STREAM_SCHEMA),
        );
    }
    Ok(event)
}

/// What a stream event leads to.
#[derive(Debug)]
pub enum EventStep {
    /// A private dead-code finding was read; whether it was new.
    Finding(bool),
    /// The analysis completed, with its final report if it sent one.
    Complete(Option<SemanticReport>),
}

/// The message of an unknown stream event.
pub open spec fn unknown_event_text(kind: Seq<char>) -> Seq<char> {
    "semantic analyzer returned unknown stream event `"@ + kind + "`"@
}

/// Handles one stream event: a private dead-code event adds its finding, a
/// completion event ends the stream, and any other event is an error.
pub fn handle_event(event: StreamEvent, input: &AnalysisInput, facts: &mut CodebaseFacts) -> (result:
    Result<EventStep, AnalysisError>)
    requires
        input.wf(),
        event.diagnostic matches Some(diagnostic) ==> resolvable_location(
            input,
            diagnostic.location,
        ),
    ensures
        final(facts).files@ == old(facts).files@,
        event.kind@ == "private_dead_code"@ ==> match event.diagnostic {
            None => {
                &&& result matches Err(error) && error.message@
                    == "semantic private-dead-code event has no diagnostic"@
                &&& final(facts).semantic_findings@ == old(facts).semantic_findings@
            },
            Some(diagnostic) => match result {
                Ok(step) => {
                    &&& diagnostic_step(
                        input,
                        diagnostic,
                        old(facts).semantic_findings@,
                        final(facts).semantic_findings@,
                    )
                    &&& step == EventStep::Finding(
                        final(facts).semantic_findings@.len() != old(
                            facts,
                        ).semantic_findings@.len(),
                    )
                },
                Err(error) => {
                    &&& is_configuration(diagnostic)
                    &&& error.message@ == configuration_error_text(
                        diagnostic.code@,
                        diagnostic.reason,
                    )
                    &&& final(facts).semantic_findings@ == old(facts).semantic_findings@
                },
            },
        },
        event.kind@ == "complete"@ ==> result == Ok::<EventStep, AnalysisError>(
            EventStep::Complete(event.report),
        ) && final(facts).semantic_findings@ == old(facts).semantic_findings@,
        event.kind@ != "private_dead_code"@ && event.kind@ != "complete"@ ==> {
            &&& result matches Err(error) && error.message@ == unknown_event_text(event.kind@)
            &&& final(facts).semantic_findings@ == old(facts).semantic_findings@
        },
{
    proof {
        reveal_strlit("private_dead_code");
        reveal_strlit("complete");
        assert("private_dead_code"@.len() != "complete"@.len());
        assert("private_dead_code"@ != "complete"@);
    }
    if same_text(event.kind.as_str(), "private_dead_code") {
        let diagnostic = match event.diagnostic {
            Some(diagnostic) => diagnostic,
            None => {
                let message = String::from_str("semantic private-dead-code event has no diagnostic");
                return Err(AnalysisError::new(message));
            },
        };
        let before = facts.semantic_findings.len();
        match append_diagnostic(input, facts, diagnostic) {
            Ok(()) => {},
            Err(error) => {
                return Err(error);
            },
        }
        let added = facts.semantic_findings.len() != before;
        return Ok(EventStep::Finding(added));
    }
    if same_text(event.kind.as_str(), "complete") {
        return Ok(EventStep::Complete(event.report));
    }
    let mut message = concat("semantic analyzer returned unknown stream event `", event.kind.as_str());
    message.append("`");
    Err(AnalysisError::new(message))
}

/// The report that ends a semantic analysis stream, or its error: a failed
/// run could not complete, and a run that ended without a report stopped
/// too early.
pub fn finish_stream(
    succeeded: bool,
    status: &str,
    stderr: &str,
    report: Option<SemanticReport>,
) -> (result: Result<SemanticReport, AnalysisError>)
    ensures
        result is Ok <==> succeeded && report is Some,
        !succeeded ==> (result matches Err(error) && error.message@ == command_failure_text(
            "semantic analysis"@,
            status@,
            trim_white_space(stderr@),
        )),
        succeeded && report is None ==> (result matches Err(error) && error.message@
            == "semantic analysis stream ended before completion"@),
        result matches Ok(found) ==> report == Some(found),
{
    if !succeeded {
        return Err(command_failure("semantic analysis", status, stderr));
    }
    match report {
        Some(report) => Ok(report),
        None => Err(
            AnalysisError::new(String::from_str("semantic analysis stream ended before completion")),
        ),
    }
}

/// Whether a rustc diagnostic reports dead code.
pub open spec fn is_dead_code(diagnostic: RustcDiagnostic) -> bool {
    diagnostic.code matches Some(code) && code.code@ == "dead_code"@
}

/// Whether a rustc diagnostic is an error other than dead code.
pub open spec fn is_other_error(diagnostic: RustcDiagnostic) -> bool {
    diagnostic.level@ == "error"@ && !is_dead_code(diagnostic)
}

/// Whether the primary spans of a dead-code report can be resolved without
/// splitting a scalar; every rustc span has a byte range.
pub open spec fn is_primary(span: RustcSpan) -> bool {
    span.is_primary
}

/// The forward-slash file name of a rustc span.
pub open spec fn span_file(span: RustcSpan) -> Seq<char> {
    crate::messages::forward_slashes(span.file_name@)
}

/// Whether the primary span `span` surely resolves to a loaded source: its
/// file name is relative and names one.
pub open spec fn surely_resolved(input: &AnalysisInput, span: RustcSpan) -> bool {
    span.is_primary && !may_be_absolute(span_file(span)) && !unknown_source(input, span_file(span))
}

/// Whether the primary span `span` surely resolves to no loaded source.
pub open spec fn surely_unresolved(input: &AnalysisInput, span: RustcSpan) -> bool {
    span.is_primary && !may_be_absolute(span_file(span)) && unknown_source(input, span_file(span))
}

/// How many of the spans are primary.
pub open spec fn primary_count(spans: Seq<RustcSpan>) -> nat
    decreases spans.len(),
{
    if spans.len() == 0 {
        0
    } else {
        primary_count(spans.drop_last()) + if spans.last().is_primary {
            1nat
        } else {
            0nat
        }
    }
}

/// How many of the spans surely resolve to a loaded source.
pub open spec fn resolved_count(input: &AnalysisInput, spans: Seq<RustcSpan>) -> nat
    decreases spans.len(),
{
    if spans.len() == 0 {
        0
    } else {
        resolved_count(input, spans.drop_last()) + if surely_resolved(input, spans.last()) {
            1nat
        } else {
            0nat
        }
    }
}

/// How many of the spans surely resolve to no loaded source.
pub open spec fn unresolved_count(input: &AnalysisInput, spans: Seq<RustcSpan>) -> nat
    decreases spans.len(),
{
    if spans.len() == 0 {
        0
    } else {
        unresolved_count(input, spans.drop_last()) + if surely_unresolved(input, spans.last()) {
            1nat
        } else {
            0nat
        }
    }
}

/// Whether `finding` is a private dead-code finding of `message` at one of
/// `spans`.
pub open spec fn dead_code_finding(
    input: &AnalysisInput,
    finding: SemanticFindingFact,
    message: Seq<char>,
    spans: Seq<RustcSpan>,
) -> bool {
    &&& finding.kind == SemanticFindingKind::PrivateDeadCode
    &&& finding.item@ == message
    &&& finding.item_kind is None
    &&& exists|i: int|
        0 <= i < spans.len() && (#[trigger] spans[i]).is_primary && located(
            finding.path@,
            spans[i].file_name@,
        ) && exists|k: int|
            source_at(input, k, finding.path@) && finding.span == span_in_source(
                input,
                k,
                rustc_location(spans[i]),
            )
}

/// Whether `after` holds `before` and then only private dead-code findings
/// of `message` at one of `spans`, all distinct when `before` is.
pub open spec fn grows_by_dead_code(
    input: &AnalysisInput,
    before: Seq<SemanticFindingFact>,
    after: Seq<SemanticFindingFact>,
    message: Seq<char>,
    spans: Seq<RustcSpan>,
) -> bool {
    &&& before.len() <= after.len()
    &&& forall|k: int| 0 <= k < before.len() ==> after[k] == before[k]
    &&& forall|k: int|
        before.len() <= k < after.len() ==> dead_code_finding(
            input,
            #[trigger] after[k],
            message,
            spans,
        )
    &&& distinct_findings(before) ==> distinct_findings(after)
}

/// Adds a private dead-code finding for each primary span of a rustc
/// diagnostic that lies in a loaded source, and counts those spans.
pub fn append_dead_code(
    input: &AnalysisInput,
    facts: &mut CodebaseFacts,
    diagnostic: RustcDiagnostic,
) -> (count: usize)
    requires
        input.wf(),
    ensures
        final(facts).files@ == old(facts).files@,
        resolved_count(input, diagnostic.spans@) <= count,
        count <= primary_count(diagnostic.spans@) - unresolved_count(input, diagnostic.spans@),
        grows_by_dead_code(
            input,
            old(facts).semantic_findings@,
            final(facts).semantic_findings@,
            diagnostic.message@,
            diagnostic.spans@,
        ),
{
    let ghost all = diagnostic.spans@;
    let ghost message = diagnostic.message@;
    let ghost start = facts.semantic_findings@;
    let mut spans = diagnostic.spans;
    let total = spans.len();
    let mut count: usize = 0;
    let mut index: usize = 0;
    while spans.len() > 0
        invariant
            index <= all.len(),
            total == all.len(),
            spans@ == all.subrange(index as int, all.len() as int),
            input.wf(),
            facts.files@ == old(facts).files@,
            start == old(facts).semantic_findings@,
            message == diagnostic.message@,
            resolved_count(input, all.subrange(0, index as int)) <= count,
            count <= primary_count(all.subrange(0, index as int)) - unresolved_count(
                input,
                all.subrange(0, index as int),
            ),
            count <= index,
            grows_by_dead_code(input, start, facts.semantic_findings@, message, all),
        decreases spans@.len(),
    {
        let span = spans.remove(0);
        let ghost prefix = all.subrange(0, index + 1);
        proof {
            assert(prefix.drop_last() =~= all.subrange(0, index as int));
            assert(prefix.last() == span);
            assert(all[index as int] == span);
        }
        if span.is_primary {
            let location = RawLocation::from_rustc(span);
            match source_location(input, &location) {
                Some((path, found_span)) => {
                    let ghost before = facts.semantic_findings@;
                    let finding = SemanticFindingFact {
                        kind: SemanticFindingKind::PrivateDeadCode,
                        item: diagnostic.message.clone(),
                        item_kind: None,
                        path,
                        span: found_span,
                    };
                    proof {
                        let i = index as int;
                        assert(all[i].is_primary);
                        assert(location.file@ == all[i].file_name@);
                        assert(location == rustc_location(all[i]));
                        assert(located(finding.path@, all[i].file_name@));
                        assert(exists|k: int|
                            source_at(input, k, finding.path@) && finding.span == span_in_source(
                                input,
                                k,
                                rustc_location(all[i]),
                            ));
                        assert(dead_code_finding(input, finding, message, all));
                        if distinct_findings(before) {
                            lemma_with_finding_distinct(before, finding);
                        }
                    }
                    push_unique(facts, finding);
                    count = count + 1;
                    proof {
                        assert(grows_by_dead_code(
                            input,
                            start,
                            facts.semantic_findings@,
                            message,
                            all,
                        ));
                    }
                },
                None => {},
            }
        }
        index = index + 1;
    }
    assert(all.subrange(0, index as int) =~= all);
    count
}

/// The rustc diagnostic that one line of Cargo's output carries, if it
/// could be read and carries one.
pub open spec fn line_diagnostic(line: Option<RustcMessage>) -> Option<RustcDiagnostic> {
    match line {
        Some(message) => message.message,
        None => None,
    }
}

/// The primary spans of the dead-code diagnostics of Cargo's output.
pub open spec fn dead_primary(lines: Seq<Option<RustcMessage>>) -> nat
    decreases lines.len(),
{
    if lines.len() == 0 {
        0
    } else {
        dead_primary(lines.drop_last()) + match line_diagnostic(lines.last()) {
            Some(diagnostic) => if is_dead_code(diagnostic) {
                primary_count(diagnostic.spans@)
            } else {
                0nat
            },
            None => 0nat,
        }
    }
}

/// The dead-code primary spans of Cargo's output that surely resolve.
pub open spec fn dead_resolved(input: &AnalysisInput, lines: Seq<Option<RustcMessage>>) -> nat
    decreases lines.len(),
{
    if lines.len() == 0 {
        0
    } else {
        dead_resolved(input, lines.drop_last()) + match line_diagnostic(lines.last()) {
            Some(diagnostic) => if is_dead_code(diagnostic) {
                resolved_count(input, diagnostic.spans@)
            } else {
                0nat
            },
            None => 0nat,
        }
    }
}

/// The dead-code primary spans of Cargo's output that surely do not resolve.
pub open spec fn dead_unresolved(input: &AnalysisInput, lines: Seq<Option<RustcMessage>>) -> nat
    decreases lines.len(),
{
    if lines.len() == 0 {
        0
    } else {
        dead_unresolved(input, lines.drop_last()) + match line_diagnostic(lines.last()) {
            Some(diagnostic) => if is_dead_code(diagnostic) {
                unresolved_count(input, diagnostic.spans@)
            } else {
                0nat
            },
            None => 0nat,
        }
    }
}

/// The messages of the errors of Cargo's output other than dead code.
pub open spec fn other_errors(lines: Seq<Option<RustcMessage>>) -> Seq<Seq<char>>
    decreases lines.len(),
{
    if lines.len() == 0 {
        seq![]
    } else {
        let rest = other_errors(lines.drop_last());
        match line_diagnostic(lines.last()) {
            Some(diagnostic) => if is_other_error(diagnostic) {
                rest.push(diagnostic.message@)
            } else {
                rest
            },
            None => rest,
        }
    }
}

/// The errors that stop the dead-code analysis are Cargo's error-level
/// diagnostics whose code is not `dead_code`, in order: one more line adds
/// its message exactly when it carries a diagnostic of level `error` whose
/// code is not `dead_code`; a dead-code diagnostic, whatever its level, adds
/// nothing.
pub proof fn lemma_other_errors_step(lines: Seq<Option<RustcMessage>>, line: Option<RustcMessage>)
    ensures
        other_errors(lines.push(line)) == match line {
            Some(RustcMessage { message: Some(diagnostic) }) => if diagnostic.level@ == "error"@
                && !(diagnostic.code matches Some(code) && code.code@ == "dead_code"@) {
                other_errors(lines).push(diagnostic.message@)
            } else {
                other_errors(lines)
            },
            _ => other_errors(lines),
        },
{
    assert(lines.push(line).drop_last() =~= lines);
}

/// No line of Cargo's output gives an error of the dead-code analysis when
/// each of its diagnostics has the code `dead_code` or is below the error
/// level.
pub proof fn lemma_dead_code_is_no_other_error(lines: Seq<Option<RustcMessage>>)
    requires
        forall|i: int|
            0 <= i < lines.len() ==> match #[trigger] lines[i] {
                Some(RustcMessage { message: Some(diagnostic) }) => diagnostic.level@ != "error"@
                    || (diagnostic.code matches Some(code) && code.code@ == "dead_code"@),
                _ => true,
            },
    ensures
        other_errors(lines).len() == 0,
    decreases lines.len(),
{
    if lines.len() > 0 {
        let rest = lines.drop_last();
        assert forall|i: int| 0 <= i < rest.len() implies match #[trigger] rest[i] {
            Some(RustcMessage { message: Some(diagnostic) }) => diagnostic.level@ != "error"@
                || (diagnostic.code matches Some(code) && code.code@ == "dead_code"@),
            _ => true,
        } by {
            assert(rest[i] == lines[i]);
        }
        lemma_dead_code_is_no_other_error(rest);
        assert(rest.push(lines.last()) =~= lines);
        lemma_other_errors_step(rest, lines.last());
    }
}

/// Whether `finding` is a private dead-code finding of a dead-code
/// diagnostic of Cargo's output.
pub open spec fn dead_code_finding_of(
    input: &AnalysisInput,
    finding: SemanticFindingFact,
    lines: Seq<Option<RustcMessage>>,
) -> bool {
    exists|m: int|
        0 <= m < lines.len() && (line_diagnostic(#[trigger] lines[m]) matches Some(diagnostic)
            && is_dead_code(diagnostic) && dead_code_finding(
            input,
            finding,
            diagnostic.message@,
            diagnostic.spans@,
        ))
}

fn is_dead_code_exec(diagnostic: &RustcDiagnostic) -> (dead: bool)
    ensures
        dead == is_dead_code(*diagnostic),
{
    match &diagnostic.code {
        Some(code) => same_text(code.code.as_str(), "dead_code"),
        None => false,
    }
}

/// Reads Cargo's JSON output of a dead-code check: adds a private dead-code
/// finding for each primary span of a dead-code diagnostic in a loaded
/// source, and gathers the other errors. Lines that could not be read are
/// passed over. Returns how many dead-code spans were found, and the other
/// errors' messages in order.
pub fn parse_messages(
    input: &AnalysisInput,
    facts: &mut CodebaseFacts,
    lines: Vec<Option<RustcMessage>>,
) -> (result: (usize, Vec<String>))
    requires
        input.wf(),
        dead_primary(lines@) <= usize::MAX,
    ensures
        final(facts).files@ == old(facts).files@,
        result.1@.map_values(|text: String| text@) == other_errors(lines@),
        dead_resolved(input, lines@) <= result.0,
        result.0 <= dead_primary(lines@) - dead_unresolved(input, lines@),
        old(facts).semantic_findings@.len() <= final(facts).semantic_findings@.len(),
        forall|k: int|
            0 <= k < old(facts).semantic_findings@.len() ==> final(facts).semantic_findings@[k]
                == old(facts).semantic_findings@[k],
        forall|k: int|
            old(facts).semantic_findings@.len() <= k < final(facts).semantic_findings@.len()
                ==> dead_code_finding_of(input, #[trigger] final(facts).semantic_findings@[k], lines@),
        distinct_findings(old(facts).semantic_findings@) ==> distinct_findings(
            final(facts).semantic_findings@,
        ),
{
    let ghost all = lines@;
    let ghost start = facts.semantic_findings@;
    let mut lines = lines;
    let total = lines.len();
    let mut dead_count: usize = 0;
    let mut errors: Vec<String> = Vec::new();
    let mut index: usize = 0;
    while lines.len() > 0
        invariant
            index <= all.len(),
            total == all.len(),
            lines@ == all.subrange(index as int, all.len() as int),
            input.wf(),
            dead_primary(all) <= usize::MAX,
            facts.files@ == old(facts).files@,
            start == old(facts).semantic_findings@,
            errors@.map_values(|text: String| text@) == other_errors(all.subrange(0, index as int)),
            dead_resolved(input, all.subrange(0, index as int)) <= dead_count,
            dead_count <= dead_primary(all.subrange(0, index as int)) - dead_unresolved(
                input,
                all.subrange(0, index as int),
            ),
            dead_primary(all.subrange(0, index as int)) <= dead_primary(all),
            start.len() <= facts.semantic_findings@.len(),
            forall|k: int| 0 <= k < start.len() ==> facts.semantic_findings@[k] == start[k],
            forall|k: int|
                start.len() <= k < facts.semantic_findings@.len() ==> dead_code_finding_of(
                    input,
                    #[trigger] facts.semantic_findings@[k],
                    all,
                ),
            distinct_findings(start) ==> distinct_findings(facts.semantic_findings@),
        decreases lines@.len(),
    {
        let line = lines.remove(0);
        let ghost prefix = all.subrange(0, index + 1);
        let ghost before_findings = facts.semantic_findings@;
        proof {
            assert(prefix.drop_last() =~= all.subrange(0, index as int));
            assert(prefix.last() == line);
            assert(all[index as int] == line);
            lemma_dead_primary_prefix(all, index as int + 1);
        }
        match line {
            Some(message) => match message.message {
                Some(diagnostic) => {
                    let dead = is_dead_code_exec(&diagnostic);
                    if !dead && same_text(diagnostic.level.as_str(), "error") {
                        errors.push(diagnostic.message.clone());
                        proof {
                            assert(errors@.map_values(|text: String| text@) =~= other_errors(
                                prefix,
                            ));
                        }
                    } else {
                        proof {
                            assert(errors@.map_values(|text: String| text@) =~= other_errors(
                                prefix,
                            ));
                        }
                    }
                    if dead {
                        let ghost found = diagnostic;
                        let count = append_dead_code(input, facts, diagnostic);
                        proof {
                            assert(count <= primary_count(found.spans@));
                        }
                        dead_count = dead_count + count;
                        proof {
                            let m = index as int;
                            assert forall|k: int|
                                start.len() <= k < facts.semantic_findings@.len() implies dead_code_finding_of(
                                input,
                                #[trigger] facts.semantic_findings@[k],
                                all,
                            ) by {
                                if k < before_findings.len() {
                                    assert(facts.semantic_findings@[k] == before_findings[k]);
                                } else {
                                    assert(line_diagnostic(all[m]) == Some(found));
                                }
                            }
                        }
                    }
                },
                None => {},
            },
            None => {},
        }
        index = index + 1;
    }
    assert(all.subrange(0, index as int) =~= all);
    (dead_count, errors)
}

/// A prefix of Cargo's output has no more dead-code primary spans than all
/// of it.
proof fn lemma_dead_primary_prefix(lines: Seq<Option<RustcMessage>>, n: int)
    requires
        0 <= n <= lines.len(),
    ensures
        dead_primary(lines.subrange(0, n)) <= dead_primary(lines),
    decreases lines.len() - n,
{
    if n < lines.len() {
        lemma_dead_primary_prefix(lines, n + 1);
        assert(lines.subrange(0, n + 1).drop_last() =~= lines.subrange(0, n));
    } else {
        assert(lines.subrange(0, n) =~= lines);
    }
}

/// The message of a dead-code check that could not complete.
pub open spec fn dead_code_error_text(detail: Seq<char>) -> Seq<char> {
    "rustc dead-code analysis could not complete: "@ + detail
}

/// The result of a dead-code check: it completes when rustc succeeded, or
/// when it failed only on dead code that was found. Otherwise its error
/// gives the other errors, joined by `; `, or else rustc's trimmed output.
pub fn dead_code_outcome(
    succeeded: bool,
    dead_count: usize,
    errors: Vec<String>,
    stderr: &str,
) -> (result: Result<(), AnalysisError>)
    ensures
        result is Ok <==> (succeeded || (errors@.len() == 0 && dead_count > 0)),
        result matches Err(error) ==> if errors@.len() == 0 {
            error.message@ == dead_code_error_text(trim_white_space(stderr@))
        } else {
            error.message@ == dead_code_error_text(
                crate::text::join(crate::commands::texts(errors@), "; "@),
            )
        },
{
    if succeeded || (errors.len() == 0 && dead_count > 0) {
        return Ok(());
    }
    let mut message = String::from_str("rustc dead-code analysis could not complete: ");
    if errors.len() == 0 {
        let detail = trimmed(stderr);
        message.append(detail);
        assert(message@ == dead_code_error_text(detail@));
    } else {
        let parts = errors.as_slice();
        assert(parts@ == errors@);
        let joined = crate::commands::join_texts(parts, "; ");
        message.append(joined.as_str());
        assert(message@ == dead_code_error_text(
            crate::text::join(crate::commands::texts(errors@), "; "@),
        ));
    }
    Err(AnalysisError::new(message))
}

/// The message of a host that cannot run the semantic analyzer.
pub open spec fn unsupported_host_text() -> Seq<char> {
    "semantic policies require a glibc Linux host; the static Axiom frontend remains usable on musl when semantic rules are disabled"@
}

/// Whether the host can run the semantic analyzer: not on an Alpine (musl)
/// Linux host.
pub fn ensure_supported_host(alpine_release_exists: bool) -> (result: Result<(), AnalysisError>)
    ensures
        result is Ok <==> !alpine_release_exists,
        result matches Err(error) ==> error.message@ == unsupported_host_text(),
{
    if alpine_release_exists {
        return Err(
            AnalysisError::new(
                String::from_str(
                    "semantic policies require a glibc Linux host; the static Axiom frontend remains usable on musl when semantic rules are disabled",
                ),
            ),
        );
    }
    Ok(())
}

/// The command that installs the toolchain of the semantic analyzer.
pub open spec fn install_command_text() -> Seq<char> {
    "rustup toolchain install "@ + crate::commands::SEMANTIC_TOOLCHAIN@
        + " --profile minimal --component rustc-dev"@
}

fn push_install_command(message: &mut String)
    ensures
        final(message)@ == old(message)@ + install_command_text(),
{
    message.append("rustup toolchain install ");
    message.append(crate::commands::SEMANTIC_TOOLCHAIN);
    message.append(" --profile minimal --component rustc-dev");
}

/// The message of a missing analyzer toolchain that cannot be installed
/// because network access is forbidden.
pub fn offline_toolchain_error() -> (error: AnalysisError)
    ensures
        error.message@ == "Rust "@ + crate::commands::SEMANTIC_TOOLCHAIN@
            + " with rustc-dev is required for semantic policies and AXIOM_OFFLINE is set; run `"@
            + install_command_text() + "`"@,
{
    let mut message = concat("Rust ", crate::commands::SEMANTIC_TOOLCHAIN);
    message.append(" with rustc-dev is required for semantic policies and AXIOM_OFFLINE is set; run `");
    push_install_command(&mut message);
    message.append("`");
    AnalysisError::new(message)
}

/// The message of an analyzer toolchain that rustup did not install.
pub fn install_failure_error() -> (error: AnalysisError)
    ensures
        error.message@ == "rustup could not install Rust "@ + crate::commands::SEMANTIC_TOOLCHAIN@
            + " with rustc-dev; run `"@ + install_command_text() + "`"@,
{
    let mut message = concat("rustup could not install Rust ", crate::commands::SEMANTIC_TOOLCHAIN);
    message.append(" with rustc-dev; run `");
    push_install_command(&mut message);
    message.append("`");
    AnalysisError::new(message)
}

/// The message of rustup that could not be run to install the analyzer
/// toolchain, with the reason.
pub fn rustup_failure_error(reason: &str) -> (error: AnalysisError)
    ensures
        error.message@ == "could not run rustup to install Rust "@
            + crate::commands::SEMANTIC_TOOLCHAIN@ + " with rustc-dev: "@ + reason@
            + "; install it manually with `"@ + install_command_text() + "`"@,
{
    let mut message = concat("could not run rustup to install Rust ", crate::commands::SEMANTIC_TOOLCHAIN);
    message.append(" with rustc-dev: ");
    message.append(reason);
    message.append("; install it manually with `");
    push_install_command(&mut message);
    message.append("`");
    AnalysisError::new(message)
}

} // verus!
