use core::time::Duration;
use vstd::prelude::*;
use vstd::string::*;

use crate::diagnostic::{Diagnostic, Level};
use crate::facts::AnalysisError;
use crate::paths::{
    components_less, lemma_components_less_irreflexive, lemma_components_less_transitive,
    path_before, path_components, plain_path, same_path,
};
use crate::report::{count, countable, level_count, outcome_word, policy_count, tool_count, tool_findings};
use crate::selection::{family_index, spec_policy_family, Family, Selection};
use crate::text::same_text;
use crate::order::{
    lemma_text_less_irreflexive, lemma_text_less_transitive, text_before, text_less,
};
use crate::config::ToolConfig;
use crate::tools::{spec_tools_to_run, tools_to_run, RunEvent, ToolDiagnostic, ToolReport};

verus! {

/// The findings of a check, and whether it stopped at a first finding.
#[derive(Debug)]
pub struct Analysis {
    pub diagnostics: Vec<Diagnostic>,
    pub tool_reports: Vec<ToolReport>,
    pub stopped: bool,
}

/// The exit status of a check: 1 when it stopped at a first finding or
/// found a denied one, 0 otherwise.
pub open spec fn spec_exit_code(analysis: Analysis) -> u8 {
    if analysis.stopped || level_count(Level::Deny, analysis.diagnostics@, analysis.tool_reports@)
        > 0 {
        1
    } else {
        0
    }
}

/// The exit status of a check that could not complete.
pub const OPERATIONAL_EXIT: u8 = 2;

/// The exit status of a check.
pub fn exit_code(analysis: &Analysis) -> (code: u8)
    requires
        countable(analysis.diagnostics@, analysis.tool_reports@),
    ensures
        code == spec_exit_code(*analysis),
{
    let denied = count(Level::Deny, analysis.diagnostics.as_slice(), analysis.tool_reports.as_slice());
    if analysis.stopped || denied > 0 {
        1
    } else {
        0
    }
}

/// A denied finding is counted: the count of denied findings is zero
/// exactly when no policy finding and no tool finding denies.
pub proof fn lemma_denied_count_zero(diagnostics: Seq<Diagnostic>, reports: Seq<ToolReport>)
    ensures
        level_count(Level::Deny, diagnostics, reports) == 0 <==> (forall|k: int|
            0 <= k < diagnostics.len() ==> (#[trigger] diagnostics[k]).level != Level::Deny)
            && (forall|k: int|
            0 <= k < tool_findings(reports).len() ==> (#[trigger] tool_findings(reports)[k]).level
                != Level::Deny),
{
    lemma_policy_count_zero(Level::Deny, diagnostics);
    lemma_tool_count_zero(Level::Deny, tool_findings(reports));
}

proof fn lemma_policy_count_zero(level: Level, diagnostics: Seq<Diagnostic>)
    ensures
        policy_count(level, diagnostics) == 0 <==> forall|k: int|
            0 <= k < diagnostics.len() ==> (#[trigger] diagnostics[k]).level != level,
    decreases diagnostics.len(),
{
    if diagnostics.len() > 0 {
        let rest = diagnostics.drop_last();
        lemma_policy_count_zero(level, rest);
        if policy_count(level, diagnostics) == 0 {
            assert forall|k: int| 0 <= k < diagnostics.len() implies (
            #[trigger] diagnostics[k]).level != level by {
                if k < rest.len() {
                    assert(rest[k] == diagnostics[k]);
                }
            }
        } else if policy_count(level, rest) > 0 {
            let k = choose|k: int| 0 <= k < rest.len() && (#[trigger] rest[k]).level == level;
            assert(diagnostics[k] == rest[k]);
        }
    }
}

proof fn lemma_tool_count_zero(level: Level, diagnostics: Seq<ToolDiagnostic>)
    ensures
        tool_count(level, diagnostics) == 0 <==> forall|k: int|
            0 <= k < diagnostics.len() ==> (#[trigger] diagnostics[k]).level != level,
    decreases diagnostics.len(),
{
    if diagnostics.len() > 0 {
        let rest = diagnostics.drop_last();
        lemma_tool_count_zero(level, rest);
        if tool_count(level, diagnostics) == 0 {
            assert forall|k: int| 0 <= k < diagnostics.len() implies (
            #[trigger] diagnostics[k]).level != level by {
                if k < rest.len() {
                    assert(rest[k] == diagnostics[k]);
                }
            }
        } else if tool_count(level, rest) > 0 {
            let k = choose|k: int| 0 <= k < rest.len() && (#[trigger] rest[k]).level == level;
            assert(diagnostics[k] == rest[k]);
        }
    }
}

/// A check's JSON outcome is `passed` exactly when its exit status is 0:
/// both say that it neither stopped at a first finding nor found a denied
/// one.
pub proof fn lemma_outcome_matches_exit_code(analysis: Analysis)
    ensures
        (outcome_word(
            level_count(Level::Deny, analysis.diagnostics@, analysis.tool_reports@),
            analysis.stopped,
        ) == "passed"@) <==> spec_exit_code(analysis) == 0,
{
    reveal_strlit("passed");
    reveal_strlit("violations");
    assert("passed"@ != "violations"@) by {
        assert("passed"@[0] != "violations"@[0]);
    }
}

/// The tool findings that remain when warnings are ignored.
pub open spec fn without_warnings(diagnostics: Seq<ToolDiagnostic>) -> Seq<ToolDiagnostic>
    decreases diagnostics.len(),
{
    if diagnostics.len() == 0 {
        seq![]
    } else {
        let rest = without_warnings(diagnostics.drop_last());
        if diagnostics.last().level == Level::Warn {
            rest
        } else {
            rest.push(diagnostics.last())
        }
    }
}

/// Ignoring warnings removes every warning and nothing else: no warning
/// remains, every remaining finding is one of the given ones, and every
/// given finding that is not a warning remains.
pub proof fn lemma_without_warnings(diagnostics: Seq<ToolDiagnostic>)
    ensures
        forall|k: int|
            0 <= k < without_warnings(diagnostics).len() ==> (#[trigger] without_warnings(
                diagnostics,
            )[k]).level != Level::Warn && diagnostics.contains(without_warnings(diagnostics)[k]),
        forall|k: int|
            0 <= k < diagnostics.len() && (#[trigger] diagnostics[k]).level != Level::Warn
                ==> without_warnings(diagnostics).contains(diagnostics[k]),
    decreases diagnostics.len(),
{
    if diagnostics.len() > 0 {
        let rest = diagnostics.drop_last();
        lemma_without_warnings(rest);
        let kept = without_warnings(rest);
        let last = diagnostics.last();
        assert forall|k: int| 0 <= k < without_warnings(diagnostics).len() implies (
        #[trigger] without_warnings(diagnostics)[k]).level != Level::Warn && diagnostics.contains(
            without_warnings(diagnostics)[k],
        ) by {
            if k < kept.len() {
                assert(without_warnings(diagnostics)[k] == kept[k]);
                let j = choose|j: int| 0 <= j < rest.len() && rest[j] == kept[k];
                assert(diagnostics[j] == rest[j]);
            } else {
                assert(without_warnings(diagnostics)[k] == last);
                assert(diagnostics[diagnostics.len() - 1] == last);
            }
        }
        assert forall|k: int|
            0 <= k < diagnostics.len() && (#[trigger] diagnostics[k]).level != Level::Warn implies without_warnings(
            diagnostics,
        ).contains(diagnostics[k]) by {
            if k < rest.len() {
                assert(rest[k] == diagnostics[k]);
                let j = choose|j: int| 0 <= j < kept.len() && kept[j] == rest[k];
                if last.level != Level::Warn {
                    assert(without_warnings(diagnostics)[j] == kept[j]);
                } else {
                    assert(without_warnings(diagnostics)[j] == kept[j]);
                }
            } else {
                assert(diagnostics[k] == last);
                assert(without_warnings(diagnostics)[kept.len() as int] == last);
            }
        }
    }
}

/// Removes the warnings of a tool report.
pub fn drop_warnings(report: &mut ToolReport)
    ensures
        final(report).name == old(report).name,
        final(report).diagnostics@ == without_warnings(old(report).diagnostics@),
{
    let ghost all = report.diagnostics@;
    let mut remaining = Vec::new();
    std::mem::swap(&mut remaining, &mut report.diagnostics);
    let total = remaining.len();
    let mut kept: Vec<ToolDiagnostic> = Vec::new();
    let mut index: usize = 0;
    while remaining.len() > 0
        invariant
            index <= all.len(),
            total == all.len(),
            remaining@ == all.subrange(index as int, all.len() as int),
            kept@ == without_warnings(all.subrange(0, index as int)),
        decreases remaining@.len(),
    {
        let item = remaining.remove(0);
        proof {
            let prefix = all.subrange(0, index + 1);
            assert(prefix.drop_last() =~= all.subrange(0, index as int));
            assert(prefix.last() == item);
        }
        if item.level != Level::Warn {
            kept.push(item);
        }
        index = index + 1;
    }
    assert(all.subrange(0, index as int) =~= all);
    report.diagnostics = kept;
}

/// Keeps only the first finding of a tool report.
pub fn keep_first(report: &mut ToolReport)
    ensures
        final(report).name == old(report).name,
        final(report).diagnostics@ == if old(report).diagnostics@.len() == 0 {
            seq![]
        } else {
            seq![old(report).diagnostics@[0]]
        },
{
    report.diagnostics.truncate(1);
    assert(report.diagnostics@ =~= if old(report).diagnostics@.len() == 0 {
        seq![]
    } else {
        seq![old(report).diagnostics@[0]]
    });
}

/// The report of a wrapped tool in a fail-fast check: without warnings when
/// they are ignored, and with at most its first finding.
pub fn fail_fast_report(report: ToolReport, ignore_warnings: bool) -> (found: ToolReport)
    ensures
        found.name == report.name,
        found.diagnostics@ == {
            let remaining = if ignore_warnings {
                without_warnings(report.diagnostics@)
            } else {
                report.diagnostics@
            };
            if remaining.len() == 0 {
                seq![]
            } else {
                seq![remaining[0]]
            }
        },
{
    let mut report = report;
    if ignore_warnings {
        drop_warnings(&mut report);
    }
    keep_first(&mut report);
    report
}

/// What a fail-fast check does after a wrapped tool ran.
pub enum ToolStep {
    /// No finding: go on with the reports so far.
    Continue(Vec<ToolReport>),
    /// A finding: the check stops with the reports so far.
    Stopped(Analysis),
}

/// Records the report of a wrapped tool in a fail-fast check, which stops
/// at the first report with a finding.
pub fn tool_step(reports: Vec<ToolReport>, report: ToolReport) -> (step: ToolStep)
    ensures
        match step {
            ToolStep::Continue(all) => report.diagnostics@.len() == 0 && all@ == reports@.push(
                report,
            ),
            ToolStep::Stopped(analysis) => {
                &&& report.diagnostics@.len() > 0
                &&& analysis.diagnostics@.len() == 0
                &&& analysis.tool_reports@ == reports@.push(report)
                &&& analysis.stopped
            },
        },
{
    let stopped = report.diagnostics.len() > 0;
    let mut reports = reports;
    reports.push(report);
    if stopped {
        ToolStep::Stopped(Analysis { diagnostics: Vec::new(), tool_reports: reports, stopped: true })
    } else {
        ToolStep::Continue(reports)
    }
}

/// The first finding of a native policy family in a fail-fast check, which
/// stops there; `None` when the family found nothing.
pub fn first_finding(diagnostics: Vec<Diagnostic>) -> (analysis: Option<Analysis>)
    ensures
        diagnostics@.len() == 0 <==> analysis is None,
        analysis matches Some(found) ==> {
            &&& found.diagnostics@ == seq![diagnostics@[0]]
            &&& found.tool_reports@.len() == 0
            &&& found.stopped
        },
{
    if diagnostics.len() == 0 {
        return None;
    }
    let mut diagnostics = diagnostics;
    let ghost first = diagnostics@[0];
    diagnostics.truncate(1);
    assert(diagnostics@ =~= seq![first]);
    Some(Analysis { diagnostics, tool_reports: Vec::new(), stopped: true })
}

/// The rule that reports private dead code.
pub const PRIVATE_DEAD_CODE: &'static str = "dead-code/private";

/// A configured rule, as far as planning a check needs it: its identifier,
/// its level, and whether it reads the semantic analyzer's facts.
pub struct RulePlan {
    pub id: String,
    pub level: Level,
    pub hir: bool,
}

/// Whether a configured rule takes part in a check: it belongs to a native
/// family that is selected, is enabled, and is not a warning that is
/// ignored.
pub open spec fn takes_part(rule: RulePlan, selection: Selection, ignore_warnings: bool) -> bool {
    &&& spec_policy_family(rule.id@) matches Some(family) && selection.spec_includes(family)
    &&& rule.level != Level::Allow
    &&& !(ignore_warnings && rule.level == Level::Warn)
}

/// The positions of the rules of `family` that take part, in order.
pub open spec fn family_members(
    rules: Seq<RulePlan>,
    selection: Selection,
    ignore_warnings: bool,
    family: Family,
) -> Seq<usize>
    decreases rules.len(),
{
    if rules.len() == 0 {
        seq![]
    } else {
        let rest = family_members(rules.drop_last(), selection, ignore_warnings, family);
        let last = rules.last();
        if takes_part(last, selection, ignore_warnings) && spec_policy_family(last.id@) == Some(
            family,
        ) {
            rest.push((rules.len() - 1) as usize)
        } else {
            rest
        }
    }
}

/// Whether some rule that takes part satisfies `wanted`.
pub open spec fn some_rule(
    rules: Seq<RulePlan>,
    selection: Selection,
    ignore_warnings: bool,
    wanted: spec_fn(RulePlan) -> bool,
) -> bool {
    exists|k: int|
        0 <= k < rules.len() && takes_part(#[trigger] rules[k], selection, ignore_warnings)
            && wanted(rules[k])
}

/// The rules of a check, by native family, and which semantic facts it
/// collects.
pub struct Policies {
    pub size: Vec<usize>,
    pub testing: Vec<usize>,
    pub dead_code: Vec<usize>,
    pub visibility: Vec<usize>,
    pub collect_hir: bool,
    pub collect_private_dead_code: bool,
}

impl Policies {
    /// The rules of a family.
    pub open spec fn members(self, family: Family) -> Seq<usize> {
        match family {
            Family::Size => self.size@,
            Family::Testing => self.testing@,
            Family::DeadCode => self.dead_code@,
            Family::Visibility => self.visibility@,
            _ => seq![],
        }
    }

    /// Sorts the configured rules into their native families: the rules
    /// that take part, each in its family in configuration order. Semantic
    /// facts are collected when a rule that takes part reads them, and
    /// private dead code when its rule takes part.
    pub fn prepare(rules: &[RulePlan], selection: Selection, ignore_warnings: bool) -> (policies:
        Self)
        ensures
            forall|family: Family|
                #![trigger policies.members(family)]
                !crate::selection::is_tool(family) ==> policies.members(family) == family_members(
                    rules@,
                    selection,
                    ignore_warnings,
                    family,
                ),
            policies.collect_hir == some_rule(
                rules@,
                selection,
                ignore_warnings,
                |rule: RulePlan| rule.hir,
            ),
            policies.collect_private_dead_code == some_rule(
                rules@,
                selection,
                ignore_warnings,
                |rule: RulePlan| rule.id@ == PRIVATE_DEAD_CODE@,
            ),
    {
        let mut size: Vec<usize> = Vec::new();
        let mut testing: Vec<usize> = Vec::new();
        let mut dead_code: Vec<usize> = Vec::new();
        let mut visibility: Vec<usize> = Vec::new();
        let mut collect_hir = false;
        let mut collect_private_dead_code = false;
        let mut index: usize = 0;
        while index < rules.len()
            invariant
                index <= rules@.len(),
                size@ == family_members(
                    rules@.subrange(0, index as int),
                    selection,
                    ignore_warnings,
                    Family::Size,
                ),
                testing@ == family_members(
                    rules@.subrange(0, index as int),
                    selection,
                    ignore_warnings,
                    Family::Testing,
                ),
                dead_code@ == family_members(
                    rules@.subrange(0, index as int),
                    selection,
                    ignore_warnings,
                    Family::DeadCode,
                ),
                visibility@ == family_members(
                    rules@.subrange(0, index as int),
                    selection,
                    ignore_warnings,
                    Family::Visibility,
                ),
                collect_hir == exists|k: int|
                    0 <= k < index && takes_part(#[trigger] rules@[k], selection, ignore_warnings)
                        && rules@[k].hir,
                collect_private_dead_code == exists|k: int|
                    0 <= k < index && takes_part(#[trigger] rules@[k], selection, ignore_warnings)
                        && rules@[k].id@ == PRIVATE_DEAD_CODE@,
            decreases rules@.len() - index,
        {
            let rule = &rules[index];
            proof {
                let prefix = rules@.subrange(0, index + 1);
                assert(prefix.drop_last() =~= rules@.subrange(0, index as int));
                assert(prefix.last() == *rule);
            }
            match Selection::policy_family(rule.id.as_str()) {
                Some(family) => {
                    if selection.includes(family) && rule.level != Level::Allow && !(ignore_warnings
                        && rule.level == Level::Warn) {
                        if rule.hir {
                            collect_hir = true;
                        }
                        if same_text(rule.id.as_str(), PRIVATE_DEAD_CODE) {
                            collect_private_dead_code = true;
                        }
                        match family {
                            Family::Size => size.push(index),
                            Family::Testing => testing.push(index),
                            Family::DeadCode => dead_code.push(index),
                            Family::Visibility => visibility.push(index),
                            _ => {},
                        }
                    }
                },
                None => {},
            }
            index = index + 1;
        }
        assert(rules@.subrange(0, index as int) =~= rules@);
        Policies { size, testing, dead_code, visibility, collect_hir, collect_private_dead_code }
    }

    /// Whether a native family has rules that take part.
    pub fn has_family(&self, family: Family) -> (result: bool)
        ensures
            result == (self.members(family).len() > 0),
    {
        match family {
            Family::Size => self.size.len() > 0,
            Family::Testing => self.testing.len() > 0,
            Family::DeadCode => self.dead_code.len() > 0,
            Family::Visibility => self.visibility.len() > 0,
            _ => false,
        }
    }

    /// Whether the check collects semantic facts.
    pub fn has_semantic(&self) -> (result: bool)
        ensures
            result == (self.collect_hir || self.collect_private_dead_code),
    {
        self.collect_hir || self.collect_private_dead_code
    }

    /// Whether a syntax family, size or testing, has rules that take part.
    pub fn has_syntax_family(&self) -> (result: bool)
        ensures
            result == (self.members(Family::Size).len() > 0 || self.members(
                Family::Testing,
            ).len() > 0),
    {
        self.has_family(Family::Size) || self.has_family(Family::Testing)
    }

    /// Whether the check collects syntax facts: for a syntax family, and for
    /// the semantic facts, which are located through them.
    pub fn has_syntax(&self) -> (result: bool)
        ensures
            result == (self.members(Family::Size).len() > 0 || self.members(
                Family::Testing,
            ).len() > 0 || self.collect_hir || self.collect_private_dead_code),
    {
        self.has_syntax_family() || self.has_semantic()
    }

    /// Whether no native policy takes part.
    pub fn is_empty(&self) -> (result: bool)
        ensures
            result == !(self.members(Family::Size).len() > 0 || self.members(
                Family::Testing,
            ).len() > 0 || self.collect_hir || self.collect_private_dead_code),
    {
        !self.has_syntax() && !self.has_semantic()
    }
}

/// Report order of diagnostics: by the components of their paths, then by
/// start offset, then by rule.
pub open spec fn diagnostic_less(a: Diagnostic, b: Diagnostic) -> bool {
    let left = path_components(a.path@);
    let right = path_components(b.path@);
    if left != right {
        components_less(left, right)
    } else if a.span.byte_start != b.span.byte_start {
        a.span.byte_start < b.span.byte_start
    } else {
        text_less(a.rule_id@, b.rule_id@)
    }
}

/// Whether every diagnostic's path is a plain relative path.
pub open spec fn plain_paths(diagnostics: Seq<Diagnostic>) -> bool {
    forall|k: int| 0 <= k < diagnostics.len() ==> plain_path(#[trigger] diagnostics[k].path@)
}

/// Whether no diagnostic orders before one that comes earlier.
pub open spec fn in_report_order(diagnostics: Seq<Diagnostic>) -> bool {
    forall|i: int, j: int|
        0 <= i < j < diagnostics.len() ==> !diagnostic_less(
            #[trigger] diagnostics[j],
            #[trigger] diagnostics[i],
        )
}

proof fn lemma_diagnostic_less_irreflexive(a: Diagnostic)
    ensures
        !diagnostic_less(a, a),
{
    lemma_text_less_irreflexive(a.rule_id@);
}

proof fn lemma_diagnostic_less_transitive(a: Diagnostic, b: Diagnostic, c: Diagnostic)
    requires
        diagnostic_less(a, b),
        diagnostic_less(b, c),
    ensures
        diagnostic_less(a, c),
{
    let pa = path_components(a.path@);
    let pb = path_components(b.path@);
    let pc = path_components(c.path@);
    if pa != pb && pb != pc {
        lemma_components_less_transitive(pa, pb, pc);
        if pa == pc {
            lemma_components_less_irreflexive(pa);
        }
    } else if pa == pb && pb == pc {
        if a.span.byte_start == b.span.byte_start && b.span.byte_start == c.span.byte_start {
            lemma_text_less_transitive(a.rule_id@, b.rule_id@, c.rule_id@);
        }
    }
}

fn diagnostic_before(a: &Diagnostic, b: &Diagnostic) -> (before: bool)
    ensures
        plain_path(a.path@) && plain_path(b.path@) ==> before == diagnostic_less(*a, *b),
{
    if !same_path(a.path.as_str(), b.path.as_str()) {
        return path_before(a.path.as_str(), b.path.as_str());
    }
    if a.span.byte_start != b.span.byte_start {
        return a.span.byte_start < b.span.byte_start;
    }
    text_before(a.rule_id.as_str(), b.rule_id.as_str())
}

/// The diagnostics in report order: by path, then start offset, then rule;
/// paths compare by their components, as `camino` orders them. The same
/// diagnostics come out, each as often as it went in, and when every path
/// is a plain relative path (whose components are the same on every
/// platform) they come out in `diagnostic_less` order.
pub fn sort_diagnostics(diagnostics: Vec<Diagnostic>) -> (sorted: Vec<Diagnostic>)
    ensures
        sorted@.to_multiset() == diagnostics@.to_multiset(),
        sorted@.len() == diagnostics@.len(),
        plain_paths(diagnostics@) ==> in_report_order(sorted@),
{
    broadcast use {
        vstd::multiset::group_multiset_axioms,
        vstd::multiset::group_multiset_properties,
        vstd::seq_lib::group_to_multiset_ensures,
    };

    let ghost all = diagnostics@;
    let ghost plain = plain_paths(diagnostics@);
    let mut remaining = diagnostics;
    let mut sorted: Vec<Diagnostic> = Vec::new();
    assert(sorted@.to_multiset() =~= vstd::multiset::Multiset::empty());
    assert(sorted@.to_multiset().add(remaining@.to_multiset()) =~= all.to_multiset());
    while remaining.len() > 0
        invariant
            sorted@.to_multiset().add(remaining@.to_multiset()) == all.to_multiset(),
            sorted@.len() + remaining@.len() == all.len(),
            plain == plain_paths(all),
            plain ==> plain_paths(remaining@),
            plain ==> plain_paths(sorted@),
            plain ==> in_report_order(sorted@),
        decreases remaining@.len(),
    {
        let ghost before = remaining@;
        let item = remaining.remove(0);
        proof {
            assert(before.remove(0) == remaining@);
            assert(before[0] == item);
            before.to_multiset_ensures();
            assert(before.contains(item)) by {
                assert(before[0] == item);
            }
            assert(before.to_multiset().count(item) > 0);
            assert(before.remove(0).to_multiset() =~= before.to_multiset().remove(item));
            assert(before.to_multiset() =~= remaining@.to_multiset().insert(item));
            if plain {
                assert(plain_path(before[0].path@));
                assert forall|k: int| 0 <= k < remaining@.len() implies plain_path(
                    #[trigger] remaining@[k].path@,
                ) by {
                    assert(remaining@[k] == before[k + 1]);
                }
            }
        }
        let mut position: usize = 0;
        while position < sorted.len()
            invariant
                position <= sorted@.len(),
                plain ==> plain_path(item.path@),
                plain ==> plain_paths(sorted@),
                plain ==> forall|q: int| 0 <= q < position ==> !diagnostic_less(
                    item,
                    #[trigger] sorted@[q],
                ),
            ensures
                position <= sorted@.len(),
                plain ==> forall|q: int| 0 <= q < position ==> !diagnostic_less(
                    item,
                    #[trigger] sorted@[q],
                ),
                plain && position < sorted@.len() ==> diagnostic_less(item, sorted@[position as int]),
            decreases sorted@.len() - position,
        {
            if diagnostic_before(&item, &sorted[position]) {
                proof {
                    if plain {
                        assert(plain_path(sorted@[position as int].path@));
                    }
                }
                break;
            }
            proof {
                if plain {
                    assert(plain_path(sorted@[position as int].path@));
                }
            }
            position = position + 1;
        }
        let ghost earlier = sorted@;
        sorted.insert(position, item);
        proof {
            assert(sorted@ == earlier.insert(position as int, item));
            vstd::seq_lib::to_multiset_insert(earlier, position as int, item);
            assert(sorted@.to_multiset().add(remaining@.to_multiset()) =~= all.to_multiset());
            if plain {
                let p = position as int;
                assert forall|k: int| 0 <= k < sorted@.len() implies plain_path(
                    #[trigger] sorted@[k].path@,
                ) by {
                    if k < p {
                        assert(sorted@[k] == earlier[k]);
                    } else if k > p {
                        assert(sorted@[k] == earlier[k - 1]);
                    }
                }
                assert forall|i: int, j: int| 0 <= i < j < sorted@.len() implies !diagnostic_less(
                    #[trigger] sorted@[j],
                    #[trigger] sorted@[i],
                ) by {
                    if j < p {
                        assert(sorted@[i] == earlier[i]);
                        assert(sorted@[j] == earlier[j]);
                    } else if j == p {
                        assert(sorted@[i] == earlier[i]);
                        assert(sorted@[j] == item);
                        assert(!diagnostic_less(item, earlier[i]));
                    } else if i > p {
                        assert(sorted@[i] == earlier[i - 1]);
                        assert(sorted@[j] == earlier[j - 1]);
                    } else if i < p {
                        assert(sorted@[i] == earlier[i]);
                        assert(sorted@[j] == earlier[j - 1]);
                    } else {
                        // i == p: the item, then an element that was at or after p
                        assert(sorted@[i] == item);
                        assert(sorted@[j] == earlier[j - 1]);
                        assert(diagnostic_less(item, earlier[p]));
                        if diagnostic_less(earlier[j - 1], item) {
                            lemma_diagnostic_less_transitive(earlier[j - 1], item, earlier[p]);
                            if j - 1 == p {
                                lemma_diagnostic_less_irreflexive(earlier[p]);
                            } else {
                                assert(!diagnostic_less(earlier[j - 1], earlier[p]));
                            }
                        }
                    }
                }
            }
        }
    }
    proof {
        assert(remaining@ =~= Seq::<Diagnostic>::empty());
        assert(remaining@.to_multiset() =~= vstd::multiset::Multiset::empty());
        assert(sorted@.to_multiset().add(vstd::multiset::Multiset::empty()) =~= sorted@.to_multiset());
    }
    sorted
}

/// One step of a fail-fast check.
#[derive(Debug, Clone, Copy, PartialEq, Eq, Structural)]
pub enum FailFastStage {
    /// Collect the syntax facts of every source.
    Syntax,
    /// Evaluate a native policy family, stopping at its first finding.
    Policy(Family),
    /// Run a wrapped tool, stopping at its first finding.
    Tool(Family),
    /// Run the semantic analysis, stopping at the first private dead code.
    Semantic,
}

/// The stage of a native policy family, when it has rules.
pub open spec fn policy_stage(plan: Policies, family: Family) -> Seq<FailFastStage> {
    if plan.members(family).len() > 0 {
        seq![FailFastStage::Policy(family)]
    } else {
        seq![]
    }
}

/// The stages of a fail-fast check, from light to heavy: syntax facts and
/// the size and testing policies, then the wrapped tools in their order,
/// then the semantic analysis (with the syntax facts it needs, when no
/// syntax policy collected them), then the dead-code and visibility
/// policies. Families without rules and tools that do not run are left out.
pub open spec fn spec_fail_fast_order(plan: Policies, tools: ToolConfig, selection: Selection) -> Seq<
    FailFastStage,
> {
    let early_syntax = plan.members(Family::Size).len() > 0 || plan.members(Family::Testing).len()
        > 0;
    let semantic = plan.collect_hir || plan.collect_private_dead_code;
    (if early_syntax {
        seq![FailFastStage::Syntax]
    } else {
        seq![]
    }) + policy_stage(plan, Family::Size) + policy_stage(plan, Family::Testing)
        + spec_tools_to_run(&tools, selection).map_values(|family: Family| FailFastStage::Tool(family))
        + (if !semantic {
        seq![]
    } else if early_syntax {
        seq![FailFastStage::Semantic]
    } else {
        seq![FailFastStage::Syntax, FailFastStage::Semantic]
    }) + policy_stage(plan, Family::DeadCode) + policy_stage(plan, Family::Visibility)
}

fn push_policy_stage(order: &mut Vec<FailFastStage>, plan: &Policies, family: Family)
    ensures
        final(order)@ == old(order)@ + policy_stage(*plan, family),
{
    if plan.has_family(family) {
        order.push(FailFastStage::Policy(family));
    }
}

/// The order in which a fail-fast check runs its stages.
pub fn fail_fast_order(plan: &Policies, tools: &ToolConfig, selection: Selection) -> (order: Vec<
    FailFastStage,
>)
    ensures
        order@ == spec_fail_fast_order(*plan, *tools, selection),
{
    let early_syntax = plan.has_syntax_family();
    let mut order: Vec<FailFastStage> = Vec::new();
    if early_syntax {
        order.push(FailFastStage::Syntax);
    }
    push_policy_stage(&mut order, plan, Family::Size);
    push_policy_stage(&mut order, plan, Family::Testing);
    let ghost before_tools = order@;
    let families = tools_to_run(tools, selection);
    let mut index: usize = 0;
    while index < families.len()
        invariant
            index <= families@.len(),
            order@ == before_tools + families@.subrange(0, index as int).map_values(
                |family: Family| FailFastStage::Tool(family),
            ),
        decreases families@.len() - index,
    {
        order.push(FailFastStage::Tool(families[index]));
        index = index + 1;
        proof {
            assert(families@.subrange(0, index as int).map_values(
                |family: Family| FailFastStage::Tool(family),
            ) =~= families@.subrange(0, index - 1).map_values(
                |family: Family| FailFastStage::Tool(family),
            ).push(FailFastStage::Tool(families@[index - 1])));
        }
    }
    assert(families@.subrange(0, families@.len() as int) =~= families@);
    if plan.has_semantic() {
        if !early_syntax {
            order.push(FailFastStage::Syntax);
        }
        order.push(FailFastStage::Semantic);
    }
    push_policy_stage(&mut order, plan, Family::DeadCode);
    push_policy_stage(&mut order, plan, Family::Visibility);
    assert(order@ =~= spec_fail_fast_order(*plan, *tools, selection));
    order
}

/// How heavy a fail-fast stage is: the size, testing, Clippy, rustdoc,
/// semantic, dead-code and visibility stages, in that order. Syntax
/// collection has no rank of its own: it runs where its facts are first
/// needed.
pub open spec fn stage_weight(stage: FailFastStage) -> int {
    match stage {
        FailFastStage::Policy(Family::Size) => 1,
        FailFastStage::Policy(Family::Testing) => 2,
        FailFastStage::Tool(Family::Clippy) => 3,
        FailFastStage::Tool(Family::Rustdoc) => 4,
        FailFastStage::Semantic => 5,
        FailFastStage::Policy(Family::DeadCode) => 6,
        FailFastStage::Policy(Family::Visibility) => 7,
        _ => 0,
    }
}

/// Whether every stage other than syntax collection is lighter than every
/// later one.
pub open spec fn light_to_heavy(stages: Seq<FailFastStage>) -> bool {
    forall|i: int, j: int|
        0 <= i < j < stages.len() && stages[i] != FailFastStage::Syntax && stages[j]
            != FailFastStage::Syntax ==> stage_weight(#[trigger] stages[i]) < stage_weight(
            #[trigger] stages[j],
        )
}

/// Whether every stage other than syntax collection weighs at least `low`
/// and less than `high`.
pub open spec fn weighs_within(stages: Seq<FailFastStage>, low: int, high: int) -> bool {
    forall|i: int|
        0 <= i < stages.len() && stages[i] != FailFastStage::Syntax ==> low <= stage_weight(
            #[trigger] stages[i],
        ) < high
}

proof fn lemma_light_to_heavy_append(a: Seq<FailFastStage>, b: Seq<FailFastStage>, split: int)
    requires
        light_to_heavy(a),
        light_to_heavy(b),
        weighs_within(a, 0, split),
        weighs_within(b, split, 100),
    ensures
        light_to_heavy(a + b),
        weighs_within(a + b, 0, 100),
{
    let c = a + b;
    assert forall|i: int, j: int|
        0 <= i < j < c.len() && c[i] != FailFastStage::Syntax && c[j] != FailFastStage::Syntax
            implies stage_weight(#[trigger] c[i]) < stage_weight(#[trigger] c[j]) by {
        if j < a.len() {
            assert(c[i] == a[i] && c[j] == a[j]);
        } else if i >= a.len() {
            assert(c[i] == b[i - a.len()] && c[j] == b[j - a.len()]);
        } else {
            assert(c[i] == a[i] && c[j] == b[j - a.len()]);
        }
    }
    assert forall|i: int| 0 <= i < c.len() && c[i] != FailFastStage::Syntax implies 0
        <= stage_weight(#[trigger] c[i]) < 100 by {
        if i < a.len() {
            assert(c[i] == a[i]);
        } else {
            assert(c[i] == b[i - a.len()]);
        }
    }
}

proof fn lemma_contains_append(a: Seq<FailFastStage>, b: Seq<FailFastStage>, x: FailFastStage)
    ensures
        (a + b).contains(x) <==> a.contains(x) || b.contains(x),
{
    let c = a + b;
    if c.contains(x) {
        let k = choose|k: int| 0 <= k < c.len() && c[k] == x;
        if k < a.len() {
            assert(a[k] == x);
        } else {
            assert(b[k - a.len()] == x);
        }
    }
    if a.contains(x) {
        let k = choose|k: int| 0 <= k < a.len() && a[k] == x;
        assert(c[k] == x);
    }
    if b.contains(x) {
        let k = choose|k: int| 0 <= k < b.len() && b[k] == x;
        assert(c[k + a.len()] == x);
    }
}

/// The parts of the fail-fast order, in the order they run.
spec fn fail_fast_parts(plan: Policies, tools: ToolConfig, selection: Selection) -> Seq<
    Seq<FailFastStage>,
> {
    let early_syntax = plan.members(Family::Size).len() > 0 || plan.members(Family::Testing).len()
        > 0;
    let semantic = plan.collect_hir || plan.collect_private_dead_code;
    seq![
        if early_syntax {
            seq![FailFastStage::Syntax]
        } else {
            seq![]
        },
        policy_stage(plan, Family::Size),
        policy_stage(plan, Family::Testing),
        spec_tools_to_run(&tools, selection).map_values(|family: Family| FailFastStage::Tool(family)),
        if !semantic {
            seq![]
        } else if early_syntax {
            seq![FailFastStage::Semantic]
        } else {
            seq![FailFastStage::Syntax, FailFastStage::Semantic]
        },
        policy_stage(plan, Family::DeadCode),
        policy_stage(plan, Family::Visibility),
    ]
}

proof fn lemma_fail_fast_parts(plan: Policies, tools: ToolConfig, selection: Selection)
    ensures
        ({
            let p = fail_fast_parts(plan, tools, selection);
            spec_fail_fast_order(plan, tools, selection) == p[0] + p[1] + p[2] + p[3] + p[4] + p[5]
                + p[6]
        }),
{
}

proof fn lemma_tool_stages(tools: ToolConfig, selection: Selection)
    ensures
        ({
            let stages = spec_tools_to_run(&tools, selection).map_values(
                |family: Family| FailFastStage::Tool(family),
            );
            &&& light_to_heavy(stages)
            &&& weighs_within(stages, 3, 5)
            &&& forall|family: Family| !stages.contains(FailFastStage::Policy(family))
            &&& !stages.contains(FailFastStage::Semantic)
        }),
{
    let run = spec_tools_to_run(&tools, selection);
    let stages = run.map_values(|family: Family| FailFastStage::Tool(family));
    assert(forall|k: int| 0 <= k < run.len() ==> #[trigger] stages[k] == FailFastStage::Tool(run[k]));
    assert(forall|k: int| 0 <= k < run.len() ==> #[trigger] run[k] == Family::Clippy || run[k]
        == Family::Rustdoc);
    if run.len() == 2 {
        assert(run[0] == Family::Clippy && run[1] == Family::Rustdoc);
    }
}

/// A fail-fast check runs its stages from light to heavy: size, testing,
/// Clippy, rustdoc, the semantic analysis, dead code, then visibility, with
/// syntax collection where its facts are first needed.
pub proof fn lemma_fail_fast_light_to_heavy(plan: Policies, tools: ToolConfig, selection: Selection)
    ensures
        light_to_heavy(spec_fail_fast_order(plan, tools, selection)),
{
    let p = fail_fast_parts(plan, tools, selection);
    lemma_fail_fast_parts(plan, tools, selection);
    lemma_tool_stages(tools, selection);
    assert(light_to_heavy(p[0]) && weighs_within(p[0], 0, 1));
    assert(light_to_heavy(p[1]) && weighs_within(p[1], 1, 2));
    assert(light_to_heavy(p[2]) && weighs_within(p[2], 2, 3));
    assert(light_to_heavy(p[4]) && weighs_within(p[4], 5, 6));
    assert(light_to_heavy(p[5]) && weighs_within(p[5], 6, 7));
    assert(light_to_heavy(p[6]) && weighs_within(p[6], 7, 8));
    lemma_light_to_heavy_append(p[0], p[1], 1);
    lemma_light_to_heavy_append(p[0] + p[1], p[2], 2);
    assert(weighs_within(p[0] + p[1] + p[2], 0, 3));
    lemma_light_to_heavy_append(p[0] + p[1] + p[2], p[3], 3);
    assert(weighs_within(p[0] + p[1] + p[2] + p[3], 0, 5));
    lemma_light_to_heavy_append(p[0] + p[1] + p[2] + p[3], p[4], 5);
    assert(weighs_within(p[0] + p[1] + p[2] + p[3] + p[4], 0, 6));
    lemma_light_to_heavy_append(p[0] + p[1] + p[2] + p[3] + p[4], p[5], 6);
    assert(weighs_within(p[0] + p[1] + p[2] + p[3] + p[4] + p[5], 0, 7));
    lemma_light_to_heavy_append(p[0] + p[1] + p[2] + p[3] + p[4] + p[5], p[6], 7);
}

/// Syntax facts are collected before they are used: in a fail-fast check a
/// syntax collection stage comes before every size, testing or semantic
/// stage.
#[verifier::rlimit(50)]
pub proof fn lemma_fail_fast_syntax_first(
    plan: Policies,
    tools: ToolConfig,
    selection: Selection,
    k: int,
)
    requires
        0 <= k < spec_fail_fast_order(plan, tools, selection).len(),
        spec_fail_fast_order(plan, tools, selection)[k] == FailFastStage::Policy(Family::Size)
            || spec_fail_fast_order(plan, tools, selection)[k] == FailFastStage::Policy(
            Family::Testing,
        ) || spec_fail_fast_order(plan, tools, selection)[k] == FailFastStage::Semantic,
    ensures
        exists|i: int| 0 <= i < k && spec_fail_fast_order(plan, tools, selection)[i]
            == FailFastStage::Syntax,
{
    let order = spec_fail_fast_order(plan, tools, selection);
    let p = fail_fast_parts(plan, tools, selection);
    lemma_fail_fast_parts(plan, tools, selection);
    lemma_tool_stages(tools, selection);
    let early_syntax = plan.members(Family::Size).len() > 0 || plan.members(Family::Testing).len()
        > 0;
    let a = p[0] + p[1] + p[2] + p[3];
    assert(order == a + p[4] + p[5] + p[6]);
    if early_syntax {
        assert(order[0] == FailFastStage::Syntax);
        assert(k != 0);
    } else {
        assert(p[0].len() == 0 && p[1].len() == 0 && p[2].len() == 0);
        assert(a =~= p[3]);
        let stage = order[k];
        if k < a.len() {
            assert(order[k] == p[3][k]);
            assert(p[3].contains(order[k]));
        } else if k < a.len() + p[4].len() {
            assert(order[k] == p[4][k - a.len()]);
            assert(k - a.len() == 1);
            assert(order[a.len() as int] == p[4][0]);
        } else if k < a.len() + p[4].len() + p[5].len() {
            assert(order[k] == p[5][k - a.len() - p[4].len()]);
        } else {
            assert(order[k] == p[6][k - a.len() - p[4].len() - p[5].len()]);
        }
    }
}

/// In a fail-fast check a native policy family takes part exactly when it
/// has rules, and the semantic analysis exactly when the plan collects
/// semantic facts.
#[verifier::rlimit(100)]
pub proof fn lemma_fail_fast_stages_taking_part(
    plan: Policies,
    tools: ToolConfig,
    selection: Selection,
    family: Family,
)
    requires
        !crate::selection::is_tool(family),
    ensures
        spec_fail_fast_order(plan, tools, selection).contains(FailFastStage::Policy(family))
            <==> plan.members(family).len() > 0,
        spec_fail_fast_order(plan, tools, selection).contains(FailFastStage::Semantic) <==> (
        plan.collect_hir || plan.collect_private_dead_code),
{
    let p = fail_fast_parts(plan, tools, selection);
    lemma_fail_fast_parts(plan, tools, selection);
    lemma_tool_stages(tools, selection);
    let stage = FailFastStage::Policy(family);
    let semantic = FailFastStage::Semantic;
    lemma_contains_append(p[0], p[1], stage);
    lemma_contains_append(p[0] + p[1], p[2], stage);
    lemma_contains_append(p[0] + p[1] + p[2], p[3], stage);
    lemma_contains_append(p[0] + p[1] + p[2] + p[3], p[4], stage);
    lemma_contains_append(p[0] + p[1] + p[2] + p[3] + p[4], p[5], stage);
    lemma_contains_append(p[0] + p[1] + p[2] + p[3] + p[4] + p[5], p[6], stage);
    lemma_contains_append(p[0], p[1], semantic);
    lemma_contains_append(p[0] + p[1], p[2], semantic);
    lemma_contains_append(p[0] + p[1] + p[2], p[3], semantic);
    lemma_contains_append(p[0] + p[1] + p[2] + p[3], p[4], semantic);
    lemma_contains_append(p[0] + p[1] + p[2] + p[3] + p[4], p[5], semantic);
    lemma_contains_append(p[0] + p[1] + p[2] + p[3] + p[4] + p[5], p[6], semantic);
    if p[1].contains(stage) || p[2].contains(stage) || p[5].contains(stage) || p[6].contains(
        stage,
    ) {
        let q: int = if p[1].contains(stage) {
            1
        } else if p[2].contains(stage) {
            2
        } else if p[5].contains(stage) {
            5
        } else {
            6
        };
        let k = choose|k: int| 0 <= k < p[q].len() && p[q][k] == stage;
        assert(p[q][k] == p[q][0]);
    }
    if plan.members(family).len() > 0 {
        if family == Family::Size {
            assert(p[1][0] == stage);
        } else if family == Family::Testing {
            assert(p[2][0] == stage);
        } else if family == Family::DeadCode {
            assert(p[5][0] == stage);
        } else {
            assert(p[6][0] == stage);
        }
    }
    if plan.collect_hir || plan.collect_private_dead_code {
        assert(p[4][p[4].len() - 1] == semantic);
    }
    if p[0].contains(stage) || p[4].contains(stage) || p[0].contains(semantic) {
        let q: int = if p[0].contains(stage) || p[0].contains(semantic) {
            0
        } else {
            4
        };
        let k = choose|k: int|
            0 <= k < p[q].len() && (p[q][k] == stage || (q == 0 && p[q][k] == semantic));
        assert(p[q][k] == FailFastStage::Syntax || p[q][k] == semantic);
    }
}

/// What a worker of a comprehensive check reports.
pub enum Event {
    /// The native policies' findings, or their errors, after `Duration`.
    Policies(Result<Vec<Diagnostic>, Vec<AnalysisError>>, Duration),
    /// Progress of the wrapped tools.
    Tool(RunEvent),
    /// The wrapped tools are done, or failed.
    ToolsComplete(Result<(), AnalysisError>),
}

/// What the progress display shows after an event.
pub enum Progress {
    /// The policies finished after the duration; their findings are shown.
    PoliciesFinished(Duration),
    /// The policies failed.
    PoliciesFailed,
    /// A wrapped tool started.
    ToolStarted(&'static str),
    /// The last recorded tool report finished after the duration; its
    /// findings are shown.
    ToolFinished(Duration),
    /// The named wrapped tool, or the tools as a whole, failed.
    ToolsFailed(&'static str),
    /// Nothing to show.
    Nothing,
}

/// What a comprehensive check has gathered from its workers.
pub struct State {
    pub diagnostics: Vec<Diagnostic>,
    pub tool_reports: Vec<ToolReport>,
    pub errors: Vec<AnalysisError>,
    pub policies_complete: bool,
    pub tools_complete: bool,
    pub active_tool: Option<&'static str>,
}

/// The message of a worker that stopped without reporting.
pub open spec fn lost_worker_text() -> Seq<char> {
    "an Axiom check worker stopped before reporting its result"@
}

impl State {
    /// Nothing gathered yet; a part that does not run counts as complete.
    pub fn new(policies_complete: bool, tools_complete: bool) -> (state: Self)
        ensures
            state.diagnostics@.len() == 0,
            state.tool_reports@.len() == 0,
            state.errors@.len() == 0,
            state.policies_complete == policies_complete,
            state.tools_complete == tools_complete,
            state.active_tool is None,
    {
        State {
            diagnostics: Vec::new(),
            tool_reports: Vec::new(),
            errors: Vec::new(),
            policies_complete,
            tools_complete,
            active_tool: None,
        }
    }

    /// Whether both the policies and the tools are done.
    pub fn complete(&self) -> (done: bool)
        ensures
            done == (self.policies_complete && self.tools_complete),
    {
        self.policies_complete && self.tools_complete
    }

    /// Records an event of a worker, and says what to show: the policies'
    /// findings or errors, a tool that started, a tool's report (without
    /// warnings when they are ignored), and the failure of the tools, which
    /// names the tool that was running.
    pub fn handle(&mut self, event: Event, ignore_warnings: bool) -> (shown: Progress)
        ensures
            match event {
                Event::Policies(Ok(items), elapsed) => {
                    &&& final(self).policies_complete
                    &&& final(self).tools_complete == old(self).tools_complete
                    &&& final(self).diagnostics@ == items@
                    &&& final(self).errors@ == old(self).errors@
                    &&& final(self).tool_reports@ == old(self).tool_reports@
                    &&& final(self).active_tool == old(self).active_tool
                    &&& shown == Progress::PoliciesFinished(elapsed)
                },
                Event::Policies(Err(items), _) => {
                    &&& final(self).policies_complete
                    &&& final(self).tools_complete == old(self).tools_complete
                    &&& final(self).diagnostics@ == old(self).diagnostics@
                    &&& final(self).errors@ == old(self).errors@ + items@
                    &&& final(self).tool_reports@ == old(self).tool_reports@
                    &&& final(self).active_tool == old(self).active_tool
                    &&& shown == Progress::PoliciesFailed
                },
                Event::Tool(RunEvent::Started(name)) => {
                    &&& final(self).policies_complete == old(self).policies_complete
                    &&& final(self).tools_complete == old(self).tools_complete
                    &&& final(self).diagnostics@ == old(self).diagnostics@
                    &&& final(self).errors@ == old(self).errors@
                    &&& final(self).tool_reports@ == old(self).tool_reports@
                    &&& final(self).active_tool == Some(name)
                    &&& shown == Progress::ToolStarted(name)
                },
                Event::Tool(RunEvent::Finished(report, elapsed)) => {
                    &&& final(self).policies_complete == old(self).policies_complete
                    &&& final(self).tools_complete == old(self).tools_complete
                    &&& final(self).diagnostics@ == old(self).diagnostics@
                    &&& final(self).errors@ == old(self).errors@
                    &&& final(self).tool_reports@.len() == old(self).tool_reports@.len() + 1
                    &&& final(self).tool_reports@.drop_last() == old(self).tool_reports@
                    &&& final(self).tool_reports@.last().name == report.name
                    &&& final(self).tool_reports@.last().diagnostics@ == if ignore_warnings {
                        without_warnings(report.diagnostics@)
                    } else {
                        report.diagnostics@
                    }
                    &&& final(self).active_tool is None
                    &&& shown == Progress::ToolFinished(elapsed)
                },
                Event::ToolsComplete(result) => {
                    &&& final(self).policies_complete == old(self).policies_complete
                    &&& final(self).tools_complete
                    &&& final(self).diagnostics@ == old(self).diagnostics@
                    &&& final(self).tool_reports@ == old(self).tool_reports@
                    &&& final(self).active_tool == old(self).active_tool
                    &&& match result {
                        Ok(()) => final(self).errors@ == old(self).errors@ && shown
                            == Progress::Nothing,
                        Err(error) => {
                            &&& final(self).errors@ == old(self).errors@.push(error)
                            &&& shown matches Progress::ToolsFailed(name) && match old(
                                self,
                            ).active_tool {
                                Some(active) => name == active,
                                None => name@ == "tools"@,
                            }
                        },
                    }
                },
            },
    {
        match event {
            Event::Policies(result, elapsed) => {
                self.policies_complete = true;
                match result {
                    Ok(items) => {
                        self.diagnostics = items;
                        Progress::PoliciesFinished(elapsed)
                    },
                    Err(items) => {
                        let mut items = items;
                        self.errors.append(&mut items);
                        Progress::PoliciesFailed
                    },
                }
            },
            Event::Tool(RunEvent::Started(name)) => {
                self.active_tool = Some(name);
                Progress::ToolStarted(name)
            },
            Event::Tool(RunEvent::Finished(report, elapsed)) => {
                self.active_tool = None;
                let mut report = report;
                if ignore_warnings {
                    drop_warnings(&mut report);
                }
                let ghost before = self.tool_reports@;
                self.tool_reports.push(report);
                assert(self.tool_reports@.drop_last() =~= before);
                Progress::ToolFinished(elapsed)
            },
            Event::ToolsComplete(result) => {
                self.tools_complete = true;
                match result {
                    Ok(()) => Progress::Nothing,
                    Err(error) => {
                        let name = match self.active_tool {
                            Some(active) => active,
                            None => "tools",
                        };
                        self.errors.push(error);
                        Progress::ToolsFailed(name)
                    },
                }
            },
        }
    }

    /// Records that a worker stopped without reporting its result.
    pub fn worker_lost(&mut self)
        ensures
            final(self).errors@.len() == old(self).errors@.len() + 1,
            final(self).errors@.drop_last() == old(self).errors@,
            final(self).errors@.last().message@ == lost_worker_text(),
            final(self).errors@.last().path is None,
            final(self).errors@.last().span is None,
            final(self).diagnostics@ == old(self).diagnostics@,
            final(self).tool_reports@ == old(self).tool_reports@,
            final(self).policies_complete == old(self).policies_complete,
            final(self).tools_complete == old(self).tools_complete,
    {
        let message = String::from_str("an Axiom check worker stopped before reporting its result");
        let ghost before = self.errors@;
        self.errors.push(AnalysisError::new(message));
        assert(self.errors@.drop_last() =~= before);
    }

    /// The findings of the check, or its errors when a worker failed.
    pub fn finish(self) -> (result: Result<Analysis, Vec<AnalysisError>>)
        ensures
            result is Ok <==> self.errors@.len() == 0,
            result matches Ok(analysis) ==> {
                &&& analysis.diagnostics@ == self.diagnostics@
                &&& analysis.tool_reports@ == self.tool_reports@
                &&& !analysis.stopped
            },
            result matches Err(errors) ==> errors@ == self.errors@,
    {
        if self.errors.len() == 0 {
            Ok(
                Analysis {
                    diagnostics: self.diagnostics,
                    tool_reports: self.tool_reports,
                    stopped: false,
                },
            )
        } else {
            Err(self.errors)
        }
    }
}

/// The message of a configured rule that no factory builds, which lists
/// the known rules.
pub open spec fn unknown_rule_text(id: Seq<char>, known: Seq<Seq<char>>) -> Seq<char> {
    "unknown rule `"@ + id + "`; known rules: "@ + crate::text::join(known, ", "@)
}

/// The message of a configured rule that no factory builds.
pub fn unknown_rule(id: &str, known: &[String]) -> (message: String)
    ensures
        message@ == unknown_rule_text(id@, crate::commands::texts(known@)),
{
    let mut message = crate::text::concat("unknown rule `", id);
    message.append("`; known rules: ");
    let listed = crate::commands::join_texts(known, ", ");
    message.append(listed.as_str());
    message
}

} // verus!
