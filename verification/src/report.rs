use vstd::prelude::*;
use vstd::string::*;

use crate::diagnostic::{Diagnostic, Level, RuleClass, SourceSpan};
use crate::facts::AnalysisError;
use crate::text::{concat, decimal, join, push_decimal};
use crate::tools::{ToolDiagnostic, ToolReport};

verus! {

/// The name of a level in the policy file.
pub open spec fn spec_level_name(level: Level) -> Seq<char> {
    match level {
        Level::Allow => "allow"@,
        Level::Warn => "warn"@,
        Level::Deny => "deny"@,
    }
}

/// The name of a level in the policy file.
pub fn level_name(level: Level) -> (name: &'static str)
    ensures
        name@ == spec_level_name(level),
{
    match level {
        Level::Allow => "allow",
        Level::Warn => "warn",
        Level::Deny => "deny",
    }
}

/// Whether `code` is a compiler error code: `E` and four ASCII digits.
pub open spec fn spec_is_compiler_error_code(code: Seq<char>) -> bool {
    &&& code.len() == 5
    &&& code[0] == 'E'
    &&& forall|i: int| 1 <= i < 5 ==> '0' <= #[trigger] code[i] <= '9'
}

/// Whether `code` is a compiler error code.
pub fn is_compiler_error_code(code: &str) -> (result: bool)
    ensures
        result == spec_is_compiler_error_code(code@),
{
    if code.unicode_len() != 5 || code.get_char(0) != 'E' {
        return false;
    }
    let mut index: usize = 1;
    while index < 5
        invariant
            1 <= index <= 5,
            code@.len() == 5,
            forall|i: int| 1 <= i < index ==> '0' <= #[trigger] code@[i] <= '9',
        decreases 5 - index,
    {
        let c = code.get_char(index);
        if !('0' <= c && c <= '9') {
            return false;
        }
        index = index + 1;
    }
    true
}

/// The TOML text of a string value.
pub uninterp spec fn toml_string(value: Seq<char>) -> Seq<char>;

/// `value` written as a TOML string, quoted and escaped.
///
/// Calls the `Display` of `toml::Value::String`, which writes the value
/// with `toml`'s serializer; its result is named, not written out.
#[verifier::external_body]
fn quoted(value: &str) -> (text: String)
    ensures
        text@ == toml_string(value@),
{
    toml::Value::String(value.to_owned()).to_string()
}

/// The policy-file setting that configures a finding.
pub struct Hint {
    pub key: String,
    pub level: &'static str,
}

/// The key of a rule's level in the policy file.
pub open spec fn rule_key(rule_id: Seq<char>) -> Seq<char> {
    "rules."@ + toml_string(rule_id) + ".level"@
}

/// The key of a Clippy lint's level in the policy file.
pub open spec fn lint_key(rule_id: Seq<char>) -> Seq<char> {
    "tools.clippy.lints."@ + toml_string(rule_id)
}

/// The setting that configures a policy finding: its rule's level.
pub fn policy(diagnostic: &Diagnostic) -> (hint: Hint)
    ensures
        hint.key@ == rule_key(diagnostic.rule_id@),
        hint.level@ == spec_level_name(diagnostic.level),
{
    let mut key = String::from_str("rules.");
    let name = quoted(diagnostic.rule_id.as_str());
    key.append(name.as_str());
    key.append(".level");
    Hint { key, level: level_name(diagnostic.level) }
}

/// Whether a tool finding is configured in the policy file: a Clippy or
/// rustdoc lint, not a finding named after the tool itself nor a compiler
/// error.
pub open spec fn has_lint_setting(diagnostic: ToolDiagnostic) -> bool {
    &&& (diagnostic.tool@ == "clippy"@ || diagnostic.tool@ == "rustdoc"@)
    &&& diagnostic.rule_id@ != diagnostic.tool@
    &&& !spec_is_compiler_error_code(diagnostic.rule_id@)
}

/// The setting that configures a tool finding, if the policy file has one.
pub fn tool(diagnostic: &ToolDiagnostic) -> (hint: Option<Hint>)
    ensures
        hint is Some <==> has_lint_setting(*diagnostic),
        hint matches Some(found) ==> found.key@ == lint_key(diagnostic.rule_id@)
            && found.level@ == spec_level_name(diagnostic.level),
{
    if !(crate::text::same_text(diagnostic.tool, "clippy") || crate::text::same_text(
        diagnostic.tool,
        "rustdoc",
    )) || crate::text::same_text(diagnostic.rule_id.as_str(), diagnostic.tool)
        || is_compiler_error_code(diagnostic.rule_id.as_str()) {
        return None;
    }
    let mut key = String::from_str("tools.clippy.lints.");
    let name = quoted(diagnostic.rule_id.as_str());
    key.append(name.as_str());
    Some(Hint { key, level: level_name(diagnostic.level) })
}

/// The meaning of each level, as the human report explains it.
pub open spec fn level_help() -> Seq<char> {
    "\"deny\" = error, \"warn\" = warning, \"allow\" = disabled"@
}

/// The two lines of the human report that show where a finding is
/// configured: the setting `key` at `level` in the policy file `path`.
pub open spec fn setting_text(path: Seq<char>, key: Seq<char>, level: Seq<char>) -> Seq<char> {
    "  = policy: "@ + key + " = \""@ + level + "\" in "@ + path + "\n"@ + "  = configure: "@
        + level_help() + "\n"@
}

/// The two lines of the human report that show where a finding is
/// configured.
pub fn write_human(path: &str, hint: &Hint) -> (text: String)
    ensures
        text@ == setting_text(path@, hint.key@, hint.level@),
{
    let mut text = concat("  = policy: ", hint.key.as_str());
    text.append(" = \"");
    text.append(hint.level);
    text.append("\" in ");
    text.append(path);
    text.append("\n");
    text.append("  = configure: ");
    text.append("\"deny\" = error, \"warn\" = warning, \"allow\" = disabled");
    text.append("\n");
    text
}

/// Where the JSON report shows that a finding is configured.
pub struct JsonHint {
    pub file: String,
    pub key: String,
    pub value: &'static str,
    pub deny: &'static str,
    pub warn: &'static str,
    pub allow: &'static str,
}

/// Where the JSON report shows that a finding is configured.
pub fn json(path: &str, hint: Hint) -> (found: JsonHint)
    ensures
        found.file@ == path@,
        found.key == hint.key,
        found.value == hint.level,
        found.deny@ == "error"@,
        found.warn@ == "warning"@,
        found.allow@ == "disabled"@,
{
    JsonHint {
        file: String::from_str(path),
        key: hint.key,
        value: hint.level,
        deny: "error",
        warn: "warning",
        allow: "disabled",
    }
}

/// The diagnostics of the wrapped tools, report after report.
pub open spec fn tool_findings(reports: Seq<ToolReport>) -> Seq<ToolDiagnostic>
    decreases reports.len(),
{
    if reports.len() == 0 {
        seq![]
    } else {
        tool_findings(reports.drop_last()) + reports.last().diagnostics@
    }
}

/// How many policy findings have `level`.
pub open spec fn policy_count(level: Level, diagnostics: Seq<Diagnostic>) -> nat
    decreases diagnostics.len(),
{
    if diagnostics.len() == 0 {
        0
    } else {
        policy_count(level, diagnostics.drop_last()) + if diagnostics.last().level == level {
            1nat
        } else {
            0nat
        }
    }
}

/// How many tool findings have `level`.
pub open spec fn tool_count(level: Level, diagnostics: Seq<ToolDiagnostic>) -> nat
    decreases diagnostics.len(),
{
    if diagnostics.len() == 0 {
        0
    } else {
        tool_count(level, diagnostics.drop_last()) + if diagnostics.last().level == level {
            1nat
        } else {
            0nat
        }
    }
}

/// How many findings, of the policies and of the tools, have `level`.
pub open spec fn level_count(
    level: Level,
    diagnostics: Seq<Diagnostic>,
    reports: Seq<ToolReport>,
) -> nat {
    policy_count(level, diagnostics) + tool_count(level, tool_findings(reports))
}

/// Whether every finding can be counted in a `usize`.
pub open spec fn countable(diagnostics: Seq<Diagnostic>, reports: Seq<ToolReport>) -> bool {
    diagnostics.len() + tool_findings(reports).len() <= usize::MAX
}

proof fn lemma_policy_count_bound(level: Level, diagnostics: Seq<Diagnostic>)
    ensures
        policy_count(level, diagnostics) <= diagnostics.len(),
    decreases diagnostics.len(),
{
    if diagnostics.len() > 0 {
        lemma_policy_count_bound(level, diagnostics.drop_last());
    }
}

proof fn lemma_tool_count_append(
    level: Level,
    a: Seq<ToolDiagnostic>,
    b: Seq<ToolDiagnostic>,
)
    ensures
        tool_count(level, a + b) == tool_count(level, a) + tool_count(level, b),
        tool_count(level, b) <= b.len(),
    decreases b.len(),
{
    if b.len() > 0 {
        lemma_tool_count_append(level, a, b.drop_last());
        assert((a + b).drop_last() =~= a + b.drop_last());
    }
}

fn count_policy(level: Level, diagnostics: &[Diagnostic]) -> (count: usize)
    ensures
        count == policy_count(level, diagnostics@),
{
    let mut count: usize = 0;
    let mut index: usize = 0;
    while index < diagnostics.len()
        invariant
            index <= diagnostics@.len(),
            count == policy_count(level, diagnostics@.subrange(0, index as int)),
            count <= index,
        decreases diagnostics@.len() - index,
    {
        proof {
            assert(diagnostics@.subrange(0, index + 1).drop_last() =~= diagnostics@.subrange(
                0,
                index as int,
            ));
        }
        if diagnostics[index].level == level {
            count = count + 1;
        }
        index = index + 1;
    }
    assert(diagnostics@.subrange(0, index as int) =~= diagnostics@);
    count
}

fn count_tools(level: Level, reports: &[ToolReport]) -> (count: usize)
    requires
        tool_findings(reports@).len() <= usize::MAX,
    ensures
        count == tool_count(level, tool_findings(reports@)),
{
    let mut count: usize = 0;
    let mut index: usize = 0;
    proof {
        lemma_tool_findings_prefix(reports@, 0);
    }
    while index < reports.len()
        invariant
            index <= reports@.len(),
            tool_findings(reports@).len() <= usize::MAX,
            count == tool_count(level, tool_findings(reports@.subrange(0, index as int))),
            count <= tool_findings(reports@.subrange(0, index as int)).len(),
        decreases reports@.len() - index,
    {
        let ghost prefix = reports@.subrange(0, index + 1);
        proof {
            assert(prefix.drop_last() =~= reports@.subrange(0, index as int));
            lemma_tool_findings_prefix(reports@, index + 1);
        }
        let diagnostics = &reports[index].diagnostics;
        let mut k: usize = 0;
        while k < diagnostics.len()
            invariant
                k <= diagnostics@.len(),
                diagnostics@ == prefix.last().diagnostics@,
                tool_findings(prefix).len() <= usize::MAX,
                tool_findings(prefix) == tool_findings(prefix.drop_last()) + diagnostics@,
                count == tool_count(level, tool_findings(prefix.drop_last()))
                    + tool_count(level, diagnostics@.subrange(0, k as int)),
                count <= tool_findings(prefix.drop_last()).len() + k,
            decreases diagnostics@.len() - k,
        {
            proof {
                assert(diagnostics@.subrange(0, k + 1).drop_last() =~= diagnostics@.subrange(
                    0,
                    k as int,
                ));
            }
            if diagnostics[k].level == level {
                count = count + 1;
            }
            k = k + 1;
        }
        proof {
            assert(diagnostics@.subrange(0, k as int) =~= diagnostics@);
            lemma_tool_count_append(level, tool_findings(prefix.drop_last()), diagnostics@);
        }
        index = index + 1;
    }
    assert(reports@.subrange(0, index as int) =~= reports@);
    count
}

/// A prefix of the reports has no more tool findings than all of them.
proof fn lemma_tool_findings_prefix(reports: Seq<ToolReport>, n: int)
    requires
        0 <= n <= reports.len(),
    ensures
        tool_findings(reports.subrange(0, n)).len() <= tool_findings(reports).len(),
    decreases reports.len() - n,
{
    if n < reports.len() {
        lemma_tool_findings_prefix(reports, n + 1);
        assert(reports.subrange(0, n + 1).drop_last() =~= reports.subrange(0, n));
    } else {
        assert(reports.subrange(0, n) =~= reports);
    }
}

/// How many findings, of the policies and of the tools, have `level`.
pub fn count(level: Level, diagnostics: &[Diagnostic], tools: &[ToolReport]) -> (total: usize)
    requires
        countable(diagnostics@, tools@),
    ensures
        total == level_count(level, diagnostics@, tools@),
{
    proof {
        lemma_policy_count_bound(level, diagnostics@);
        lemma_tool_count_append(level, seq![], tool_findings(tools@));
        assert(seq![] + tool_findings(tools@) =~= tool_findings(tools@));
    }
    count_policy(level, diagnostics) + count_tools(level, tools)
}

/// The closing line of a human check, without its line break: a stopped
/// check names its first finding's counts, a clean one the sources and the
/// tools that passed, and any other the counts of errors and warnings.
pub open spec fn summary_text(
    denied: nat,
    warned: nat,
    sources: nat,
    tools: Seq<Seq<char>>,
    stopped: bool,
) -> Seq<char> {
    if stopped {
        "axiom check stopped after first finding ("@ + decimal(denied) + " error(s) and "@
            + decimal(warned) + " warning(s))"@
    } else if denied == 0 && warned == 0 {
        if tools.len() == 0 {
            "axiom check passed ("@ + decimal(sources) + " Rust files)"@
        } else {
            "axiom check passed ("@ + decimal(sources) + " Rust files; "@ + join(tools, ", "@)
                + " passed)"@
        }
    } else {
        "axiom check found "@ + decimal(denied) + " error(s) and "@ + decimal(warned)
            + " warning(s)"@
    }
}

/// The names of the tools that ran.
pub open spec fn tool_names(reports: Seq<ToolReport>) -> Seq<Seq<char>> {
    reports.map_values(|report: ToolReport| report.name@)
}

fn tool_name_list(tools: &[ToolReport]) -> (names: String)
    ensures
        names@ == join(tool_names(tools@), ", "@),
{
    let mut names = String::new();
    let mut index: usize = 0;
    while index < tools.len()
        invariant
            index <= tools@.len(),
            names@ == join(tool_names(tools@).subrange(0, index as int), ", "@),
        decreases tools@.len() - index,
    {
        proof {
            let after = tool_names(tools@).subrange(0, index + 1);
            assert(after.drop_last() =~= tool_names(tools@).subrange(0, index as int));
        }
        if index > 0 {
            names.append(", ");
        }
        names.append(tools[index].name);
        proof {
            let after = tool_names(tools@).subrange(0, index + 1);
            if index == 0 {
                assert(after.len() == 1);
            }
            assert(names@ =~= join(after, ", "@));
        }
        index = index + 1;
    }
    assert(tool_names(tools@).subrange(0, tools@.len() as int) =~= tool_names(tools@));
    names
}

/// The closing line of a human check, with its line break.
pub fn write(
    diagnostics: &[Diagnostic],
    tools: &[ToolReport],
    sources: usize,
    stopped: bool,
) -> (text: String)
    requires
        countable(diagnostics@, tools@),
    ensures
        text@ == summary_text(
            level_count(Level::Deny, diagnostics@, tools@),
            level_count(Level::Warn, diagnostics@, tools@),
            sources as nat,
            tool_names(tools@),
            stopped,
        ) + "\n"@,
{
    let denied = count(Level::Deny, diagnostics, tools);
    let warned = count(Level::Warn, diagnostics, tools);
    let mut text = if stopped {
        let mut text = String::from_str("axiom check stopped after first finding (");
        push_decimal(&mut text, denied as u64);
        text.append(" error(s) and ");
        push_decimal(&mut text, warned as u64);
        text.append(" warning(s))");
        text
    } else if denied == 0 && warned == 0 {
        let mut text = String::from_str("axiom check passed (");
        push_decimal(&mut text, sources as u64);
        if tools.len() == 0 {
            text.append(" Rust files)");
        } else {
            text.append(" Rust files; ");
            let names = tool_name_list(tools);
            text.append(names.as_str());
            text.append(" passed)");
        }
        text
    } else {
        let mut text = String::from_str("axiom check found ");
        push_decimal(&mut text, denied as u64);
        text.append(" error(s) and ");
        push_decimal(&mut text, warned as u64);
        text.append(" warning(s)");
        text
    };
    text.append("\n");
    text
}

/// One finding of the JSON report.
pub struct JsonDiagnostic {
    pub kind: &'static str,
    pub tool: Option<&'static str>,
    pub rule_id: Option<String>,
    pub class: Option<RuleClass>,
    pub level: &'static str,
    pub message: String,
    pub help: Option<String>,
    pub path: Option<String>,
    pub span: Option<SourceSpan>,
    pub observed: Option<u32>,
    pub limit: Option<u32>,
    pub configuration: Option<JsonHint>,
}

/// The counts of the JSON report.
pub struct JsonSummary {
    pub errors: usize,
    pub warnings: usize,
}

/// The JSON report of a check.
pub struct JsonOutput {
    pub schema_version: u32,
    pub outcome: &'static str,
    pub diagnostics: Vec<JsonDiagnostic>,
    pub summary: JsonSummary,
}

/// The severity word of a level: warnings warn, everything else is an error.
pub open spec fn severity_word(level: Level) -> Seq<char> {
    if level == Level::Warn {
        "warning"@
    } else {
        "error"@
    }
}

fn severity(level: Level) -> (word: &'static str)
    ensures
        word@ == severity_word(level),
{
    if level == Level::Warn {
        "warning"
    } else {
        "error"
    }
}

/// Whether `hint` shows, in `path`, the setting `key` at `level`.
pub open spec fn shows_setting(hint: JsonHint, path: Seq<char>, key: Seq<char>, level: Level) -> bool {
    &&& hint.file@ == path
    &&& hint.key@ == key
    &&& hint.value@ == spec_level_name(level)
    &&& hint.deny@ == "error"@
    &&& hint.warn@ == "warning"@
    &&& hint.allow@ == "disabled"@
}

/// Whether `found` is the JSON entry of the policy finding `diagnostic`.
pub open spec fn policy_entry(found: JsonDiagnostic, diagnostic: Diagnostic, path: Seq<char>) -> bool {
    &&& found.kind@ == "policy"@
    &&& found.tool is None
    &&& found.rule_id == Some(diagnostic.rule_id)
    &&& found.class == Some(diagnostic.class)
    &&& found.level@ == severity_word(diagnostic.level)
    &&& found.message == diagnostic.message
    &&& found.help == Some(diagnostic.help)
    &&& found.path == Some(diagnostic.path)
    &&& found.span == Some(diagnostic.span)
    &&& found.observed == diagnostic.observed
    &&& found.limit == diagnostic.limit
    &&& found.configuration matches Some(hint) && shows_setting(
        hint,
        path,
        rule_key(diagnostic.rule_id@),
        diagnostic.level,
    )
}

/// Whether `found` is the JSON entry of the tool finding `diagnostic`.
pub open spec fn tool_entry(found: JsonDiagnostic, diagnostic: ToolDiagnostic, path: Seq<char>) -> bool {
    &&& found.kind@ == "tool"@
    &&& found.tool == Some(diagnostic.tool)
    &&& found.rule_id == Some(diagnostic.rule_id)
    &&& found.class is None
    &&& found.level@ == severity_word(diagnostic.level)
    &&& found.message == diagnostic.message
    &&& found.help == diagnostic.help
    &&& found.path == diagnostic.path
    &&& found.span == diagnostic.span
    &&& found.observed is None
    &&& found.limit is None
    &&& if has_lint_setting(diagnostic) {
        found.configuration matches Some(hint) && shows_setting(
            hint,
            path,
            lint_key(diagnostic.rule_id@),
            diagnostic.level,
        )
    } else {
        found.configuration is None
    }
}

/// Whether `found` is the JSON entry of the operational error `error`.
pub open spec fn error_entry(found: JsonDiagnostic, error: AnalysisError) -> bool {
    &&& found.kind@ == "operational"@
    &&& found.tool is None
    &&& found.rule_id is None
    &&& found.class is None
    &&& found.level@ == "error"@
    &&& found.message == error.message
    &&& found.help is None
    &&& found.path == error.path
    &&& found.span == error.span
    &&& found.observed is None
    &&& found.limit is None
    &&& found.configuration is None
}

fn clone_text(value: &Option<String>) -> (copy: Option<String>)
    ensures
        copy == *value,
{
    match value {
        Some(text) => Some(text.clone()),
        None => None,
    }
}

/// The JSON entry of a policy finding.
pub fn from_policy(diagnostic: &Diagnostic, config_path: &str) -> (found: JsonDiagnostic)
    ensures
        policy_entry(found, *diagnostic, config_path@),
{
    let hint = policy(diagnostic);
    JsonDiagnostic {
        kind: "policy",
        tool: None,
        rule_id: Some(diagnostic.rule_id.clone()),
        class: Some(diagnostic.class),
        level: severity(diagnostic.level),
        message: diagnostic.message.clone(),
        help: Some(diagnostic.help.clone()),
        path: Some(diagnostic.path.clone()),
        span: Some(diagnostic.span),
        observed: diagnostic.observed,
        limit: diagnostic.limit,
        configuration: Some(json(config_path, hint)),
    }
}

/// The JSON entry of a tool finding.
pub fn from_tool(diagnostic: &ToolDiagnostic, config_path: &str) -> (found: JsonDiagnostic)
    ensures
        tool_entry(found, *diagnostic, config_path@),
{
    let configuration = match tool(diagnostic) {
        Some(hint) => Some(json(config_path, hint)),
        None => None,
    };
    JsonDiagnostic {
        kind: "tool",
        tool: Some(diagnostic.tool),
        rule_id: Some(diagnostic.rule_id.clone()),
        class: None,
        level: severity(diagnostic.level),
        message: diagnostic.message.clone(),
        help: clone_text(&diagnostic.help),
        path: clone_text(&diagnostic.path),
        span: diagnostic.span,
        observed: None,
        limit: None,
        configuration,
    }
}

/// The JSON entry of an operational error.
pub fn from_error(error: &AnalysisError) -> (found: JsonDiagnostic)
    ensures
        error_entry(found, *error),
{
    JsonDiagnostic {
        kind: "operational",
        tool: None,
        rule_id: None,
        class: None,
        level: "error",
        message: error.message.clone(),
        help: None,
        path: clone_text(&error.path),
        span: error.span,
        observed: None,
        limit: None,
        configuration: None,
    }
}

/// The outcome of a check: it passed when it found no error and did not
/// stop at a first finding.
pub open spec fn outcome_word(errors: nat, stopped: bool) -> Seq<char> {
    if errors == 0 && !stopped {
        "passed"@
    } else {
        "violations"@
    }
}

/// The JSON report of a check: the policy findings, then the tools'
/// findings, with the counts of errors and warnings.
pub fn check(
    diagnostics: &[Diagnostic],
    tools: &[ToolReport],
    config_path: &str,
    stopped: bool,
) -> (output: JsonOutput)
    requires
        countable(diagnostics@, tools@),
    ensures
        output.schema_version == 1,
        output.summary.errors == level_count(Level::Deny, diagnostics@, tools@),
        output.summary.warnings == level_count(Level::Warn, diagnostics@, tools@),
        output.outcome@ == outcome_word(output.summary.errors as nat, stopped),
        output.diagnostics@.len() == diagnostics@.len() + tool_findings(tools@).len(),
        forall|k: int|
            0 <= k < diagnostics@.len() ==> policy_entry(
                #[trigger] output.diagnostics@[k],
                diagnostics@[k],
                config_path@,
            ),
        forall|k: int|
            0 <= k < tool_findings(tools@).len() ==> tool_entry(
                #[trigger] output.diagnostics@[diagnostics@.len() + k],
                tool_findings(tools@)[k],
                config_path@,
            ),
{
    let errors = count(Level::Deny, diagnostics, tools);
    let warnings = count(Level::Warn, diagnostics, tools);
    let mut entries: Vec<JsonDiagnostic> = Vec::new();
    let mut index: usize = 0;
    while index < diagnostics.len()
        invariant
            index <= diagnostics@.len(),
            entries@.len() == index,
            forall|k: int|
                0 <= k < index ==> policy_entry(
                    #[trigger] entries@[k],
                    diagnostics@[k],
                    config_path@,
                ),
        decreases diagnostics@.len() - index,
    {
        entries.push(from_policy(&diagnostics[index], config_path));
        index = index + 1;
    }
    let ghost base = diagnostics@.len();
    let mut report: usize = 0;
    while report < tools.len()
        invariant
            report <= tools@.len(),
            base == diagnostics@.len(),
            entries@.len() == base + tool_findings(tools@.subrange(0, report as int)).len(),
            forall|k: int|
                0 <= k < base ==> policy_entry(
                    #[trigger] entries@[k],
                    diagnostics@[k],
                    config_path@,
                ),
            forall|k: int|
                0 <= k < tool_findings(tools@.subrange(0, report as int)).len() ==> tool_entry(
                    #[trigger] entries@[base + k],
                    tool_findings(tools@.subrange(0, report as int))[k],
                    config_path@,
                ),
        decreases tools@.len() - report,
    {
        let ghost prefix = tools@.subrange(0, report + 1);
        let ghost earlier = tools@.subrange(0, report as int);
        proof {
            assert(prefix.drop_last() =~= earlier);
        }
        let found = &tools[report].diagnostics;
        let mut k: usize = 0;
        while k < found.len()
            invariant
                k <= found@.len(),
                found@ == prefix.last().diagnostics@,
                tool_findings(prefix) == tool_findings(earlier) + found@,
                entries@.len() == base + tool_findings(earlier).len() + k,
                forall|m: int|
                    0 <= m < base ==> policy_entry(
                        #[trigger] entries@[m],
                        diagnostics@[m],
                        config_path@,
                    ),
                forall|m: int|
                    0 <= m < tool_findings(earlier).len() + k ==> tool_entry(
                        #[trigger] entries@[base + m],
                        tool_findings(prefix)[m],
                        config_path@,
                    ),
            decreases found@.len() - k,
        {
            let ghost before = entries@;
            entries.push(from_tool(&found[k], config_path));
            proof {
                assert forall|m: int|
                    0 <= m < tool_findings(earlier).len() + k + 1 implies tool_entry(
                    #[trigger] entries@[base + m],
                    tool_findings(prefix)[m],
                    config_path@,
                ) by {
                    if m < tool_findings(earlier).len() + k {
                        assert(entries@[base + m] == before[base + m]);
                    } else {
                        assert(tool_findings(prefix)[m] == found@[k as int]);
                    }
                }
                assert forall|m: int| 0 <= m < base implies policy_entry(
                    #[trigger] entries@[m],
                    diagnostics@[m],
                    config_path@,
                ) by {
                    assert(entries@[m] == before[m]);
                }
            }
            k = k + 1;
        }
        report = report + 1;
    }
    assert(tools@.subrange(0, report as int) =~= tools@);
    let outcome = if errors == 0 && !stopped {
        "passed"
    } else {
        "violations"
    };
    JsonOutput {
        schema_version: 1,
        outcome,
        diagnostics: entries,
        summary: JsonSummary { errors, warnings },
    }
}

/// The JSON report of a check that could not complete: one error entry per
/// operational error.
pub fn operational(errors: &[AnalysisError]) -> (output: JsonOutput)
    ensures
        output.schema_version == 1,
        output.outcome@ == "error"@,
        output.summary.errors == errors@.len(),
        output.summary.warnings == 0,
        output.diagnostics@.len() == errors@.len(),
        forall|k: int|
            0 <= k < errors@.len() ==> error_entry(#[trigger] output.diagnostics@[k], errors@[k]),
{
    let mut entries: Vec<JsonDiagnostic> = Vec::new();
    let mut index: usize = 0;
    while index < errors.len()
        invariant
            index <= errors@.len(),
            entries@.len() == index,
            forall|k: int| 0 <= k < index ==> error_entry(#[trigger] entries@[k], errors@[k]),
        decreases errors@.len() - index,
    {
        entries.push(from_error(&errors[index]));
        index = index + 1;
    }
    JsonOutput {
        schema_version: 1,
        outcome: "error",
        diagnostics: entries,
        summary: JsonSummary { errors: errors.len(), warnings: 0 },
    }
}

} // verus!
