use core::time::Duration;
use vstd::prelude::*;
use vstd::string::*;

use crate::config::ToolConfig;
use crate::diagnostic::{Level, SourceSpan};
use crate::selection::{is_tool, Family, Selection};

verus! {

/// A finding reported by a wrapped tool.
#[derive(Debug)]
pub struct ToolDiagnostic {
    pub tool: &'static str,
    pub rule_id: String,
    pub level: Level,
    pub message: String,
    pub help: Option<String>,
    pub path: Option<String>,
    pub span: Option<SourceSpan>,
    pub rendered: Option<String>,
}

/// The findings of one wrapped tool.
#[derive(Debug)]
pub struct ToolReport {
    pub name: &'static str,
    pub diagnostics: Vec<ToolDiagnostic>,
}

/// Progress of the wrapped tools.
pub enum RunEvent {
    Started(&'static str),
    Finished(ToolReport, Duration),
}

/// How a wrapped tool is run.
#[derive(Clone, Copy)]
pub struct RunMode {
    pub fail_fast: bool,
    pub ignore_warnings: bool,
}

impl RunMode {
    /// Every finding, without stopping early.
    pub fn complete() -> (mode: Self)
        ensures
            !mode.fail_fast,
            !mode.ignore_warnings,
    {
        RunMode { fail_fast: false, ignore_warnings: false }
    }

    /// Stop at the first finding, optionally ignoring warnings.
    pub fn fail_fast(ignore_warnings: bool) -> (mode: Self)
        ensures
            mode.fail_fast,
            mode.ignore_warnings == ignore_warnings,
    {
        RunMode { fail_fast: true, ignore_warnings }
    }
}

/// Whether the wrapped tool `family` runs: Clippy must be enabled, the family
/// selected, and rustdoc additionally needs documentation checks.
pub open spec fn spec_enabled(config: &ToolConfig, selection: Selection, family: Family) -> bool {
    &&& config.clippy.enabled
    &&& selection.spec_includes(family)
    &&& (family != Family::Rustdoc || config.clippy.check_docs)
}

/// Whether the wrapped tool `family` runs.
pub fn enabled(config: &ToolConfig, selection: Selection, family: Family) -> (result: bool)
    ensures
        result == spec_enabled(config, selection, family),
{
    config.clippy.enabled && selection.includes(family) && (family != Family::Rustdoc
        || config.clippy.check_docs)
}

/// Whether any wrapped tool runs.
pub fn any_enabled(config: &ToolConfig, selection: Selection) -> (result: bool)
    ensures
        result == (spec_enabled(config, selection, Family::Clippy) || spec_enabled(
            config,
            selection,
            Family::Rustdoc,
        )),
{
    enabled(config, selection, Family::Clippy) || enabled(config, selection, Family::Rustdoc)
}

/// The wrapped tools that run, in the order they run: Clippy, then rustdoc.
pub open spec fn spec_tools_to_run(config: &ToolConfig, selection: Selection) -> Seq<Family> {
    (if spec_enabled(config, selection, Family::Clippy) {
        seq![Family::Clippy]
    } else {
        seq![]
    }) + (if spec_enabled(config, selection, Family::Rustdoc) {
        seq![Family::Rustdoc]
    } else {
        seq![]
    })
}

/// The wrapped tools that run, in the order they run.
pub fn tools_to_run(config: &ToolConfig, selection: Selection) -> (families: Vec<Family>)
    ensures
        families@ == spec_tools_to_run(config, selection),
{
    let mut families = Vec::new();
    if enabled(config, selection, Family::Clippy) {
        families.push(Family::Clippy);
    }
    if enabled(config, selection, Family::Rustdoc) {
        families.push(Family::Rustdoc);
    }
    assert(families@ =~= spec_tools_to_run(config, selection));
    families
}

/// The name of a wrapped tool.
pub fn name(family: Family) -> (tool: &'static str)
    requires
        is_tool(family),
    ensures
        tool@ == if family == Family::Clippy {
            "clippy"@
        } else {
            "rustdoc"@
        },
{
    match family {
        Family::Clippy => "clippy",
        _ => "rustdoc",
    }
}

/// The value of `AXIOM_OFFLINE` that forbids network access: `1`, `true`,
/// or `yes`, in any ASCII case.
pub open spec fn spec_is_offline_value(value: Seq<char>) -> bool {
    ascii_lowercase(value) == "1"@ || ascii_lowercase(value) == "true"@ || ascii_lowercase(value)
        == "yes"@
}

/// `c` with ASCII capitals lowered.
pub open spec fn lower_char(c: char) -> char {
    if 'A' <= c && c <= 'Z' {
        (((c as u32) + 32) as u32) as char
    } else {
        c
    }
}

/// `text` with ASCII capitals lowered.
pub open spec fn ascii_lowercase(text: Seq<char>) -> Seq<char> {
    text.map_values(|c: char| lower_char(c))
}

/// Whether `value`, with ASCII capitals lowered, is `expected`, which holds
/// no capitals.
fn lowercase_equals(value: &str, expected: &str) -> (result: bool)
    requires
        forall|k: int| 0 <= k < expected@.len() ==> !('A' <= #[trigger] expected@[k] <= 'Z'),
    ensures
        result == (ascii_lowercase(value@) == expected@),
{
    let length = value.unicode_len();
    if length != expected.unicode_len() {
        proof {
            assert(ascii_lowercase(value@).len() == value@.len());
        }
        return false;
    }
    let mut index: usize = 0;
    while index < length
        invariant
            index <= length,
            length == value@.len(),
            length == expected@.len(),
            forall|k: int| 0 <= k < expected@.len() ==> !('A' <= #[trigger] expected@[k] <= 'Z'),
            forall|k: int| 0 <= k < index ==> lower_char(value@[k]) == expected@[k],
        decreases length - index,
    {
        let c = value.get_char(index);
        let e = expected.get_char(index);
        let same = c == e || ('A' <= c && c <= 'Z' && (c as u32) + 32 == (e as u32));
        proof {
            if 'A' <= c && c <= 'Z' {
                let lowered = (((c as u32) + 32) as u32) as char;
                if (c as u32) + 32 == (e as u32) {
                    vstd::utf8::char_u32_cast(e, ((c as u32) + 32) as u32);
                }
                
            }
        }
        if !same {
            assert(ascii_lowercase(value@)[index as int] != expected@[index as int]);
            return false;
        }
        index = index + 1;
    }
    assert(ascii_lowercase(value@) =~= expected@);
    true
}

/// Whether the value of `AXIOM_OFFLINE` forbids network access.
pub fn is_offline_value(value: &str) -> (offline: bool)
    ensures
        offline == spec_is_offline_value(value@),
{
    proof {
        reveal_strlit("1");
        reveal_strlit("true");
        reveal_strlit("yes");
    }
    lowercase_equals(value, "1") || lowercase_equals(value, "true") || lowercase_equals(
        value,
        "yes",
    )
}

/// Selecting a wrapped tool on the command line does not run it when the
/// policy disables Clippy: no tool runs then, whatever is selected.
pub proof fn lemma_disabled_tools_never_run(config: &ToolConfig, selection: Selection)
    requires
        !config.clippy.enabled,
    ensures
        forall|family: Family| !spec_enabled(config, selection, family),
        spec_tools_to_run(config, selection).len() == 0,
{
    assert(spec_tools_to_run(config, selection) =~= Seq::<Family>::empty());
}

} // verus!
