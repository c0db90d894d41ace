use vstd::prelude::*;
use vstd::string::*;
use vstd::utf8::*;

use crate::diagnostic::SourceSpan;
use crate::lines::LineIndex;

verus! {

/// The Rust edition of a package.
#[derive(Debug, Clone, Copy, PartialEq, Eq, Structural)]
pub enum RustEdition {
    Edition2015,
    Edition2018,
    Edition2021,
    Edition2024,
}

/// One loaded Rust source file and its line index.
pub struct SourceUnit {
    pub absolute_path: String,
    pub relative_path: String,
    pub edition: RustEdition,
    pub text: String,
    pub lines: LineIndex,
}

impl SourceUnit {
    /// Whether the line index describes this unit's text.
    pub open spec fn wf(&self) -> bool {
        self.lines.text_bytes() == encode_utf8(self.text@)
    }

    /// A source unit whose line index is built from its text.
    pub fn new(
        absolute_path: String,
        relative_path: String,
        edition: RustEdition,
        text: String,
    ) -> (unit: Self)
        ensures
            unit.wf(),
            unit.absolute_path == absolute_path,
            unit.relative_path == relative_path,
            unit.edition == edition,
            unit.text == text,
    {
        let lines = LineIndex::new(text.as_str());
        SourceUnit { absolute_path, relative_path, edition, text, lines }
    }
}

/// The workspace and every source file that the configuration selects.
pub struct AnalysisInput {
    pub workspace_root: String,
    pub sources: Vec<SourceUnit>,
}

impl AnalysisInput {
    /// Whether every source's line index describes its text.
    pub open spec fn wf(&self) -> bool {
        forall|i: int| 0 <= i < self.sources@.len() ==> (#[trigger] self.sources@[i]).wf()
    }
}

/// A function declaration and the lines it spans.
pub struct FunctionFact {
    pub name: String,
    pub span: SourceSpan,
    pub name_span: SourceSpan,
    pub line_count: u32,
}

/// The kind of test code found in a source file.
#[derive(Debug, Clone, Copy, PartialEq, Eq, Structural)]
pub enum TestCodeKind {
    TestFunction,
    InlineTestModule,
    TestOnlyItem,
}

/// Test code found in a source file.
pub struct TestCodeFact {
    pub kind: TestCodeKind,
    pub name: Option<String>,
    pub span: SourceSpan,
}

/// The syntax facts of one source file.
pub struct SourceFileFact {
    pub source: SourceUnit,
    pub line_count: u32,
    pub functions: Vec<FunctionFact>,
    pub test_code: Vec<TestCodeFact>,
}

/// The kind of a semantic finding.
#[derive(Debug, Clone, Copy, PartialEq, Eq, Structural)]
pub enum SemanticFindingKind {
    PrivateDeadCode,
    DeadPublic,
    TestOnly,
    UnnecessaryPublic,
    UnnecessaryRestrictedVisibility,
    UnnecessaryCrateVisibility,
}

/// A finding of the semantic analysis, located in a workspace source.
pub struct SemanticFindingFact {
    pub kind: SemanticFindingKind,
    pub item: String,
    pub item_kind: Option<String>,
    pub path: String,
    pub span: SourceSpan,
}

/// Every fact collected about the workspace.
pub struct CodebaseFacts {
    pub files: Vec<SourceFileFact>,
    pub semantic_findings: Vec<SemanticFindingFact>,
}

impl CodebaseFacts {
    /// No facts.
    pub fn new() -> (facts: Self)
        ensures
            facts.files@.len() == 0,
            facts.semantic_findings@.len() == 0,
    {
        CodebaseFacts { files: Vec::new(), semantic_findings: Vec::new() }
    }
}

/// An operational error that prevents a complete check, optionally located.
#[derive(Debug)]
pub struct AnalysisError {
    pub message: String,
    pub path: Option<String>,
    pub span: Option<SourceSpan>,
}

impl AnalysisError {
    /// An error without a location.
    pub fn new(message: String) -> (error: Self)
        ensures
            error.message == message,
            error.path is None,
            error.span is None,
    {
        AnalysisError { message, path: None, span: None }
    }

    /// The same error, located at `path` and `span`.
    pub fn at(self, path: String, span: Option<SourceSpan>) -> (error: Self)
        ensures
            error.message == self.message,
            error.path == Some(path),
            error.span == span,
    {
        AnalysisError { message: self.message, path: Some(path), span }
    }
}

} // verus!
