use vstd::prelude::*;

verus! {

/// Severity of a configured rule or a wrapped tool finding.
#[derive(Debug, Clone, Copy, PartialEq, Eq, Structural)]
pub enum Level {
    Allow,
    Warn,
    Deny,
}

/// Which sources a rule applies to.
#[derive(Debug, Clone, Copy, PartialEq, Eq, Structural)]
pub enum RuleScope {
    All,
    Production,
    Test,
}

/// The kind of guarantee a rule expresses.
#[derive(Debug, Clone, Copy, PartialEq, Eq, Structural)]
pub enum RuleClass {
    Invariant,
    Budget,
    Smell,
}

/// The unit in which a metric rule counts.
#[derive(Debug, Clone, Copy, PartialEq, Eq, Structural)]
pub enum MetricUnit {
    Files,
    CodeLines,
    PhysicalLines,
}

/// Stable identity and description of a rule.
#[derive(Debug, Clone, Copy)]
pub struct RuleMetadata {
    pub id: &'static str,
    pub class: RuleClass,
    pub description: &'static str,
}

/// A one-based line and Unicode-scalar column.
#[derive(Debug, Clone, Copy, PartialEq, Eq, Structural)]
pub struct Position {
    pub line: u32,
    pub column: u32,
}

/// A zero-based byte range together with the positions of its ends.
#[derive(Debug, Clone, Copy, PartialEq, Eq, Structural)]
pub struct SourceSpan {
    pub byte_start: u32,
    pub byte_end: u32,
    pub start: Position,
    pub end: Position,
}

/// A policy finding, located in a workspace source.
#[derive(Debug)]
pub struct Diagnostic {
    pub rule_id: String,
    pub class: RuleClass,
    pub level: Level,
    pub message: String,
    pub help: String,
    pub path: String,
    pub span: SourceSpan,
    pub observed: Option<u32>,
    pub limit: Option<u32>,
    pub unit: Option<MetricUnit>,
}

} // verus!
