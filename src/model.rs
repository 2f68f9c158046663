//! What rules report: positions, edits, fixes, violations, and the result
//! of running one rule on one file.
use crate::language::Language;
use vstd::prelude::*;

verus! {

/// A place in a source file; line and column count from 1.
#[derive(Debug, Clone, Copy, PartialEq, Eq, Hash, Structural)]
pub struct Position {
    pub line: u32,
    pub col: u32,
}

/// What an edit does to the text between its two positions.
#[derive(Debug, Clone, Copy, PartialEq, Eq, Hash, Structural)]
pub enum EditType {
    Add,
    Remove,
    Update,
}

/// One change of a fix.
#[derive(Debug, Clone, PartialEq, Eq)]
pub struct Edit {
    pub start: Position,
    pub end: Position,
    pub edit_type: EditType,
    pub content: Option<String>,
}

impl Edit {
    /// An addition or update carries the text it puts in; a removal carries
    /// none.
    pub open spec fn wf(&self) -> bool {
        match self.edit_type {
            EditType::Add | EditType::Update => self.content is Some,
            EditType::Remove => self.content is None,
        }
    }

    /// An edit, where `content` suits `edit_type`: text for an addition or
    /// an update, none for a removal.
    pub fn try_new(start: Position, end: Position, edit_type: EditType, content: Option<String>) -> (r:
        Option<Edit>)
        ensures
            r matches Some(e) ==> e == (Edit { start, end, edit_type, content }) && e.wf(),
            r is None <==> !(Edit { start, end, edit_type, content }).wf(),
    {
        let ok = match edit_type {
            EditType::Add | EditType::Update => content.is_some(),
            EditType::Remove => content.is_none(),
        };
        if ok {
            Some(Edit { start, end, edit_type, content })
        } else {
            None
        }
    }
}

/// A way to resolve a violation.
#[derive(Debug, Clone, PartialEq, Eq)]
pub struct Fix {
    pub description: String,
    pub edits: Vec<Edit>,
}

/// The kind of problem that a rule looks for.
#[derive(Debug, Clone, Copy, PartialEq, Eq, Hash, Structural)]
pub enum RuleCategory {
    BestPractices,
    CodeStyle,
    ErrorProne,
    Performance,
    Security,
}

/// How serious a violation is.
#[derive(Debug, Clone, Copy, PartialEq, Eq, Hash, Structural)]
pub enum RuleSeverity {
    Error,
    Warning,
    Notice,
    NoSeverity,
}

/// A problem that a rule reports.
#[derive(Debug, Clone, PartialEq, Eq)]
pub struct Violation {
    pub start: Position,
    pub end: Position,
    pub message: String,
    pub severity: RuleSeverity,
    pub category: RuleCategory,
    pub fixes: Vec<Fix>,
}

/// A rule ready to run: its name (`ruleset/rule`), descriptions, kind, the
/// language it applies to, and its JavaScript code. The compiled query that
/// selects the nodes it visits is held by the script engine.
#[derive(Debug, Clone)]
pub struct RuleInternal {
    pub name: String,
    pub short_description: Option<String>,
    pub description: Option<String>,
    pub category: RuleCategory,
    pub severity: RuleSeverity,
    pub language: Language,
    pub code: String,
}

/// The result of running one rule on one file.
#[derive(Debug, Clone)]
pub struct RuleResult {
    pub rule_name: String,
    pub filename: String,
    pub violations: Vec<Violation>,
    /// The kinds of error that occurred: empty, or one of
    /// [`ERROR_RULE_EXECUTION`] and [`ERROR_RULE_TIMEOUT`].
    pub errors: Vec<String>,
    /// The engine's reason for an execution error.
    pub execution_error: Option<String>,
    /// What the rule wrote to its console, where that is asked for.
    pub output: Option<String>,
    pub execution_time_ms: u128,
    pub parsing_time_ms: u128,
    pub query_node_time_ms: u128,
}

/// The error kind of a rule whose script failed.
pub const ERROR_RULE_EXECUTION: &'static str = "rule-execution-error";

/// The error kind of a rule whose script ran out of time.
pub const ERROR_RULE_TIMEOUT: &'static str = "rule-timeout";

/// Options of an analysis.
#[derive(Debug, Clone, Copy, PartialEq, Eq, Default)]
pub struct AnalysisOptions {
    /// Write diagnostics while analysing.
    pub use_debug: bool,
    /// Keep what each rule writes to its console.
    pub log_output: bool,
    /// Skip the files that a code generator wrote.
    pub ignore_generated_files: bool,
}

} // verus!
