use vstd::prelude::*;

verus! {

/// How serious a finding is.
#[derive(Clone, Copy, Debug, PartialEq, Eq, Structural)]
pub enum Severity {
    Warning,
    Error,
}

/// One finding produced by a rule.
#[derive(Clone, Debug)]
pub struct Issue {
    pub rule: String,
    pub file: String,
    pub line: usize,
    pub column: usize,
    pub message: String,
    pub severity: Severity,
}

/// The mathematical value of an `Issue`.
pub struct IssueView {
    pub rule: Seq<char>,
    pub file: Seq<char>,
    pub line: int,
    pub column: int,
    pub message: Seq<char>,
    pub severity: Severity,
}

impl View for Issue {
    type V = IssueView;

    open spec fn view(&self) -> IssueView {
        IssueView {
            rule: self.rule@,
            file: self.file@,
            line: self.line as int,
            column: self.column as int,
            message: self.message@,
            severity: self.severity,
        }
    }
}

/// The values of a sequence of issues.
pub open spec fn issues_view(v: Seq<Issue>) -> Seq<IssueView> {
    v.map_values(|i: Issue| i@)
}

impl Issue {
    /// A finding's position is 1-based.
    pub open spec fn wf(&self) -> bool {
        self.line >= 1 && self.column >= 1
    }
}

} // verus!
