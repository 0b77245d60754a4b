use vstd::prelude::*;
use vstd::string::{StringExecFns, StringSliceAdditionalSpecFns};
use crate::issue::{Issue, IssueView, Severity, issues_view};
use crate::position::{clamp_offset, line_col, position_of};
use crate::rules::{ProgramSummary, Rule};

verus! {

/// The pattern of the forbidden call.
pub const CONSOLE_LOG_PATTERN: &'static str = "console\\.log\\(";

/// The byte offsets at which the successive non-overlapping matches of the
/// regular expression `pattern` start in `haystack`, or `None` when `pattern`
/// is not a valid expression.
pub uninterp spec fn regex_match_starts(pattern: Seq<char>, haystack: Seq<char>) -> Option<Seq<usize>>;

/// Relies on `regex::Regex::new`, which compiles the pattern or reports it
/// invalid, and `Regex::find_iter`, which yields the successive non-overlapping
/// leftmost-first matches; each match is reduced to its start byte offset.
#[verifier::external_body]
fn find_match_starts(pattern: &str, haystack: &str) -> (r: Option<Vec<usize>>)
    ensures
        r is Some == regex_match_starts(pattern@, haystack@) is Some,
        r matches Some(v) ==> regex_match_starts(pattern@, haystack@) == Some(v@),
{
    regex::Regex::new(pattern).ok().map(|re| re.find_iter(haystack).map(|m| m.start()).collect())
}

/// The finding reported at one (line, column).
pub open spec fn console_log_issue(path: Seq<char>, pos: (int, int)) -> IssueView {
    IssueView {
        rule: "no-console-log"@,
        file: path,
        line: pos.0,
        column: pos.1,
        message: "Avoid using console.log in production code"@,
        severity: Severity::Warning,
    }
}

/// One finding per match start, at the position of that start in `source`.
pub open spec fn console_log_issues_spec(path: Seq<char>, source: Seq<u8>, starts: Seq<usize>) -> Seq<IssueView> {
    starts.map_values(|s: usize| console_log_issue(path, position_of(source, clamp_offset(source.len() as int, s as int))))
}

/// What the rule reports for a file.
pub open spec fn console_log_check_spec(path: Seq<char>, source: &str) -> Seq<IssueView> {
    match regex_match_starts(CONSOLE_LOG_PATTERN@, source@) {
        Some(starts) => console_log_issues_spec(path, source.spec_bytes(), starts),
        None => Seq::empty(),
    }
}

/// Reports console logging calls, found by a fixed text pattern.
#[derive(Clone, Copy, Debug, PartialEq, Eq, Structural)]
pub struct NoConsoleLogRule;

/// The findings for the given match starts, in their order.
pub fn console_log_issues(path: &str, source: &str, starts: &Vec<usize>) -> (r: Vec<Issue>)
    requires
        source.spec_bytes().len() < usize::MAX,
    ensures
        issues_view(r@) == console_log_issues_spec(path@, source.spec_bytes(), starts@),
        forall|i: int| 0 <= i < r@.len() ==> (#[trigger] r@[i]).wf(),
{
    let mut issues: Vec<Issue> = Vec::new();
    let mut i: usize = 0;
    while i < starts.len()
        invariant
            i <= starts@.len(),
            source.spec_bytes().len() < usize::MAX,
            issues_view(issues@) == console_log_issues_spec(path@, source.spec_bytes(), starts@.take(i as int)),
            forall|j: int| 0 <= j < issues@.len() ==> (#[trigger] issues@[j]).wf(),
        decreases starts@.len() - i,
    {
        let (line, column) = line_col(source, starts[i]);
        let issue = Issue {
            rule: String::from_str("no-console-log"),
            file: String::from_str(path),
            line,
            column,
            message: String::from_str("Avoid using console.log in production code"),
            severity: Severity::Warning,
        };
        assert(issue@ == console_log_issue(
            path@,
            position_of(source.spec_bytes(), clamp_offset(source.spec_bytes().len() as int, starts@[i as int] as int)),
        ));
        let ghost prev = issues@;
        issues.push(issue);
        assert(issues@ == prev.push(issue));
        assert(issues_view(issues@) =~= issues_view(prev).push(issue@));
        assert(starts@.take(i + 1) =~= starts@.take(i as int).push(starts@[i as int]));
        assert(issues_view(issues@) =~= console_log_issues_spec(path@, source.spec_bytes(), starts@.take(i + 1)));
        i = i + 1;
    }
    assert(starts@.take(i as int) =~= starts@);
    issues
}

impl NoConsoleLogRule {
    /// The findings for `source`: one per match of the pattern.
    pub fn run(&self, path: &str, source: &str) -> (r: Vec<Issue>)
        requires
            source.spec_bytes().len() < usize::MAX,
        ensures
            issues_view(r@) == console_log_check_spec(path@, source),
            forall|i: int| 0 <= i < r@.len() ==> (#[trigger] r@[i]).wf(),
    {
        match find_match_starts(CONSOLE_LOG_PATTERN, source) {
            Some(starts) => console_log_issues(path, source, &starts),
            None => Vec::new(),
        }
    }
}

impl Rule for NoConsoleLogRule {
    fn name(&self) -> (r: &'static str)
        ensures
            r@ == "no-console-log"@,
    {
        "no-console-log"
    }

    fn check(&self, _program: &ProgramSummary, path: &str, source: &str) -> (r: Vec<Issue>)
        ensures
            issues_view(r@) == console_log_check_spec(path@, source),
    {
        self.run(path, source)
    }
}

} // verus!
