use vstd::prelude::*;
use vstd::string::{StringExecFns, StringSliceAdditionalSpecFns};
use crate::issue::{Issue, IssueView, Severity, issues_view};
use crate::position::{clamp_offset, line_col, position_of};
use crate::rules::{InterfaceSite, ProgramSummary, Rule};

verus! {

/// The message for an interface declaration named `name`.
pub open spec fn interface_message(name: Seq<char>) -> Seq<char> {
    "Prefer 'type' over 'interface' for '"@ + name + "'"@
}

/// The finding reported for one interface declaration.
pub open spec fn interface_issue(path: Seq<char>, source: Seq<u8>, site: InterfaceSite) -> IssueView {
    let pos = position_of(source, clamp_offset(source.len() as int, site.lo as int));
    IssueView {
        rule: "prefer-type-over-interface"@,
        file: path,
        line: pos.0,
        column: pos.1,
        message: interface_message(site.name@),
        severity: Severity::Warning,
    }
}

/// One finding per interface declaration, in order.
pub open spec fn interfaces_spec(path: Seq<char>, source: Seq<u8>, sites: Seq<InterfaceSite>) -> Seq<IssueView> {
    sites.map_values(|s: InterfaceSite| interface_issue(path, source, s))
}

/// Reports interface declarations, where a type alias is preferred.
#[derive(Clone, Copy, Debug, PartialEq, Eq, Structural)]
pub struct PreferTypeOverInterfaceRule;

impl PreferTypeOverInterfaceRule {
    /// The findings for the interface declarations of a file, in traversal order.
    pub fn run(&self, interfaces: &Vec<InterfaceSite>, path: &str, source: &str) -> (r: Vec<Issue>)
        requires
            source.spec_bytes().len() < usize::MAX,
        ensures
            issues_view(r@) == interfaces_spec(path@, source.spec_bytes(), interfaces@),
            forall|i: int| 0 <= i < r@.len() ==> (#[trigger] r@[i]).wf(),
    {
        let mut issues: Vec<Issue> = Vec::new();
        let mut i: usize = 0;
        while i < interfaces.len()
            invariant
                i <= interfaces@.len(),
                source.spec_bytes().len() < usize::MAX,
                issues_view(issues@) == interfaces_spec(path@, source.spec_bytes(), interfaces@.take(i as int)),
                forall|j: int| 0 <= j < issues@.len() ==> (#[trigger] issues@[j]).wf(),
            decreases interfaces@.len() - i,
        {
            let site = &interfaces[i];
            let (line, column) = line_col(source, site.lo);
            let mut message = String::from_str("Prefer 'type' over 'interface' for '");
            message.append(site.name.as_str());
            message.append("'");
            let issue = Issue {
                rule: String::from_str("prefer-type-over-interface"),
                file: String::from_str(path),
                line,
                column,
                message,
                severity: Severity::Warning,
            };
            assert(issue@ == interface_issue(path@, source.spec_bytes(), *site));
            let ghost prev = issues@;
            issues.push(issue);
            assert(interfaces@.take(i + 1) =~= interfaces@.take(i as int).push(*site));
            assert(issues_view(issues@) =~= issues_view(prev).push(issue@));
            assert(issues_view(issues@) =~= interfaces_spec(path@, source.spec_bytes(), interfaces@.take(i + 1)));
            i = i + 1;
        }
        assert(interfaces@.take(i as int) =~= interfaces@);
        issues
    }
}

impl Rule for PreferTypeOverInterfaceRule {
    fn name(&self) -> (r: &'static str)
        ensures
            r@ == "prefer-type-over-interface"@,
    {
        "prefer-type-over-interface"
    }

    fn check(&self, program: &ProgramSummary, path: &str, source: &str) -> (r: Vec<Issue>)
        ensures
            issues_view(r@) == interfaces_spec(path@, source.spec_bytes(), program.interfaces@),
    {
        self.run(&program.interfaces, path, source)
    }
}

} // verus!
