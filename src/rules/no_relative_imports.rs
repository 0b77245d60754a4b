use vstd::prelude::*;
use vstd::string::{StringExecFns, StringSliceAdditionalSpecFns};
use crate::issue::{Issue, IssueView, Severity, issues_view};
use crate::position::{clamp_offset, line_col, position_of};
use crate::rules::{ImportSite, ProgramSummary, Rule};

verus! {

/// `s` without the copies of `b` at its start.
pub open spec fn trim_start(s: Seq<u8>, b: u8) -> Seq<u8>
    decreases s.len(),
{
    if s.len() > 0 && s[0] == b {
        trim_start(s.drop_first(), b)
    } else {
        s
    }
}

/// `s` without the copies of `b` at its end.
pub open spec fn trim_end(s: Seq<u8>, b: u8) -> Seq<u8>
    decreases s.len(),
{
    if s.len() > 0 && s.last() == b {
        trim_end(s.drop_last(), b)
    } else {
        s
    }
}

/// `s` without the copies of `b` at either end.
pub open spec fn trim_both(s: Seq<u8>, b: u8) -> Seq<u8> {
    trim_end(trim_start(s, b), b)
}

/// A module specifier is relative when, once its double and then its single
/// quotes are trimmed, it starts with a dot.
pub open spec fn is_relative_specifier(s: Seq<u8>) -> bool {
    let t = trim_both(trim_both(s, 34u8), 39u8);
    t.len() > 0 && t[0] == 46u8
}

/// An import is reported when its specifier span lies within the text and the
/// specifier is relative.
pub open spec fn import_flagged(source: Seq<u8>, site: ImportSite) -> bool {
    &&& site.src_lo < source.len()
    &&& site.src_hi <= source.len()
    &&& site.src_lo <= site.src_hi
    &&& is_relative_specifier(source.subrange(site.src_lo as int, site.src_hi as int))
}

/// The finding reported for an import at one (line, column).
pub open spec fn relative_import_issue(path: Seq<char>, pos: (int, int)) -> IssueView {
    IssueView {
        rule: "no-relative-imports"@,
        file: path,
        line: pos.0,
        column: pos.1,
        message: "Use absolute imports with @ prefix instead of relative imports"@,
        severity: Severity::Warning,
    }
}

/// The findings for a list of imports: one per flagged import, in order, at
/// the position of its specifier.
pub open spec fn relative_imports_spec(path: Seq<char>, source: Seq<u8>, sites: Seq<ImportSite>) -> Seq<IssueView>
    decreases sites.len(),
{
    if sites.len() == 0 {
        Seq::empty()
    } else {
        let prev = relative_imports_spec(path, source, sites.drop_last());
        let site = sites.last();
        if import_flagged(source, site) {
            prev.push(relative_import_issue(path, position_of(source, site.src_lo as int)))
        } else {
            prev
        }
    }
}

/// The first index at or after `lo` whose byte is not `b`.
fn skip_leading(bytes: &[u8], lo: usize, hi: usize, b: u8) -> (a: usize)
    requires
        lo <= hi <= bytes@.len(),
    ensures
        lo <= a <= hi,
        trim_start(bytes@.subrange(lo as int, hi as int), b) == bytes@.subrange(a as int, hi as int),
{
    let mut a: usize = lo;
    while a < hi && bytes[a] == b
        invariant
            lo <= a <= hi,
            hi <= bytes@.len(),
            trim_start(bytes@.subrange(lo as int, hi as int), b) == trim_start(
                bytes@.subrange(a as int, hi as int),
                b,
            ),
        decreases hi - a,
    {
        assert(bytes@.subrange(a as int, hi as int).drop_first() =~= bytes@.subrange(a + 1, hi as int));
        a = a + 1;
    }
    a
}

/// The last index, down to `lo`, that ends the run before trailing copies of `b`.
fn skip_trailing(bytes: &[u8], lo: usize, hi: usize, b: u8) -> (e: usize)
    requires
        lo <= hi <= bytes@.len(),
    ensures
        lo <= e <= hi,
        trim_end(bytes@.subrange(lo as int, hi as int), b) == bytes@.subrange(lo as int, e as int),
{
    let mut e: usize = hi;
    while e > lo && bytes[e - 1] == b
        invariant
            lo <= e <= hi,
            hi <= bytes@.len(),
            trim_end(bytes@.subrange(lo as int, hi as int), b) == trim_end(
                bytes@.subrange(lo as int, e as int),
                b,
            ),
        decreases e - lo,
    {
        assert(bytes@.subrange(lo as int, e as int).drop_last() =~= bytes@.subrange(lo as int, e - 1));
        e = e - 1;
    }
    e
}

/// Whether the import's specifier is reported.
pub fn is_flagged_import(source: &str, site: &ImportSite) -> (r: bool)
    ensures
        r == import_flagged(source.spec_bytes(), *site),
{
    let bytes = source.as_bytes();
    let lo = site.src_lo;
    let hi = site.src_hi;
    if !(lo < bytes.len() && hi <= bytes.len() && lo <= hi) {
        return false;
    }
    let a1 = skip_leading(bytes, lo, hi, 34u8);
    let e1 = skip_trailing(bytes, a1, hi, 34u8);
    let a2 = skip_leading(bytes, a1, e1, 39u8);
    let e2 = skip_trailing(bytes, a2, e1, 39u8);
    assert(trim_both(bytes@.subrange(lo as int, hi as int), 34u8) == bytes@.subrange(a1 as int, e1 as int));
    assert(trim_both(bytes@.subrange(a1 as int, e1 as int), 39u8) == bytes@.subrange(a2 as int, e2 as int));
    a2 < e2 && bytes[a2] == 46u8
}

/// Reports imports whose module specifier is relative.
#[derive(Clone, Copy, Debug, PartialEq, Eq, Structural)]
pub struct NoRelativeImportsRule;

impl NoRelativeImportsRule {
    /// The findings for the imports of a file, in traversal order.
    pub fn run(&self, imports: &Vec<ImportSite>, path: &str, source: &str) -> (r: Vec<Issue>)
        requires
            source.spec_bytes().len() < usize::MAX,
        ensures
            issues_view(r@) == relative_imports_spec(path@, source.spec_bytes(), imports@),
            forall|i: int| 0 <= i < r@.len() ==> (#[trigger] r@[i]).wf(),
    {
        let mut issues: Vec<Issue> = Vec::new();
        let mut i: usize = 0;
        while i < imports.len()
            invariant
                i <= imports@.len(),
                source.spec_bytes().len() < usize::MAX,
                issues_view(issues@) == relative_imports_spec(path@, source.spec_bytes(), imports@.take(i as int)),
                forall|j: int| 0 <= j < issues@.len() ==> (#[trigger] issues@[j]).wf(),
            decreases imports@.len() - i,
        {
            let site = &imports[i];
            assert(imports@.take(i + 1).drop_last() =~= imports@.take(i as int));
            assert(imports@.take(i + 1).last() == imports@[i as int]);
            if is_flagged_import(source, site) {
                let (line, column) = line_col(source, site.src_lo);
                let issue = Issue {
                    rule: String::from_str("no-relative-imports"),
                    file: String::from_str(path),
                    line,
                    column,
                    message: String::from_str("Use absolute imports with @ prefix instead of relative imports"),
                    severity: Severity::Warning,
                };
                assert(clamp_offset(source.spec_bytes().len() as int, site.src_lo as int) == site.src_lo as int);
                assert(issue@ == relative_import_issue(path@, position_of(source.spec_bytes(), site.src_lo as int)));
                let ghost prev = issues@;
                issues.push(issue);
                assert(issues_view(issues@) =~= issues_view(prev).push(issue@));
            }
            i = i + 1;
        }
        assert(imports@.take(i as int) =~= imports@);
        issues
    }
}

impl Rule for NoRelativeImportsRule {
    fn name(&self) -> (r: &'static str)
        ensures
            r@ == "no-relative-imports"@,
    {
        "no-relative-imports"
    }

    fn check(&self, program: &ProgramSummary, path: &str, source: &str) -> (r: Vec<Issue>)
        ensures
            issues_view(r@) == relative_imports_spec(path@, source.spec_bytes(), program.imports@),
    {
        self.run(&program.imports, path, source)
    }
}

} // verus!
