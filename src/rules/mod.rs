use vstd::prelude::*;
use vstd::string::StringSliceAdditionalSpecFns;
use crate::issue::Issue;

pub mod no_console_log;
pub mod no_relative_imports;
pub mod prefer_type_over_interface;

pub use no_console_log::NoConsoleLogRule;
pub use no_relative_imports::NoRelativeImportsRule;
pub use prefer_type_over_interface::PreferTypeOverInterfaceRule;

verus! {

/// An import declaration: the byte span of its module specifier, quotes included.
#[derive(Clone, Copy, Debug, PartialEq, Eq, Structural)]
pub struct ImportSite {
    pub src_lo: usize,
    pub src_hi: usize,
}

/// An interface declaration: the byte offset where it starts, and its name.
#[derive(Clone, Debug)]
pub struct InterfaceSite {
    pub lo: usize,
    pub name: String,
}

/// What the rules read of a parsed program: its import declarations and its
/// interface declarations, each in pre-order depth-first order.
#[derive(Clone, Debug)]
pub struct ProgramSummary {
    pub imports: Vec<ImportSite>,
    pub interfaces: Vec<InterfaceSite>,
}

/// A check that produces findings from a parsed program, its path and its text.
pub trait Rule {
    /// The stable identifier of the rule.
    fn name(&self) -> &'static str;

    /// The findings for one file.
    fn check(&self, program: &ProgramSummary, path: &str, source: &str) -> (r: Vec<Issue>)
        requires
            source.spec_bytes().len() < usize::MAX,
        ensures
            forall|i: int| 0 <= i < r@.len() ==> (#[trigger] r@[i]).wf(),
    ;
}

} // verus!
