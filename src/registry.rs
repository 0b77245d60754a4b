use vstd::prelude::*;
use vstd::string::{StringExecFns, StringSliceAdditionalSpecFns};
use crate::issue::{Issue, IssueView, issues_view};
use crate::rules::{NoConsoleLogRule, NoRelativeImportsRule, PreferTypeOverInterfaceRule, ProgramSummary, Rule};
use crate::rules::no_console_log::console_log_check_spec;
use crate::rules::no_relative_imports::relative_imports_spec;
use crate::rules::prefer_type_over_interface::interfaces_spec;

verus! {

/// One of the rules this library provides.
#[derive(Clone, Copy, Debug, PartialEq, Eq, Structural)]
pub enum AnyRule {
    NoConsoleLog(NoConsoleLogRule),
    NoRelativeImports(NoRelativeImportsRule),
    PreferTypeOverInterface(PreferTypeOverInterfaceRule),
}

impl AnyRule {
    /// The stable identifier of the rule.
    pub open spec fn spec_name(self) -> Seq<char> {
        match self {
            AnyRule::NoConsoleLog(_) => "no-console-log"@,
            AnyRule::NoRelativeImports(_) => "no-relative-imports"@,
            AnyRule::PreferTypeOverInterface(_) => "prefer-type-over-interface"@,
        }
    }

    /// The findings the rule reports for a file.
    pub open spec fn spec_check(self, program: ProgramSummary, path: Seq<char>, source: &str) -> Seq<IssueView> {
        match self {
            AnyRule::NoConsoleLog(_) => console_log_check_spec(path, source),
            AnyRule::NoRelativeImports(_) => relative_imports_spec(path, source.spec_bytes(), program.imports@),
            AnyRule::PreferTypeOverInterface(_) => interfaces_spec(path, source.spec_bytes(), program.interfaces@),
        }
    }
}

impl Rule for AnyRule {
    fn name(&self) -> (r: &'static str)
        ensures
            r@ == self.spec_name(),
    {
        match self {
            AnyRule::NoConsoleLog(rule) => rule.name(),
            AnyRule::NoRelativeImports(rule) => rule.name(),
            AnyRule::PreferTypeOverInterface(rule) => rule.name(),
        }
    }

    fn check(&self, program: &ProgramSummary, path: &str, source: &str) -> (r: Vec<Issue>)
        ensures
            issues_view(r@) == self.spec_check(*program, path@, source),
    {
        match self {
            AnyRule::NoConsoleLog(rule) => rule.check(program, path, source),
            AnyRule::NoRelativeImports(rule) => rule.check(program, path, source),
            AnyRule::PreferTypeOverInterface(rule) => rule.check(program, path, source),
        }
    }
}

/// The findings of several rules for one file: each rule's findings, in the
/// order the rules are given.
pub open spec fn run_rules_spec(rules: Seq<AnyRule>, program: ProgramSummary, path: Seq<char>, source: &str) -> Seq<
    IssueView,
>
    decreases rules.len(),
{
    if rules.len() == 0 {
        Seq::empty()
    } else {
        run_rules_spec(rules.drop_last(), program, path, source) + rules.last().spec_check(program, path, source)
    }
}

/// Runs each rule on one file and gathers the findings in rule order.
pub fn run_rules(rules: &Vec<AnyRule>, program: &ProgramSummary, path: &str, source: &str) -> (r: Vec<Issue>)
    requires
        source.spec_bytes().len() < usize::MAX,
    ensures
        issues_view(r@) == run_rules_spec(rules@, *program, path@, source),
{
    let mut issues: Vec<Issue> = Vec::new();
    let mut i: usize = 0;
    while i < rules.len()
        invariant
            i <= rules@.len(),
            source.spec_bytes().len() < usize::MAX,
            issues_view(issues@) == run_rules_spec(rules@.take(i as int), *program, path@, source),
        decreases rules@.len() - i,
    {
        let mut found = rules[i].check(program, path, source);
        let ghost prev = issues@;
        let ghost more = found@;
        issues.append(&mut found);
        assert(rules@.take(i + 1).drop_last() =~= rules@.take(i as int));
        assert(rules@.take(i + 1).last() == rules@[i as int]);
        assert(issues_view(issues@) =~= issues_view(prev) + issues_view(more));
        i = i + 1;
    }
    assert(rules@.take(i as int) =~= rules@);
    issues
}

/// A rule offered under a name: `instantiate` makes a fresh instance of it.
#[derive(Clone, Debug)]
pub struct RuleRegistration {
    pub name: String,
    pub rule: AnyRule,
}

impl RuleRegistration {
    /// A fresh instance of the registered rule.
    pub fn instantiate(&self) -> (r: AnyRule)
        ensures
            r == self.rule,
    {
        self.rule
    }
}

/// A configuration error found while the registry is built or read.
#[derive(Clone, Debug)]
pub enum RegistryError {
    /// A second rule was registered under a name already taken.
    DuplicateName(String),
    /// The configuration asked for a rule that no registration offers.
    UnknownRule(String),
}

/// Some registration is under `name`.
pub open spec fn has_name(regs: Seq<(Seq<char>, AnyRule)>, name: Seq<char>) -> bool {
    exists|i: int| 0 <= i < regs.len() && (#[trigger] regs[i]).0 == name
}

/// No two registrations share a name.
pub open spec fn names_unique(regs: Seq<(Seq<char>, AnyRule)>) -> bool {
    forall|i: int, j: int| 0 <= i < j < regs.len() ==> (#[trigger] regs[i]).0 != (#[trigger] regs[j]).0
}

/// The rule registered under `name`, if any.
pub open spec fn rule_named(regs: Seq<(Seq<char>, AnyRule)>, name: Seq<char>) -> Option<AnyRule> {
    if has_name(regs, name) {
        Some(regs[choose|i: int| 0 <= i < regs.len() && (#[trigger] regs[i]).0 == name].1)
    } else {
        None
    }
}

/// The registrations after one more is offered: a taken name is refused.
pub open spec fn after_register(regs: Seq<(Seq<char>, AnyRule)>, name: Seq<char>, rule: AnyRule) -> Seq<
    (Seq<char>, AnyRule),
> {
    if has_name(regs, name) {
        regs
    } else {
        regs.push((name, rule))
    }
}

/// The catalog of rules by name, built once before analysis starts.
pub struct RuleRegistry {
    registrations: Vec<RuleRegistration>,
}

impl View for RuleRegistry {
    type V = Seq<(Seq<char>, AnyRule)>;

    closed spec fn view(&self) -> Seq<(Seq<char>, AnyRule)> {
        self.registrations@.map_values(|r: RuleRegistration| (r.name@, r.rule))
    }
}

impl RuleRegistry {
    pub open spec fn wf(&self) -> bool {
        names_unique(self@)
    }

    /// An empty catalog.
    pub fn new() -> (r: RuleRegistry)
        ensures
            r@ == Seq::<(Seq<char>, AnyRule)>::empty(),
            r.wf(),
    {
        let r = RuleRegistry { registrations: Vec::new() };
        assert(r@ =~= Seq::<(Seq<char>, AnyRule)>::empty());
        r
    }

    /// Adds a registration; a name already taken is a configuration error and
    /// leaves the catalog as it was.
    pub fn register(&mut self, registration: RuleRegistration) -> (r: Result<(), RegistryError>)
        requires
            old(self).wf(),
        ensures
            final(self).wf(),
            final(self)@ == after_register(old(self)@, registration.name@, registration.rule),
            r is Err <==> has_name(old(self)@, registration.name@),
            r matches Err(e) ==> (e matches RegistryError::DuplicateName(n) && n@ == registration.name@),
    {
        let mut i: usize = 0;
        while i < self.registrations.len()
            invariant
                i <= self@.len(),
                self@.len() == self.registrations@.len(),
                forall|j: int| 0 <= j < i ==> (#[trigger] self@[j]).0 != registration.name@,
                self@ == old(self)@,
                self.wf(),
            decreases self@.len() - i,
        {
            assert(self@[i as int].0 == self.registrations@[i as int].name@);
            if self.registrations[i].name == registration.name {
                assert(self@[i as int].0 == registration.name@);
                return Err(RegistryError::DuplicateName(registration.name));
            }
            i = i + 1;
        }
        let ghost prev = self@;
        let ghost name = registration.name@;
        let ghost rule = registration.rule;
        self.registrations.push(registration);
        assert(self@ =~= prev.push((name, rule)));
        Ok(())
    }

    /// The catalog of every rule this library provides.
    pub fn with_builtin_rules() -> (r: RuleRegistry)
        ensures
            r.wf(),
            r@ == seq![
                ("no-console-log"@, AnyRule::NoConsoleLog(NoConsoleLogRule)),
                ("no-relative-imports"@, AnyRule::NoRelativeImports(NoRelativeImportsRule)),
                ("prefer-type-over-interface"@, AnyRule::PreferTypeOverInterface(PreferTypeOverInterfaceRule)),
            ],
    {
        let mut registrations: Vec<RuleRegistration> = Vec::new();
        registrations.push(RuleRegistration { name: String::from_str("no-console-log"), rule: AnyRule::NoConsoleLog(NoConsoleLogRule) });
        registrations.push(RuleRegistration { name: String::from_str("no-relative-imports"), rule: AnyRule::NoRelativeImports(NoRelativeImportsRule) });
        registrations.push(RuleRegistration { name: String::from_str("prefer-type-over-interface"), rule: AnyRule::PreferTypeOverInterface(PreferTypeOverInterfaceRule) });
        let r = RuleRegistry { registrations };
        proof {
            reveal_strlit("no-console-log");
            reveal_strlit("no-relative-imports");
            reveal_strlit("prefer-type-over-interface");
        }
        assert(r@ =~= seq![
            ("no-console-log"@, AnyRule::NoConsoleLog(NoConsoleLogRule)),
            ("no-relative-imports"@, AnyRule::NoRelativeImports(NoRelativeImportsRule)),
            ("prefer-type-over-interface"@, AnyRule::PreferTypeOverInterface(PreferTypeOverInterfaceRule)),
        ]);
        assert("no-console-log"@ != "no-relative-imports"@) by {
            assert("no-console-log"@[3] != "no-relative-imports"@[3]);
        }
        assert("no-console-log"@ != "prefer-type-over-interface"@) by {
            assert("no-console-log"@[0] != "prefer-type-over-interface"@[0]);
        }
        assert("no-relative-imports"@ != "prefer-type-over-interface"@) by {
            assert("no-relative-imports"@[0] != "prefer-type-over-interface"@[0]);
        }
        r
    }

    /// The number of registrations.
    pub fn len(&self) -> (r: usize)
        ensures
            r == self@.len(),
    {
        self.registrations.len()
    }

    fn position_of_name(&self, name: &String) -> (r: Option<usize>)
        requires
            self.wf(),
        ensures
            r is Some <==> has_name(self@, name@),
            r matches Some(i) ==> i < self@.len() && self@[i as int].0 == name@,
    {
        let mut i: usize = 0;
        while i < self.registrations.len()
            invariant
                i <= self@.len(),
                self@.len() == self.registrations@.len(),
                forall|j: int| 0 <= j < i ==> (#[trigger] self@[j]).0 != name@,
            decreases self@.len() - i,
        {
            assert(self@[i as int].0 == self.registrations@[i as int].name@);
            if self.registrations[i].name == *name {
                return Some(i);
            }
            i = i + 1;
        }
        None
    }

    /// A fresh instance of the rule registered under `name`, if any.
    pub fn find(&self, name: &str) -> (r: Option<AnyRule>)
        requires
            self.wf(),
        ensures
            r == rule_named(self@, name@),
    {
        let key = String::from_str(name);
        match self.position_of_name(&key) {
            Some(i) => {
                let ghost j = choose|j: int| 0 <= j < self@.len() && (#[trigger] self@[j]).0 == name@;
                assert(j == i as int);
                Some(self.registrations[i].instantiate())
            },
            None => None,
        }
    }

    /// Fresh instances of the rules named by the configuration, in its order;
    /// the first name that no registration offers is a configuration error.
    pub fn resolve(&self, names: &Vec<String>) -> (r: Result<Vec<AnyRule>, RegistryError>)
        requires
            self.wf(),
        ensures
            r is Ok <==> forall|i: int| 0 <= i < names@.len() ==> has_name(self@, (#[trigger] names@[i])@),
            r matches Ok(v) ==> v@.len() == names@.len() && forall|i: int|
                0 <= i < names@.len() ==> Some(#[trigger] v@[i]) == rule_named(self@, names@[i]@),
            r matches Err(e) ==> exists|i: int|
                0 <= i < names@.len() && !has_name(self@, (#[trigger] names@[i])@) && (forall|j: int|
                    0 <= j < i ==> has_name(self@, names@[j]@)) && (e matches RegistryError::UnknownRule(n)
                    && n@ == names@[i]@),
    {
        let mut rules: Vec<AnyRule> = Vec::new();
        let mut i: usize = 0;
        while i < names.len()
            invariant
                self.wf(),
                i <= names@.len(),
                rules@.len() == i,
                forall|j: int| 0 <= j < i ==> has_name(self@, (#[trigger] names@[j])@),
                forall|j: int| 0 <= j < i ==> Some(#[trigger] rules@[j]) == rule_named(self@, names@[j]@),
            decreases names@.len() - i,
        {
            match self.find(names[i].as_str()) {
                Some(rule) => {
                    rules.push(rule);
                },
                None => {
                    let e = RegistryError::UnknownRule(names[i].clone());
                    assert(!has_name(self@, names@[i as int]@));
                    return Err(e);
                },
            }
            i = i + 1;
        }
        Ok(rules)
    }
}

/// A name can be registered once: after a rule is registered under a name,
/// the name is taken, so registering a second rule under it is refused and
/// changes nothing.
pub proof fn lemma_duplicate_name_refused(
    regs: Seq<(Seq<char>, AnyRule)>,
    name: Seq<char>,
    first: AnyRule,
    second: AnyRule,
)
    ensures
        has_name(after_register(regs, name, first), name),
        after_register(after_register(regs, name, first), name, second) == after_register(regs, name, first),
{
    let after = after_register(regs, name, first);
    if !has_name(regs, name) {
        assert(after[regs.len() as int].0 == name);
    }
}

} // verus!
