use lino_core::cache::{CacheEntry, FileCache};
use lino_core::issue::{Issue, Severity};
use lino_core::position::{line_col, line_col_bytes};
use lino_core::registry::{run_rules, AnyRule, RegistryError, RuleRegistration, RuleRegistry};
use lino_core::rules::no_console_log::console_log_issues;
use lino_core::rules::no_relative_imports::is_flagged_import;
use lino_core::rules::{
    ImportSite, InterfaceSite, NoConsoleLogRule, NoRelativeImportsRule, PreferTypeOverInterfaceRule,
    ProgramSummary, Rule,
};

fn empty_program() -> ProgramSummary {
    ProgramSummary { imports: Vec::new(), interfaces: Vec::new() }
}

fn sample_issue(line: usize) -> Issue {
    Issue {
        rule: "no-console-log".to_string(),
        file: "a.ts".to_string(),
        line,
        column: 1,
        message: "m".to_string(),
        severity: Severity::Warning,
    }
}

fn same_issues(a: &[Issue], b: &[Issue]) -> bool {
    a.len() == b.len()
        && a.iter().zip(b.iter()).all(|(x, y)| {
            x.rule == y.rule
                && x.file == y.file
                && x.line == y.line
                && x.column == y.column
                && x.message == y.message
                && x.severity == y.severity
        })
}

#[test]
fn position_resolver_examples() {
    let s = "ab\ncd";
    assert_eq!(line_col(s, 0), (1, 1));
    assert_eq!(line_col(s, 2), (1, 3));
    assert_eq!(line_col(s, 3), (2, 1));
    assert_eq!(line_col(s, 5), (2, 3));
}

#[test]
fn position_resolver_clamps_past_end() {
    assert_eq!(line_col("ab\ncd", 99), (2, 3));
    assert_eq!(line_col("", 0), (1, 1));
}

#[test]
fn position_resolver_counts_characters() {
    // "é" takes two bytes but one column.
    let s = "é=1\nx";
    assert_eq!(line_col(s, 2), (1, 2));
    assert_eq!(line_col(s, 5), (2, 1));
    assert_eq!(line_col_bytes(b"a\n\nb", 3), (3, 1));
}

#[test]
fn console_log_scenario() {
    let src = "console.log(1)\nfoo()\nconsole.log(2)";
    let issues = NoConsoleLogRule.check(&empty_program(), "app.ts", src);
    assert_eq!(issues.len(), 2);
    assert_eq!((issues[0].line, issues[0].column), (1, 1));
    assert_eq!((issues[1].line, issues[1].column), (3, 1));
    assert_eq!(issues[0].rule, "no-console-log");
    assert_eq!(issues[0].file, "app.ts");
    assert_eq!(issues[0].severity, Severity::Warning);
    assert_eq!(issues[0].message, "Avoid using console.log in production code");
}

#[test]
fn console_log_every_match_on_a_line() {
    let src = "a; console.log(1); console.log(2)\n  console.log(3)";
    let issues = NoConsoleLogRule.run("f.js", src);
    let pos: Vec<(usize, usize)> = issues.iter().map(|i| (i.line, i.column)).collect();
    assert_eq!(pos, vec![(1, 4), (1, 20), (2, 3)]);
}

#[test]
fn console_log_column_is_in_characters() {
    let issues = NoConsoleLogRule.run("f.js", "é console.log(1)");
    assert_eq!(issues.len(), 1);
    assert_eq!((issues[0].line, issues[0].column), (1, 3));
}

#[test]
fn console_log_no_match() {
    assert!(NoConsoleLogRule.run("f.js", "console.info(1)\nconsole.log").is_empty());
}

#[test]
fn console_log_issues_from_given_starts() {
    let issues = console_log_issues("f.js", "ab\ncd", &vec![0, 4]);
    let pos: Vec<(usize, usize)> = issues.iter().map(|i| (i.line, i.column)).collect();
    assert_eq!(pos, vec![(1, 1), (2, 2)]);
}

fn import_program(src: &str, spec: &str) -> ProgramSummary {
    let lo = src.find(spec).unwrap();
    ProgramSummary {
        imports: vec![ImportSite { src_lo: lo, src_hi: lo + spec.len() }],
        interfaces: Vec::new(),
    }
}

#[test]
fn relative_import_scenario() {
    let src = "import { x } from \"./utils\";";
    let issues = NoRelativeImportsRule.check(&import_program(src, "\"./utils\""), "a.ts", src);
    assert_eq!(issues.len(), 1);
    assert_eq!((issues[0].line, issues[0].column), (1, 19));
    assert_eq!(issues[0].rule, "no-relative-imports");

    let src2 = "import { x } from \"@app/utils\";";
    let none = NoRelativeImportsRule.check(&import_program(src2, "\"@app/utils\""), "a.ts", src2);
    assert!(none.is_empty());
}

#[test]
fn relative_import_single_quotes_and_parent() {
    let src = "import a from 'b';\nimport c from '../c';";
    assert!(is_flagged_import(src, &ImportSite { src_lo: 33, src_hi: 39 }));
    assert!(!is_flagged_import(src, &ImportSite { src_lo: 14, src_hi: 17 }));
    let issues = NoRelativeImportsRule.check(&import_program(src, "'../c'"), "a.ts", src);
    assert_eq!((issues[0].line, issues[0].column), (2, 15));
}

#[test]
fn relative_import_span_outside_text_is_ignored() {
    let src = "import a from './a';";
    assert!(!is_flagged_import(src, &ImportSite { src_lo: 14, src_hi: 99 }));
    assert!(!is_flagged_import(src, &ImportSite { src_lo: 20, src_hi: 20 }));
    assert!(!is_flagged_import("\"\"", &ImportSite { src_lo: 0, src_hi: 2 }));
}

#[test]
fn interface_scenario() {
    let src = "interface Foo {}";
    let program = ProgramSummary {
        imports: Vec::new(),
        interfaces: vec![InterfaceSite { lo: 0, name: "Foo".to_string() }],
    };
    let issues = PreferTypeOverInterfaceRule.check(&program, "t.ts", src);
    assert_eq!(issues.len(), 1);
    assert!(issues[0].message.contains("Foo"));
    assert_eq!(issues[0].message, "Prefer 'type' over 'interface' for 'Foo'");
    assert_eq!((issues[0].line, issues[0].column), (1, 1));

    let none = PreferTypeOverInterfaceRule.check(&empty_program(), "t.ts", "type Foo = {}");
    assert!(none.is_empty());
}

#[test]
fn interface_nested_position() {
    let src = "namespace N {\n  interface Bar {}\n}";
    let program = ProgramSummary {
        imports: Vec::new(),
        interfaces: vec![InterfaceSite { lo: 16, name: "Bar".to_string() }],
    };
    let issues = AnyRule::PreferTypeOverInterface(PreferTypeOverInterfaceRule).check(&program, "t.ts", src);
    assert_eq!((issues[0].line, issues[0].column), (2, 3));
}

#[test]
fn registry_builtin_names() {
    let reg = RuleRegistry::with_builtin_rules();
    assert_eq!(reg.len(), 3);
    let rule = reg.find("no-console-log").unwrap();
    assert_eq!(rule.name(), "no-console-log");
    assert_eq!(reg.find("prefer-type-over-interface").unwrap().name(), "prefer-type-over-interface");
    assert!(reg.find("no-such-rule").is_none());
}

#[test]
fn registry_duplicate_name_is_error() {
    let mut reg = RuleRegistry::new();
    let first = RuleRegistration { name: "x".to_string(), rule: AnyRule::NoConsoleLog(NoConsoleLogRule) };
    let second = RuleRegistration { name: "x".to_string(), rule: AnyRule::NoRelativeImports(NoRelativeImportsRule) };
    assert!(reg.register(first).is_ok());
    match reg.register(second) {
        Err(RegistryError::DuplicateName(n)) => assert_eq!(n, "x"),
        other => panic!("expected a duplicate-name error, got {:?}", other),
    }
    assert_eq!(reg.len(), 1);
    assert_eq!(reg.find("x"), Some(AnyRule::NoConsoleLog(NoConsoleLogRule)));
}

#[test]
fn registry_resolve_unknown_name() {
    let reg = RuleRegistry::with_builtin_rules();
    let ok = reg.resolve(&vec!["no-relative-imports".to_string(), "no-console-log".to_string()]).unwrap();
    assert_eq!(ok, vec![AnyRule::NoRelativeImports(NoRelativeImportsRule), AnyRule::NoConsoleLog(NoConsoleLogRule)]);
    match reg.resolve(&vec!["no-console-log".to_string(), "bogus".to_string(), "other".to_string()]) {
        Err(RegistryError::UnknownRule(n)) => assert_eq!(n, "bogus"),
        other => panic!("expected an unknown-rule error, got {:?}", other),
    }
}

#[test]
fn registration_instantiates_its_rule() {
    let r = RuleRegistration { name: "n".to_string(), rule: AnyRule::NoConsoleLog(NoConsoleLogRule) };
    assert_eq!(r.instantiate(), AnyRule::NoConsoleLog(NoConsoleLogRule));
}

#[test]
fn cache_other_config_never_served() {
    let mut c1 = FileCache::with_config_hash(1, None);
    c1.insert("a.ts".to_string(), vec![sample_issue(1)], Some(100));
    let mut c2 = FileCache::with_config_hash(2, None);
    c2.load_snapshot(c1.snapshot());
    assert_eq!(c2.len(), 0);
    assert!(c2.get("a.ts", Some(100)).is_none());
}

#[test]
fn cache_changed_mtime_misses() {
    let mut c = FileCache::with_config_hash(7, None);
    c.insert("a.ts".to_string(), vec![sample_issue(1)], Some(100));
    assert!(c.get("a.ts", Some(100)).is_some());
    assert!(c.get("a.ts", Some(101)).is_none());
    assert!(c.get("a.ts", None).is_none());
    c.insert("a.ts".to_string(), vec![sample_issue(2)], Some(101));
    assert_eq!(c.get("a.ts", Some(101)).unwrap()[0].line, 2);
}

#[test]
fn cache_insert_twice_is_idempotent() {
    let mut c = FileCache::new(None);
    let issues = vec![sample_issue(1), sample_issue(4)];
    c.insert("a.ts".to_string(), issues.clone(), Some(5));
    assert!(same_issues(&c.get("a.ts", Some(5)).unwrap(), &issues));
    c.insert("a.ts".to_string(), issues.clone(), Some(5));
    assert!(same_issues(&c.get("a.ts", Some(5)).unwrap(), &issues));
    assert_eq!(c.len(), 1);
}

#[test]
fn cache_insert_without_mtime_is_skipped() {
    let mut c = FileCache::new(None);
    c.insert("gone.ts".to_string(), vec![sample_issue(1)], None);
    assert_eq!(c.len(), 0);
}

#[test]
fn cache_snapshot_round_trip() {
    let mut c = FileCache::with_config_hash(9, Some("/tmp/cache".to_string()));
    c.insert("a.ts".to_string(), vec![sample_issue(1)], Some(10));
    c.insert("b.ts".to_string(), Vec::new(), Some(20));
    let mut fresh = FileCache::with_config_hash(9, Some("/tmp/cache".to_string()));
    fresh.load_snapshot(c.snapshot());
    assert_eq!(fresh.len(), 2);
    for (path, mtime) in [("a.ts", 10), ("b.ts", 20)] {
        assert!(same_issues(&fresh.get(path, Some(mtime)).unwrap(), &c.get(path, Some(mtime)).unwrap()));
    }
    assert_eq!(fresh.cache_dir().as_deref(), Some("/tmp/cache"));
    assert_eq!(fresh.config_hash(), 9);
}

#[test]
fn cache_load_filters_and_last_wins() {
    let mut c = FileCache::with_config_hash(3, None);
    let snapshot = vec![
        ("a.ts".to_string(), CacheEntry { mtime: 1, config_hash: 3, issues: vec![sample_issue(1)] }),
        ("b.ts".to_string(), CacheEntry { mtime: 1, config_hash: 4, issues: Vec::new() }),
        ("a.ts".to_string(), CacheEntry { mtime: 2, config_hash: 3, issues: vec![sample_issue(2)] }),
    ];
    c.load_snapshot(snapshot);
    assert_eq!(c.len(), 1);
    assert!(c.get("a.ts", Some(1)).is_none());
    assert_eq!(c.get("a.ts", Some(2)).unwrap()[0].line, 2);
    assert!(c.get("b.ts", Some(1)).is_none());
}

#[test]
fn cache_invalidate_and_clear() {
    let mut c = FileCache::new(None);
    c.insert("a.ts".to_string(), Vec::new(), Some(1));
    c.insert("b.ts".to_string(), Vec::new(), Some(1));
    c.invalidate("a.ts");
    assert!(c.get("a.ts", Some(1)).is_none());
    assert!(c.get("b.ts", Some(1)).is_some());
    assert_eq!(c.len(), 1);
    c.clear();
    assert_eq!(c.len(), 0);
    assert!(c.snapshot().is_empty());
}

#[test]
fn run_rules_in_rule_order() {
    let src = "interface A {}\nconsole.log(1)";
    let program = ProgramSummary {
        imports: Vec::new(),
        interfaces: vec![InterfaceSite { lo: 0, name: "A".to_string() }],
    };
    let rules = vec![
        AnyRule::NoConsoleLog(NoConsoleLogRule),
        AnyRule::PreferTypeOverInterface(PreferTypeOverInterfaceRule),
    ];
    let issues = run_rules(&rules, &program, "x.ts", src);
    let tags: Vec<(&str, usize)> = issues.iter().map(|i| (i.rule.as_str(), i.line)).collect();
    assert_eq!(tags, vec![("no-console-log", 2), ("prefer-type-over-interface", 1)]);
}
