use yara_x_binja::compiler::{compile, record, RuleCompiler};
use yara_x_binja::diagnostics::DiagnosticKind;
use yara_x_binja::sources::RuleSource;

fn source(origin: &str, text: &str) -> RuleSource {
    RuleSource { origin: origin.to_string(), text: text.to_string() }
}

#[test]
fn no_sources_give_an_empty_set_without_matches() {
    let set = compile(&vec![]);
    assert_eq!(set.attempted(), 0);
    assert!(set.origins(true).is_empty());
    assert!(set.origins(false).is_empty());
    assert!(set.diagnostics().is_empty());
    assert!(set.scan(b"anything at all").unwrap().is_empty());
}

#[test]
fn valid_sources_are_all_accepted() {
    let set = compile(&vec![
        source("inline", "rule a { condition: true }"),
        source("/r/b.yar", "rule b { strings: $x = \"needle\" condition: $x }"),
    ]);
    assert_eq!(set.attempted(), 2);
    assert_eq!(set.origins(true), vec!["inline", "/r/b.yar"]);
    assert!(set.origins(false).is_empty());
    assert!(set.diagnostics().is_empty());
}

#[test]
fn bad_source_does_not_block_the_others() {
    let set = compile(&vec![
        source("/r/good1.yar", "rule good1 { condition: true }"),
        source("/r/bad.yar", "rule bad { condition: "),
        source("/r/good2.yar", "rule good2 { strings: $x = \"needle\" condition: $x }"),
    ]);
    assert_eq!(set.attempted(), 3);
    assert_eq!(set.origins(true), vec!["/r/good1.yar", "/r/good2.yar"]);
    assert_eq!(set.origins(false), vec!["/r/bad.yar"]);
    let reports = set.diagnostics();
    assert_eq!(reports.len(), 1);
    assert_eq!(reports[0].kind, DiagnosticKind::CompileFailed);
    assert_eq!(reports[0].subject, "/r/bad.yar");
    assert!(reports[0].is_error());
    let found = set.scan(b"hay needle hay").unwrap();
    let mut names: Vec<&str> = found.iter().map(|r| r.identifier.as_str()).collect();
    names.sort();
    assert_eq!(names, vec!["good1", "good2"]);
}

#[test]
fn all_sources_bad_give_a_set_without_matches() {
    let set = compile(&vec![source("a", "not a rule"), source("b", "rule { }")]);
    assert_eq!(set.attempted(), 2);
    assert!(set.origins(true).is_empty());
    assert_eq!(set.origins(false), vec!["a", "b"]);
    assert_eq!(set.diagnostics().len(), 2);
    assert!(set.scan(b"not a rule").unwrap().is_empty());
}

#[test]
fn duplicate_rule_name_is_refused_and_the_first_kept() {
    let set = compile(&vec![
        source("first", "rule same { strings: $x = \"one\" condition: $x }"),
        source("second", "rule same { strings: $x = \"two\" condition: $x }"),
    ]);
    assert_eq!(set.origins(true), vec!["first"]);
    assert_eq!(set.origins(false), vec!["second"]);
    assert_eq!(set.scan(b"one").unwrap().len(), 1);
    assert!(set.scan(b"two").unwrap().is_empty());
}

#[test]
fn compiler_records_each_attempt() {
    let mut compiler = RuleCompiler::new();
    assert!(compiler.add(&source("ok", "rule ok { condition: true }")));
    assert!(!compiler.add(&source("broken", "rule broken {")));
    assert!(compiler.add(&source("later", "rule later { condition: false }")));
    let set = compiler.build();
    assert_eq!(set.attempted(), 3);
    assert_eq!(set.origins(true), vec!["ok", "later"]);
    assert_eq!(set.origins(false), vec!["broken"]);
}

#[test]
fn empty_text_is_accepted() {
    let set = compile(&vec![source("inline", "")]);
    assert_eq!(set.origins(true), vec!["inline"]);
    assert!(set.scan(b"data").unwrap().is_empty());
}

#[test]
fn set_without_accepted_source_has_no_rules() {
    assert!(!compile(&vec![]).has_rules());
    assert!(!compile(&vec![source("a", "rule a {")]).has_rules());
    assert!(compile(&vec![source("a", "rule a {"), source("b", "rule b { condition: true }")]).has_rules());
    assert!(compile(&vec![source("b", "rule b { condition: true }"), source("a", "rule a {")]).has_rules());
}

#[test]
fn refused_source_alone_leaves_nothing_to_match() {
    let set = compile(&vec![source("/r/half.yar", "rule keep { condition: true } rule broken {")]);
    assert_eq!(set.origins(false), vec!["/r/half.yar"]);
    assert!(set.origins(true).is_empty());
    assert!(set.scan(b"any contents").unwrap().is_empty());
    assert!(set.scan(b"").unwrap().is_empty());
}

#[test]
fn refused_source_adds_nothing_beside_an_accepted_one() {
    let set = compile(&vec![
        source("/r/half.yar", "rule keep { condition: true } rule broken {"),
        source("/r/good.yar", "rule good { condition: true }"),
    ]);
    assert_eq!(set.origins(false), vec!["/r/half.yar"]);
    assert_eq!(set.origins(true), vec!["/r/good.yar"]);
    let found = set.scan(b"any contents").unwrap();
    let names: Vec<&str> = found.iter().map(|r| r.identifier.as_str()).collect();
    assert_eq!(names, vec!["good"]);
}

#[test]
fn refused_source_between_accepted_ones_adds_nothing() {
    let set = compile(&vec![
        source("first", "rule first { strings: $a = \"one\" condition: $a }"),
        source("half", "rule keep { condition: true } rule broken {"),
        source("last", "rule last { strings: $a = \"two\" condition: $a }"),
    ]);
    assert_eq!(set.origins(true), vec!["first", "last"]);
    assert_eq!(set.origins(false), vec!["half"]);
    let found = set.scan(b"one two").unwrap();
    let mut names: Vec<&str> = found.iter().map(|r| r.identifier.as_str()).collect();
    names.sort();
    assert_eq!(names, vec!["first", "last"]);
}

#[test]
fn name_of_a_refused_source_is_free_again() {
    let set = compile(&vec![
        source("half", "rule keep { strings: $a = \"old\" condition: $a } rule broken {"),
        source("whole", "rule keep { strings: $a = \"new\" condition: $a }"),
    ]);
    assert_eq!(set.origins(true), vec!["whole"]);
    assert!(set.scan(b"old").unwrap().is_empty());
    assert_eq!(set.scan(b"new").unwrap().len(), 1);
}

#[test]
fn source_with_an_include_is_refused() {
    let set = compile(&vec![
        source("inline", "include \"/etc/hostname\"\nrule after { condition: true }"),
        source("plain", "rule plain { condition: true }"),
    ]);
    assert_eq!(set.origins(false), vec!["inline"]);
    assert_eq!(set.origins(true), vec!["plain"]);
    let found = set.scan(b"x").unwrap();
    let names: Vec<&str> = found.iter().map(|r| r.identifier.as_str()).collect();
    assert_eq!(names, vec!["plain"]);
}

#[test]
fn record_appends_the_attempt() {
    let mut attempts = Vec::new();
    record(&mut attempts, "a", true);
    record(&mut attempts, "b", false);
    assert_eq!(attempts.len(), 2);
    assert_eq!(attempts[0].origin, "a");
    assert!(attempts[0].accepted);
    assert_eq!(attempts[1].origin, "b");
    assert!(!attempts[1].accepted);
}
