use yara_x_binja::loader::{FormResponse, FORM_FIELD, FORM_TITLE, LOADER_COMMAND};
use yara_x_binja::settings::Settings;
use yara_x_binja::RuleLoader;

fn settings() -> Settings {
    Settings { rules: "rule old {condition: true}".to_string(), rule_directory: "./rules/".to_string() }
}

#[test]
fn loader_is_always_valid() {
    assert!(RuleLoader.valid(&settings()));
}

#[test]
fn cancelled_form_leaves_the_rules_unchanged() {
    let mut current = settings();
    let stored = RuleLoader.action(&mut current, &vec![]);
    assert!(!stored);
    assert_eq!(current.rules, "rule old {condition: true}");
    assert_eq!(current.rule_directory, "./rules/");
}

#[test]
fn entered_text_replaces_the_rules() {
    let mut current = settings();
    let responses = vec![FormResponse::Text { text: "rule new {condition: false}".to_string() }];
    let stored = RuleLoader.action(&mut current, &responses);
    assert!(stored);
    assert_eq!(current.rules, "rule new {condition: false}");
    assert_eq!(current.rule_directory, "./rules/");
}

#[test]
fn entered_empty_text_clears_the_rules() {
    let mut current = settings();
    let stored = RuleLoader.action(&mut current, &vec![FormResponse::Text { text: String::new() }]);
    assert!(stored);
    assert_eq!(current.rules, "");
}

#[test]
fn only_the_first_answer_counts() {
    let mut current = settings();
    let responses = vec![FormResponse::Other, FormResponse::Text { text: "late".to_string() }];
    assert!(!RuleLoader.action(&mut current, &responses));
    assert_eq!(current.rules, "rule old {condition: true}");
    let responses = vec![
        FormResponse::Text { text: "first".to_string() },
        FormResponse::Text { text: "second".to_string() },
    ];
    assert!(RuleLoader.action(&mut current, &responses));
    assert_eq!(current.rules, "first");
}

#[test]
fn form_texts() {
    assert_eq!(LOADER_COMMAND, "YARA-X\\Add YARA Rules");
    assert_eq!(FORM_TITLE, "Add YARA Rules");
    assert_eq!(FORM_FIELD, "YARA Rules");
}
