use yara_x_binja::settings::{
    default_rule_directory, rule_directory_setting, rules_setting, Settings, RULES_KEY,
    RULE_DIRECTORY_KEY, SETTINGS_GROUP,
};

#[test]
fn default_directory_uses_the_separator() {
    assert_eq!(default_rule_directory('/'), "./rules/");
    assert_eq!(default_rule_directory('\\'), ".\\rules\\");
}

#[test]
fn default_settings() {
    let settings = Settings::defaults('/');
    assert_eq!(settings.rules, "");
    assert_eq!(settings.rule_directory, "./rules/");
}

#[test]
fn keys() {
    assert_eq!(SETTINGS_GROUP, "yara-x-binja");
    assert_eq!(RULES_KEY, "yara-x-binja.rules");
    assert_eq!(RULE_DIRECTORY_KEY, "yara-x-binja.rule_directory");
}

#[test]
fn rules_setting_is_empty_by_default() {
    let descriptor = rules_setting();
    assert_eq!(descriptor.key, "yara-x-binja.rules");
    assert_eq!(descriptor.title, "YARA Rules");
    assert_eq!(descriptor.default, "");
    assert_eq!(descriptor.value_type, "string");
    assert_eq!(descriptor.ignore, vec!["SettingsProjectScope", "SettingsResourceScope"]);
    assert_eq!(descriptor.description, "YARA Rules as strings to be used for scanning the current binary");
}

#[test]
fn rule_directory_setting_has_the_default_directory() {
    let descriptor = rule_directory_setting('/');
    assert_eq!(descriptor.key, "yara-x-binja.rule_directory");
    assert_eq!(descriptor.title, "Directory for YARA Rules");
    assert_eq!(descriptor.default, "./rules/");
    assert_eq!(descriptor.value_type, "string");
    assert_eq!(descriptor.ignore, vec!["SettingsProjectScope", "SettingsResourceScope"]);
    assert_eq!(
        descriptor.description,
        "The directory where YARA rules can be found for scanning the current binary"
    );
}
