//! The configuration of the pipeline: the inline rule text and the rule directory.

use vstd::prelude::*;

verus! {

/// The group under which the settings are registered.
pub const SETTINGS_GROUP: &'static str = "yara-x-binja";

/// The key of the inline rule text.
pub const RULES_KEY: &'static str = "yara-x-binja.rules";

/// The key of the rule directory.
pub const RULE_DIRECTORY_KEY: &'static str = "yara-x-binja.rule_directory";

/// The two settings of one document.
#[derive(Debug)]
pub struct Settings {
    /// The inline rule text; empty where none was entered.
    pub rules: String,
    /// The directory whose files hold rules, as it was entered.
    pub rule_directory: String,
}

pub struct SettingsView {
    pub rules: Seq<char>,
    pub rule_directory: Seq<char>,
}

impl View for Settings {
    type V = SettingsView;

    open spec fn view(&self) -> SettingsView {
        SettingsView { rules: self.rules@, rule_directory: self.rule_directory@ }
    }
}

/// The rule directory of a document for which none was entered: `rules` under the
/// working directory, written with `separator`.
pub open spec fn default_directory(separator: char) -> Seq<char> {
    seq!['.', separator] + "rules"@ + seq![separator]
}

/// The rule directory that is used where none was entered.
pub fn default_rule_directory(separator: char) -> (directory: String)
    ensures
        directory@ == default_directory(separator),
{
    let mut directory = ".".to_owned();
    proof {
        reveal_strlit(".");
        assert("."@ =~= seq!['.']);
    }
    directory.push(separator);
    directory.append("rules");
    directory.push(separator);
    assert(directory@ =~= default_directory(separator));
    directory
}

impl Settings {
    /// The settings of a document for which nothing was entered: no inline rules,
    /// and the default rule directory.
    pub fn defaults(separator: char) -> (settings: Settings)
        ensures
            settings@ == (SettingsView {
                rules: Seq::empty(),
                rule_directory: default_directory(separator),
            }),
    {
        Settings { rules: String::new(), rule_directory: default_rule_directory(separator) }
    }
}

/// The type of both settings, as it is named where settings are registered.
pub const VALUE_TYPE: &'static str = "string";

/// The first scope in which neither setting is offered: that of a project.
pub const PROJECT_SCOPE: &'static str = "SettingsProjectScope";

/// The second such scope: that of a resource.
pub const RESOURCE_SCOPE: &'static str = "SettingsResourceScope";

/// How one setting is presented where settings are registered.
#[derive(Debug)]
pub struct SettingDescriptor {
    pub key: String,
    pub title: String,
    pub value_type: String,
    pub default: String,
    pub description: String,
    /// The scopes in which the setting is not offered.
    pub ignore: Vec<String>,
}

pub struct SettingDescriptorView {
    pub key: Seq<char>,
    pub title: Seq<char>,
    pub value_type: Seq<char>,
    pub default: Seq<char>,
    pub description: Seq<char>,
    pub ignore: Seq<Seq<char>>,
}

impl View for SettingDescriptor {
    type V = SettingDescriptorView;

    open spec fn view(&self) -> SettingDescriptorView {
        SettingDescriptorView {
            key: self.key@,
            title: self.title@,
            value_type: self.value_type@,
            default: self.default@,
            description: self.description@,
            ignore: self.ignore@.map_values(|scope: String| scope@),
        }
    }
}

/// The presentation of a setting of the pipeline: a string that is offered for a
/// document, not for a project or a resource.
pub open spec fn string_setting(
    key: Seq<char>,
    title: Seq<char>,
    default: Seq<char>,
    description: Seq<char>,
) -> SettingDescriptorView {
    SettingDescriptorView {
        key,
        title,
        value_type: VALUE_TYPE@,
        default,
        description,
        ignore: seq![PROJECT_SCOPE@, RESOURCE_SCOPE@],
    }
}

fn describe(key: &str, title: &str, default: String, description: &str) -> (descriptor:
    SettingDescriptor)
    ensures
        descriptor@ == string_setting(key@, title@, default@, description@),
{
    let mut ignore: Vec<String> = Vec::new();
    ignore.push(PROJECT_SCOPE.to_owned());
    ignore.push(RESOURCE_SCOPE.to_owned());
    let descriptor = SettingDescriptor {
        key: key.to_owned(),
        title: title.to_owned(),
        value_type: VALUE_TYPE.to_owned(),
        default,
        description: description.to_owned(),
        ignore,
    };
    assert(descriptor@.ignore =~= seq![PROJECT_SCOPE@, RESOURCE_SCOPE@]);
    descriptor
}

/// The presentation of the inline rule text: empty by default.
pub fn rules_setting() -> (descriptor: SettingDescriptor)
    ensures
        descriptor@ == string_setting(
            RULES_KEY@,
            "YARA Rules"@,
            Seq::empty(),
            "YARA Rules as strings to be used for scanning the current binary"@,
        ),
{
    describe(
        RULES_KEY,
        "YARA Rules",
        String::new(),
        "YARA Rules as strings to be used for scanning the current binary",
    )
}

/// The presentation of the rule directory, with the default directory written
/// with `separator`.
pub fn rule_directory_setting(separator: char) -> (descriptor: SettingDescriptor)
    ensures
        descriptor@ == string_setting(
            RULE_DIRECTORY_KEY@,
            "Directory for YARA Rules"@,
            default_directory(separator),
            "The directory where YARA rules can be found for scanning the current binary"@,
        ),
{
    describe(
        RULE_DIRECTORY_KEY,
        "Directory for YARA Rules",
        default_rule_directory(separator),
        "The directory where YARA rules can be found for scanning the current binary",
    )
}

} // verus!
