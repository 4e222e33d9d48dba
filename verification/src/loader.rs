//! The command that edits the inline rule text.

use vstd::prelude::*;
use crate::settings::{Settings, SettingsView};
use crate::views;

verus! {

/// The name under which the command is registered.
pub const LOADER_COMMAND: &'static str = "YARA-X\\Add YARA Rules";

/// What the command is said to do.
pub const LOADER_DESCRIPTION: &'static str = "Load YARA rules as a string into the YARA-X engine.";

/// The title of the form in which the rule text is edited.
pub const FORM_TITLE: &'static str = "Add YARA Rules";

/// The prompt of the form's one field, which starts with the current rule text.
pub const FORM_FIELD: &'static str = "YARA Rules";

/// The answer to one field of a form.
#[derive(Debug)]
pub enum FormResponse {
    /// The field held text.
    Text { text: String },
    /// The field held anything else.
    Other,
}

pub enum FormResponseView {
    Text { text: Seq<char> },
    Other,
}

impl View for FormResponse {
    type V = FormResponseView;

    open spec fn view(&self) -> FormResponseView {
        match self {
            FormResponse::Text { text } => FormResponseView::Text { text: text@ },
            FormResponse::Other => FormResponseView::Other,
        }
    }
}

/// The rule text that a form brought: the answer to its first field, where there
/// is one and it is text. A form that was cancelled has no answers.
pub open spec fn edited_text(responses: Seq<FormResponseView>) -> Option<Seq<char>> {
    if responses.len() > 0 {
        match responses[0] {
            FormResponseView::Text { text } => Some(text),
            FormResponseView::Other => None,
        }
    } else {
        None
    }
}

/// The settings after the form: with the rule text that it brought, untouched
/// where it brought none.
pub open spec fn edited_settings(
    settings: SettingsView,
    responses: Seq<FormResponseView>,
) -> SettingsView {
    match edited_text(responses) {
        Some(text) => SettingsView { rules: text, ..settings },
        None => settings,
    }
}

/// The command that edits the inline rule text.
pub struct RuleLoader;

impl RuleLoader {
    /// The command is offered whatever the settings hold.
    pub fn valid(&self, settings: &Settings) -> (ok: bool)
        ensures
            ok,
    {
        true
    }

    /// Takes the answers of the form into the settings: the inline rule text becomes
    /// the text that was entered, also where that is empty; nothing changes where the
    /// form was cancelled. Says whether the rule text is to be stored.
    pub fn action(&self, settings: &mut Settings, responses: &Vec<FormResponse>) -> (stored: bool)
        ensures
            final(settings)@ == edited_settings(old(settings)@, views(responses@)),
            stored == edited_text(views(responses@)) is Some,
    {
        if responses.len() > 0 {
            assert(views(responses@)[0] == responses[0]@);
            if let FormResponse::Text { text } = &responses[0] {
                settings.rules = text.clone();
                return true;
            }
        }
        false
    }
}

} // verus!
