//! Gathering rule text: the inline rules of the configuration, then the files of
//! the rule directory as they were read.

use vstd::prelude::*;
use crate::diagnostics::{Diagnostic, DiagnosticKind, DiagnosticView};
use crate::views;

verus! {

/// A unit of rule text with the place that it came from.
#[derive(Debug)]
pub struct RuleSource {
    /// `inline` for the configured rule text, else the path of the file.
    pub origin: String,
    pub text: String,
}

pub struct RuleSourceView {
    pub origin: Seq<char>,
    pub text: Seq<char>,
}

impl View for RuleSource {
    type V = RuleSourceView;

    open spec fn view(&self) -> RuleSourceView {
        RuleSourceView { origin: self.origin@, text: self.text@ }
    }
}

/// What became of reading one entry of the rule directory.
#[derive(Debug)]
pub enum EntryRead {
    /// The entry was read as UTF-8 text.
    Text { path: String, text: String },
    /// The entry could not be read, or does not hold UTF-8 text.
    Unreadable { path: String },
}

pub enum EntryReadView {
    Text { path: Seq<char>, text: Seq<char> },
    Unreadable { path: Seq<char> },
}

impl View for EntryRead {
    type V = EntryReadView;

    open spec fn view(&self) -> EntryReadView {
        match self {
            EntryRead::Text { path, text } => EntryReadView::Text { path: path@, text: text@ },
            EntryRead::Unreadable { path } => EntryReadView::Unreadable { path: path@ },
        }
    }
}

/// What became of reading the rule directory.
#[derive(Debug)]
pub enum DirectoryListing {
    /// The path has no canonical form: it does not exist or cannot be reached.
    Unresolved,
    /// The canonical path, `resolved`, is no directory.
    NotADirectory { resolved: String },
    /// The directory cannot be listed.
    Unlistable,
    /// The immediate entries of the directory, in the order in which they came.
    Entries { entries: Vec<EntryRead> },
}

pub enum DirectoryListingView {
    Unresolved,
    NotADirectory { resolved: Seq<char> },
    Unlistable,
    Entries { entries: Seq<EntryReadView> },
}

impl View for DirectoryListing {
    type V = DirectoryListingView;

    open spec fn view(&self) -> DirectoryListingView {
        match self {
            DirectoryListing::Unresolved => DirectoryListingView::Unresolved,
            DirectoryListing::NotADirectory { resolved } => DirectoryListingView::NotADirectory {
                resolved: resolved@,
            },
            DirectoryListing::Unlistable => DirectoryListingView::Unlistable,
            DirectoryListing::Entries { entries } => DirectoryListingView::Entries {
                entries: views(entries@),
            },
        }
    }
}

/// The origin of the configured rule text.
pub open spec fn inline_origin() -> Seq<char> {
    "inline"@
}

/// The source that the configured rule text gives: one where there is text and it
/// is not empty, none otherwise.
pub open spec fn inline_sources(inline_text: Option<Seq<char>>) -> Seq<RuleSourceView> {
    match inline_text {
        Some(text) if text.len() > 0 => seq![RuleSourceView { origin: inline_origin(), text }],
        _ => Seq::empty(),
    }
}

/// The sources that the entries give: one for each entry that was read, in order.
pub open spec fn entry_sources(entries: Seq<EntryReadView>) -> Seq<RuleSourceView>
    decreases entries.len(),
{
    if entries.len() == 0 {
        Seq::empty()
    } else {
        let front = entry_sources(entries.drop_last());
        match entries.last() {
            EntryReadView::Text { path, text } => front.push(RuleSourceView { origin: path, text }),
            EntryReadView::Unreadable { .. } => front,
        }
    }
}

/// The reports that the entries give: one for each entry that was not read, in order.
pub open spec fn entry_diagnostics(entries: Seq<EntryReadView>) -> Seq<DiagnosticView>
    decreases entries.len(),
{
    if entries.len() == 0 {
        Seq::empty()
    } else {
        let front = entry_diagnostics(entries.drop_last());
        match entries.last() {
            EntryReadView::Text { .. } => front,
            EntryReadView::Unreadable { path } => front.push(
                DiagnosticView { kind: DiagnosticKind::EntryUnreadable, subject: path },
            ),
        }
    }
}

/// The sources that a directory gives: those of its entries where it was listed,
/// none otherwise.
pub open spec fn directory_sources(listing: DirectoryListingView) -> Seq<RuleSourceView> {
    match listing {
        DirectoryListingView::Entries { entries } => entry_sources(entries),
        _ => Seq::empty(),
    }
}

/// All sources, the inline one first.
pub open spec fn collected_sources(
    inline_text: Option<Seq<char>>,
    listing: DirectoryListingView,
) -> Seq<RuleSourceView> {
    inline_sources(inline_text) + directory_sources(listing)
}

/// The reports of a collection from `directory`: one report where the directory
/// gave nothing at all, else one for each entry that was not read.
pub open spec fn collection_diagnostics(
    directory: Seq<char>,
    listing: DirectoryListingView,
) -> Seq<DiagnosticView> {
    match listing {
        DirectoryListingView::Unresolved => seq![
            DiagnosticView { kind: DiagnosticKind::PathUnresolved, subject: directory },
        ],
        DirectoryListingView::NotADirectory { resolved } => seq![
            DiagnosticView { kind: DiagnosticKind::NotADirectory, subject: resolved },
        ],
        DirectoryListingView::Unlistable => seq![
            DiagnosticView { kind: DiagnosticKind::DirectoryUnreadable, subject: directory },
        ],
        DirectoryListingView::Entries { entries } => entry_diagnostics(entries),
    }
}

/// The view of an optional text.
pub open spec fn text_view(text: Option<&str>) -> Option<Seq<char>> {
    match text {
        Some(t) => Some(t@),
        None => None,
    }
}

/// The rule sources of one scan, with the reports of what was left out.
#[derive(Debug)]
pub struct Collected {
    pub sources: Vec<RuleSource>,
    pub diagnostics: Vec<Diagnostic>,
}

/// Gathers the rule sources: the inline text, if there is any, then what was read
/// in the rule directory `directory`. What could not be read is reported and left
/// out; the rest is kept.
pub fn collect(inline_text: Option<&str>, directory: &str, listing: &DirectoryListing) -> (collected:
    Collected)
    ensures
        views(collected.sources@) == collected_sources(text_view(inline_text), listing@),
        views(collected.diagnostics@) == collection_diagnostics(directory@, listing@),
{
    let mut sources: Vec<RuleSource> = Vec::new();
    let mut diagnostics: Vec<Diagnostic> = Vec::new();
    if let Some(text) = inline_text {
        if !text.is_empty() {
            sources.push(RuleSource { origin: "inline".to_owned(), text: text.to_owned() });
        }
    }
    let ghost inline = views(sources@);
    assert(inline == inline_sources(text_view(inline_text)));
    match listing {
        DirectoryListing::Unresolved => {
            diagnostics.push(Diagnostic::new(DiagnosticKind::PathUnresolved, directory));
        },
        DirectoryListing::NotADirectory { resolved } => {
            diagnostics.push(Diagnostic::new(DiagnosticKind::NotADirectory, resolved.as_str()));
        },
        DirectoryListing::Unlistable => {
            diagnostics.push(Diagnostic::new(DiagnosticKind::DirectoryUnreadable, directory));
        },
        DirectoryListing::Entries { entries } => {
            let ghost all = views(entries@);
            let mut i: usize = 0;
            while i < entries.len()
                invariant
                    i <= entries.len(),
                    all == views(entries@),
                    views(sources@) == inline + entry_sources(all.take(i as int)),
                    views(diagnostics@) == entry_diagnostics(all.take(i as int)),
                decreases entries.len() - i,
            {
                proof {
                    assert(all.take(i + 1).drop_last() == all.take(i as int));
                    assert(all.take(i + 1).last() == entries[i as int]@);
                }
                match &entries[i] {
                    EntryRead::Text { path, text } => {
                        let source = RuleSource { origin: path.clone(), text: text.clone() };
                        assert(views(sources@.push(source)) == views(sources@).push(source@));
                        sources.push(source);
                    },
                    EntryRead::Unreadable { path } => {
                        let diagnostic = Diagnostic::new(
                            DiagnosticKind::EntryUnreadable,
                            path.as_str(),
                        );
                        assert(views(diagnostics@.push(diagnostic)) == views(diagnostics@).push(
                            diagnostic@,
                        ));
                        diagnostics.push(diagnostic);
                    },
                }
                i += 1;
            }
            proof {
                assert(all.take(entries.len() as int) == all);
            }
        },
    }
    Collected { sources, diagnostics }
}

} // verus!
