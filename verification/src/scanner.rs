//! The command that scans a document: collect the rule sources, compile them, scan
//! the contents, and tag what matched.

use vstd::prelude::*;
use crate::compiler::{attempts_after, compile, failure_reports, origins_of};
use crate::diagnostics::{Diagnostic, DiagnosticKind, DiagnosticView};
use crate::document::{
    at_most_one_named, category_named, has_category, lemma_category_idempotent, with_category,
    Document, DocumentView,
};
use crate::engine::{all_within, MatchingRule, MatchingRuleView, ScanFailure};
use crate::projector::{
    offsets_fit, project, projection, rule_offsets_fit, AnnotationRequest, AnnotationRequestView,
};
use crate::settings::{Settings, SettingsView};
use crate::sources::{
    collect, collected_sources, collection_diagnostics, DirectoryListing, DirectoryListingView,
};
use crate::views;

verus! {

/// The name under which the command is registered.
pub const SCAN_COMMAND: &'static str = "YARA-X\\Scan";

/// What the command is said to do.
pub const SCAN_DESCRIPTION: &'static str = "Tag YARA rule hits in bndb via the YARA-X engine.";

/// The name of the category of all tags that a scan adds.
pub const CATEGORY_NAME: &'static str = "YARA-X Matches";

/// The glyph of that category.
pub const CATEGORY_GLYPH: &'static str = "🟪";

/// How a scan ended: with the rules that matched, or with the engine's reason for
/// its failure.
pub type Outcome = Result<Seq<MatchingRuleView>, Seq<char>>;

/// The view of the outcome of a scan.
pub open spec fn outcome_view(outcome: Result<Vec<MatchingRule>, ScanFailure>) -> Outcome {
    match outcome {
        Ok(found) => Ok(views(found@)),
        Err(failure) => Err(failure.reason@),
    }
}

/// The document after a scan that ended with `outcome`. A failed scan leaves it as
/// it was. Otherwise it has the category of the matches, created only where it was
/// missing, and after its tags one for each annotation of the matches, counted
/// from the start of its contents.
pub open spec fn concluded(document: DocumentView, outcome: Outcome) -> DocumentView {
    match outcome {
        Err(_) => document,
        Ok(found) => {
            let categories = with_category(document.categories, CATEGORY_NAME@, CATEGORY_GLYPH@);
            DocumentView {
                categories,
                tags: document.tags + projection(
                    found,
                    document.start,
                    category_named(categories, CATEGORY_NAME@),
                ),
                ..document
            }
        },
    }
}

/// What a scan did and found.
#[derive(Debug)]
pub struct ScanReport {
    /// The rules that matched.
    pub matches: Vec<MatchingRule>,
    /// The annotations that the document was asked for, in order.
    pub requests: Vec<AnnotationRequest>,
    /// Whether the category of the matches was created by this scan.
    pub created_category: bool,
    /// What was given up on the way.
    pub diagnostics: Vec<Diagnostic>,
}

pub struct ScanReportView {
    pub matches: Seq<MatchingRuleView>,
    pub requests: Seq<AnnotationRequestView>,
    pub created_category: bool,
    pub diagnostics: Seq<DiagnosticView>,
}

impl View for ScanReport {
    type V = ScanReportView;

    open spec fn view(&self) -> ScanReportView {
        ScanReportView {
            matches: views(self.matches@),
            requests: views(self.requests@),
            created_category: self.created_category,
            diagnostics: views(self.diagnostics@),
        }
    }
}

/// The report of the last step of a scan on `document`, which ended with `outcome`.
pub open spec fn conclusion(document: DocumentView, outcome: Outcome) -> ScanReportView {
    match outcome {
        Err(reason) => ScanReportView {
            matches: Seq::empty(),
            requests: Seq::empty(),
            created_category: false,
            diagnostics: seq![DiagnosticView { kind: DiagnosticKind::ScanFailed, subject: reason }],
        },
        Ok(found) => ScanReportView {
            matches: found,
            requests: projection(
                found,
                document.start,
                category_named(
                    with_category(document.categories, CATEGORY_NAME@, CATEGORY_GLYPH@),
                    CATEGORY_NAME@,
                ),
            ),
            created_category: !has_category(document.categories, CATEGORY_NAME@),
            diagnostics: Seq::empty(),
        },
    }
}

/// Matches that lie in the contents of a well-formed document start at addresses
/// of 64 bits.
pub proof fn lemma_matches_within_fit(found: Seq<MatchingRuleView>, document: DocumentView)
    requires
        document.wf(),
        all_within(found, document.bytes),
    ensures
        offsets_fit(found, document.start),
{
    assert forall|r: int| 0 <= r < found.len() implies rule_offsets_fit(
        #[trigger] found[r],
        document.start,
    ) by {
        assert(found[r].within(document.bytes));
        assert forall|p: int, m: int|
            0 <= p < found[r].patterns.len() && 0 <= m < found[r].patterns[p].matches.len()
                implies document.start + (#[trigger] found[r].patterns[p].matches[m]).start
            <= u64::MAX by {
            assert(found[r].patterns[p].matches[m].within(document.bytes));
        }
    }
}

/// Scans of one document never leave it with two categories of the matches: after
/// two scans, whatever they found and however they ended, at most one category has
/// the name, and at most one category is new.
pub proof fn lemma_scan_twice_one_category(document: DocumentView, first: Outcome, second: Outcome)
    requires
        document.wf(),
    ensures
        concluded(document, first).wf(),
        concluded(concluded(document, first), second).wf(),
        at_most_one_named(
            concluded(concluded(document, first), second).categories,
            CATEGORY_NAME@,
        ),
        concluded(concluded(document, first), second).categories.len()
            <= document.categories.len() + 1,
        first is Ok ==> concluded(concluded(document, first), second).categories == concluded(
            document,
            first,
        ).categories,
{
    let once = concluded(document, first);
    lemma_category_idempotent(document.categories, CATEGORY_NAME@, CATEGORY_GLYPH@);
    lemma_category_idempotent(once.categories, CATEGORY_NAME@, CATEGORY_GLYPH@);
    let twice = concluded(once, second);
    assert forall|i: int, j: int|
        0 <= i < twice.categories.len() && 0 <= j < twice.categories.len()
            && #[trigger] twice.categories[i].name == CATEGORY_NAME@
            && #[trigger] twice.categories[j].name == CATEGORY_NAME@ implies i == j by {
        assert(twice.categories[i].name == twice.categories[j].name);
    }
}

/// The outcome of a scan that found nothing.
pub open spec fn no_matches() -> Outcome {
    Ok(Seq::empty())
}

/// What a scan of the document `before` leaves, where the engine ended with
/// `outcome`: the sources are those of the settings' rule text and of the listing,
/// each tried in turn; where none of them was accepted the scan found nothing and
/// did not fail; the matches lie in the contents; the document is brought to
/// `after` as `concluded` says; and the report is that of `conclusion`, with the
/// reports of the collection and of the compilation before those of the scan.
pub open spec fn scanned(
    before: DocumentView,
    settings: SettingsView,
    directory: Seq<char>,
    listing: DirectoryListingView,
    outcome: Outcome,
    after: DocumentView,
    report: ScanReportView,
) -> bool {
    let attempts = attempts_after(collected_sources(Some(settings.rules), listing));
    &&& origins_of(attempts, true).len() == 0 ==> outcome == no_matches()
    &&& outcome matches Ok(found) ==> all_within(found, before.bytes)
    &&& after == concluded(before, outcome)
    &&& report == (ScanReportView {
        diagnostics: collection_diagnostics(directory, listing) + failure_reports(attempts)
            + conclusion(before, outcome).diagnostics,
        ..conclusion(before, outcome)
    })
}

/// The command that scans a document and tags what matched.
pub struct Scanner;

impl Scanner {
    /// The command is offered on every document.
    pub fn valid(&self, document: &Document) -> (ok: bool)
        ensures
            ok,
    {
        true
    }

    /// The last step of a scan: brings its outcome into the document. After a
    /// failure the document is as it was and the failure is reported. Otherwise the
    /// category of the matches is looked up, and created only where it is missing,
    /// and every annotation of the matches becomes a tag.
    pub fn conclude(
        &self,
        document: &mut Document,
        outcome: Result<Vec<MatchingRule>, ScanFailure>,
    ) -> (report: ScanReport)
        requires
            old(document).wf(),
            outcome matches Ok(found) ==> offsets_fit(views(found@), old(document).start as int),
        ensures
            final(document).wf(),
            final(document)@ == concluded(old(document)@, outcome_view(outcome)),
            report@ == conclusion(old(document)@, outcome_view(outcome)),
    {
        match outcome {
            Err(failure) => {
                let mut diagnostics: Vec<Diagnostic> = Vec::new();
                diagnostics.push(Diagnostic::new(DiagnosticKind::ScanFailed, failure.reason.as_str()));
                let report = ScanReport {
                    matches: Vec::new(),
                    requests: Vec::new(),
                    created_category: false,
                    diagnostics,
                };
                assert(report@.matches =~= Seq::empty());
                assert(report@.requests =~= Seq::empty());
                assert(report@.diagnostics =~= seq![
                    DiagnosticView { kind: DiagnosticKind::ScanFailed, subject: failure.reason@ },
                ]);
                report
            },
            Ok(found) => {
                let ghost before = document@;
                let (category, created) = document.category(CATEGORY_NAME, CATEGORY_GLYPH);
                let requests = project(&found, document.start, &category);
                let ghost all = views(requests@);
                let mut i: usize = 0;
                while i < requests.len()
                    invariant
                        i <= requests.len(),
                        all == views(requests@),
                        document.wf(),
                        document@ == (DocumentView {
                            categories: with_category(
                                before.categories,
                                CATEGORY_NAME@,
                                CATEGORY_GLYPH@,
                            ),
                            tags: before.tags + all.take(i as int),
                            ..before
                        }),
                    decreases requests.len() - i,
                {
                    let request = requests[i].duplicate();
                    proof {
                        assert(all.take(i + 1) == all.take(i as int).push(request@));
                        assert((before.tags + all.take(i as int)).push(request@) == before.tags
                            + all.take(i + 1));
                    }
                    document.add_tag(request);
                    i += 1;
                }
                proof {
                    assert(all.take(requests.len() as int) == all);
                }
                let report = ScanReport {
                    matches: found,
                    requests,
                    created_category: created,
                    diagnostics: Vec::new(),
                };
                assert(report@.diagnostics =~= Seq::empty());
                report
            },
        }
    }

    /// Scans the document with the rules of `settings` and of the rule directory
    /// `directory`, which was read as `listing` says, and tags what matched.
    ///
    /// Every rule source is tried, and no source that cannot be read or compiled
    /// ends the scan. Where no source is accepted, and so where there is none, the
    /// scan finds nothing and does not fail. What the engine finds is its own to
    /// say: whatever it says, the document and the report are those of `concluded`
    /// and `conclusion` for an outcome whose matches lie in the contents, with the
    /// reports of the collection and of the compilation before those of the scan.
    pub fn action(
        &self,
        document: &mut Document,
        settings: &Settings,
        directory: &str,
        listing: &DirectoryListing,
    ) -> (report: ScanReport)
        requires
            old(document).wf(),
        ensures
            final(document).wf(),
            exists|outcome: Outcome| #[trigger]
                scanned(
                    old(document)@,
                    settings@,
                    directory@,
                    listing@,
                    outcome,
                    final(document)@,
                    report@,
                ),
    {
        let collected = collect(Some(settings.rules.as_str()), directory, listing);
        let set = compile(&collected.sources);
        let outcome = set.scan(document.bytes.as_slice());
        let ghost seen = outcome_view(outcome);
        proof {
            if origins_of(set.attempts(), true).len() == 0 {
                assert(seen->Ok_0 =~= Seq::empty());
            }
            if let Ok(found) = seen {
                lemma_matches_within_fit(found, document@);
            }
        }
        let mut diagnostics = collected.diagnostics;
        let mut failures = set.diagnostics();
        diagnostics.append(&mut failures);
        let mut report = self.conclude(document, outcome);
        diagnostics.append(&mut report.diagnostics);
        report.diagnostics = diagnostics;
        proof {
            let attempts = attempts_after(collected_sources(Some(settings.rules@), listing@));
            assert(report@.diagnostics =~= collection_diagnostics(directory@, listing@)
                + failure_reports(attempts) + conclusion(old(document)@, seen).diagnostics);
            assert(scanned(
                old(document)@,
                settings@,
                directory@,
                listing@,
                seen,
                document@,
                report@,
            ));
        }
        report
    }
}

} // verus!
