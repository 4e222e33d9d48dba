//! The scan engine: one compiled rule set run over one byte buffer.

use vstd::prelude::*;
use crate::views;

verus! {

/// One occurrence of a pattern in the scanned buffer.
#[derive(Debug)]
pub struct ScanMatch {
    /// Offset of the first matched byte within the buffer.
    pub start: usize,
    /// Offset just past the last matched byte.
    pub end: usize,
    /// The bytes that matched.
    pub data: Vec<u8>,
}

pub struct ScanMatchView {
    pub start: int,
    pub end: int,
    pub data: Seq<u8>,
}

impl View for ScanMatch {
    type V = ScanMatchView;

    open spec fn view(&self) -> ScanMatchView {
        ScanMatchView { start: self.start as int, end: self.end as int, data: self.data@ }
    }
}

impl ScanMatchView {
    /// The match lies in `buffer`: it starts inside it, does not end before it
    /// starts, and its bytes are those of the buffer from its start to its end, or
    /// to the end of the buffer where that comes first.
    pub open spec fn within(self, buffer: Seq<u8>) -> bool {
        &&& 0 <= self.start <= self.end
        &&& self.start <= buffer.len()
        &&& self.data == buffer.subrange(
            self.start,
            if self.end <= buffer.len() {
                self.end
            } else {
                buffer.len() as int
            },
        )
    }
}

/// A pattern of a matching rule, with the places where it was found.
#[derive(Debug)]
pub struct PatternMatches {
    /// The pattern's identifier, such as `$a`.
    pub identifier: String,
    /// The matches, in the order in which the engine reports them.
    pub matches: Vec<ScanMatch>,
}

pub struct PatternMatchesView {
    pub identifier: Seq<char>,
    pub matches: Seq<ScanMatchView>,
}

impl View for PatternMatches {
    type V = PatternMatchesView;

    open spec fn view(&self) -> PatternMatchesView {
        PatternMatchesView { identifier: self.identifier@, matches: views(self.matches@) }
    }
}

/// A rule that matched the buffer. One without patterns matched as a whole.
#[derive(Debug)]
pub struct MatchingRule {
    /// The rule's name.
    pub identifier: String,
    /// The rule's patterns, in the order in which the engine reports them.
    pub patterns: Vec<PatternMatches>,
}

pub struct MatchingRuleView {
    pub identifier: Seq<char>,
    pub patterns: Seq<PatternMatchesView>,
}

impl View for MatchingRule {
    type V = MatchingRuleView;

    open spec fn view(&self) -> MatchingRuleView {
        MatchingRuleView { identifier: self.identifier@, patterns: views(self.patterns@) }
    }
}

impl MatchingRuleView {
    /// Every match of the rule lies in `buffer`.
    pub open spec fn within(self, buffer: Seq<u8>) -> bool {
        forall|p: int, m: int|
            0 <= p < self.patterns.len() && 0 <= m < self.patterns[p].matches.len()
                ==> #[trigger] self.patterns[p].matches[m].within(buffer)
    }
}

/// Every match of every rule lies in `buffer`.
pub open spec fn all_within(found: Seq<MatchingRuleView>, buffer: Seq<u8>) -> bool {
    forall|r: int| 0 <= r < found.len() ==> #[trigger] found[r].within(buffer)
}

/// Why a scan did not complete.
#[derive(Debug)]
pub struct ScanFailure {
    /// The engine's own account of the failure.
    pub reason: String,
}

/// `yara_x::Rules`, a compiled rule set: carried through, never looked into.
#[verifier::external_type_specification]
#[verifier::external_body]
pub struct ExRules(yara_x::Rules);

/// `yara_x::ScanError`, the engine's error of a scan: carried to `scan_error_text`.
#[verifier::external_type_specification]
#[verifier::external_body]
pub struct ExEngineScanError(yara_x::ScanError);

/// Runs `yara_x::Scanner::scan` with a fresh scanner on `buffer` and copies out what
/// it reports: the matching rules that are not private, each with its public
/// patterns, each with its matches.
///
/// Nothing is claimed of which rules match. Of each match that is handed back, the
/// contract claims what `yara_x::Match::data` shows: the bytes are the slice of the
/// scanned buffer from the start of the match's range to its end, cut at the
/// buffer's end, which exists only if the start is neither behind that end nor
/// outside the buffer.
#[verifier::external_body]
fn engine_scan(rules: &yara_x::Rules, buffer: &[u8]) -> (outcome: Result<
    Vec<MatchingRule>,
    yara_x::ScanError,
>)
    ensures
        outcome matches Ok(found) ==> all_within(views(found@), buffer@),
{
    let mut scanner = yara_x::Scanner::new(rules);
    let results = scanner.scan(buffer)?;
    Ok(results.matching_rules().map(|rule| MatchingRule {
        identifier: rule.identifier().to_owned(),
        patterns: rule.patterns().map(|pattern| PatternMatches {
            identifier: pattern.identifier().to_owned(),
            matches: pattern.matches().map(|found| ScanMatch {
                start: found.range().start,
                end: found.range().end,
                data: found.data().to_vec(),
            }).collect(),
        }).collect(),
    }).collect())
}

/// The text of a `yara_x::ScanError`, as its `Display` gives it.
#[verifier::external_body]
fn scan_error_text(error: &yara_x::ScanError) -> (text: String) {
    error.to_string()
}

/// Scans `buffer` with `rules` in one pass. A failure of the engine comes back as
/// an error; every match that comes back lies in the buffer.
pub(crate) fn scan(rules: &yara_x::Rules, buffer: &[u8]) -> (outcome: Result<Vec<MatchingRule>, ScanFailure>)
    ensures
        outcome matches Ok(found) ==> all_within(views(found@), buffer@),
{
    match engine_scan(rules, buffer) {
        Ok(found) => Ok(found),
        Err(error) => Err(ScanFailure { reason: scan_error_text(&error) }),
    }
}

} // verus!
