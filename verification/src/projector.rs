//! From the matches of a scan to the annotations that a document is asked for.

use vstd::prelude::*;
use crate::views;
use crate::engine::{MatchingRule, MatchingRuleView, PatternMatchesView, ScanMatch, ScanMatchView};

verus! {

/// A named class of annotations, shown with a glyph.
#[derive(Debug)]
pub struct TagCategory {
    pub name: String,
    pub glyph: String,
}

pub struct TagCategoryView {
    pub name: Seq<char>,
    pub glyph: Seq<char>,
}

impl View for TagCategory {
    type V = TagCategoryView;

    open spec fn view(&self) -> TagCategoryView {
        TagCategoryView { name: self.name@, glyph: self.glyph@ }
    }
}

impl TagCategory {
    /// A category with the given name and glyph.
    pub fn new(name: &str, glyph: &str) -> (category: TagCategory)
        ensures
            category@ == (TagCategoryView { name: name@, glyph: glyph@ }),
    {
        TagCategory { name: name.to_owned(), glyph: glyph.to_owned() }
    }

    /// A second value for the same category.
    pub fn duplicate(&self) -> (copy: TagCategory)
        ensures
            copy@ == self@,
    {
        TagCategory { name: self.name.clone(), glyph: self.glyph.clone() }
    }
}

/// What a document is asked to record: a tag of a category at an offset.
#[derive(Debug)]
pub struct AnnotationRequest {
    /// Absolute offset in the document.
    pub offset: u64,
    pub category: TagCategory,
    pub label: String,
    /// Whether the tag replaces the other tags of its category at the offset.
    pub exclusive: bool,
}

pub struct AnnotationRequestView {
    pub offset: int,
    pub category: TagCategoryView,
    pub label: Seq<char>,
    pub exclusive: bool,
}

impl View for AnnotationRequest {
    type V = AnnotationRequestView;

    open spec fn view(&self) -> AnnotationRequestView {
        AnnotationRequestView {
            offset: self.offset as int,
            category: self.category@,
            label: self.label@,
            exclusive: self.exclusive,
        }
    }
}

impl AnnotationRequest {
    /// A second value for the same request.
    pub fn duplicate(&self) -> (copy: AnnotationRequest)
        ensures
            copy@ == self@,
    {
        AnnotationRequest {
            offset: self.offset,
            category: self.category.duplicate(),
            label: self.label.clone(),
            exclusive: self.exclusive,
        }
    }
}

/// The label of every annotation of the rule named `identifier`.
pub open spec fn label_text(identifier: Seq<char>) -> Seq<char> {
    "Matched YARA rule ("@ + identifier + ")"@
}

/// The annotation for the rule named `identifier` at `offset`. Tags of one
/// category may share an offset, so none is exclusive.
pub open spec fn request_at(
    offset: int,
    identifier: Seq<char>,
    category: TagCategoryView,
) -> AnnotationRequestView {
    AnnotationRequestView { offset, category, label: label_text(identifier), exclusive: false }
}

/// The matches of all of a rule's patterns, pattern by pattern.
pub open spec fn flat_matches(patterns: Seq<PatternMatchesView>) -> Seq<ScanMatchView>
    decreases patterns.len(),
{
    if patterns.len() == 0 {
        Seq::empty()
    } else {
        flat_matches(patterns.drop_last()) + patterns.last().matches
    }
}

/// One annotation for each match, at the match's start counted from `base`.
pub open spec fn match_requests(
    matches: Seq<ScanMatchView>,
    identifier: Seq<char>,
    base: int,
    category: TagCategoryView,
) -> Seq<AnnotationRequestView> {
    matches.map_values(|found: ScanMatchView| request_at(base + found.start, identifier, category))
}

/// The annotations of one matching rule: one at `base` where the rule has no
/// pattern, else one for each match of each pattern.
pub open spec fn rule_requests(
    rule: MatchingRuleView,
    base: int,
    category: TagCategoryView,
) -> Seq<AnnotationRequestView> {
    if rule.patterns.len() == 0 {
        seq![request_at(base, rule.identifier, category)]
    } else {
        match_requests(flat_matches(rule.patterns), rule.identifier, base, category)
    }
}

/// The annotations of a scan: those of each matching rule, rule by rule.
pub open spec fn projection(
    rules: Seq<MatchingRuleView>,
    base: int,
    category: TagCategoryView,
) -> Seq<AnnotationRequestView>
    decreases rules.len(),
{
    if rules.len() == 0 {
        Seq::empty()
    } else {
        projection(rules.drop_last(), base, category) + rule_requests(rules.last(), base, category)
    }
}

/// Every match of the rule starts at an offset that, counted from `base`, is an
/// address of 64 bits.
pub open spec fn rule_offsets_fit(rule: MatchingRuleView, base: int) -> bool {
    forall|p: int, m: int|
        0 <= p < rule.patterns.len() && 0 <= m < rule.patterns[p].matches.len() ==> base + (
        #[trigger] rule.patterns[p].matches[m]).start <= u64::MAX
}

/// The same of every rule.
pub open spec fn offsets_fit(rules: Seq<MatchingRuleView>, base: int) -> bool {
    forall|r: int| 0 <= r < rules.len() ==> rule_offsets_fit(#[trigger] rules[r], base)
}

/// Where the match `m` of the pattern `p` stands among all matches of the patterns.
pub open spec fn match_position(patterns: Seq<PatternMatchesView>, p: int, m: int) -> int {
    flat_matches(patterns.take(p)).len() + m
}

/// Every match of every pattern stands among the flattened matches, at its
/// position: the patterns keep their order, and so do the matches of each.
pub proof fn lemma_flat_matches_index(patterns: Seq<PatternMatchesView>, p: int, m: int)
    requires
        0 <= p < patterns.len(),
        0 <= m < patterns[p].matches.len(),
    ensures
        0 <= match_position(patterns, p, m) < flat_matches(patterns).len(),
        flat_matches(patterns)[match_position(patterns, p, m)] == patterns[p].matches[m],
    decreases patterns.len(),
{
    let front = patterns.drop_last();
    if p == patterns.len() - 1 {
        assert(patterns.take(p) == front);
    } else {
        lemma_flat_matches_index(front, p, m);
        assert(front.take(p) == patterns.take(p));
    }
}

/// The flattened matches are as many as the patterns' matches together.
pub open spec fn match_count(patterns: Seq<PatternMatchesView>) -> nat
    decreases patterns.len(),
{
    if patterns.len() == 0 {
        0
    } else {
        match_count(patterns.drop_last()) + patterns.last().matches.len()
    }
}

/// A rule without patterns is anchored: it gives exactly one annotation, at the
/// base offset, whatever the buffer holds and however long it is.
pub proof fn lemma_whole_rule_anchoring(
    rule: MatchingRuleView,
    base: int,
    category: TagCategoryView,
)
    requires
        rule.patterns.len() == 0,
    ensures
        rule_requests(rule, base, category).len() == 1,
        rule_requests(rule, base, category)[0] == request_at(base, rule.identifier, category),
        rule_requests(rule, base, category)[0].offset == base,
{
}

/// A rule with patterns gives one annotation for each match of each pattern and no
/// other, and the annotation of a match stands at the base offset plus the start
/// of the match.
pub proof fn lemma_offset_correctness(
    rule: MatchingRuleView,
    base: int,
    category: TagCategoryView,
)
    requires
        rule.patterns.len() > 0,
    ensures
        rule_requests(rule, base, category).len() == match_count(rule.patterns),
        forall|p: int, m: int|
            #![trigger match_position(rule.patterns, p, m)]
            0 <= p < rule.patterns.len() && 0 <= m < rule.patterns[p].matches.len() ==> 0
                <= match_position(rule.patterns, p, m) < match_count(rule.patterns),
        forall|p: int, m: int|
            #![trigger match_position(rule.patterns, p, m)]
            0 <= p < rule.patterns.len() && 0 <= m < rule.patterns[p].matches.len()
                ==> rule_requests(rule, base, category)[match_position(rule.patterns, p, m)]
                == request_at(
                base + rule.patterns[p].matches[m].start,
                rule.identifier,
                category,
            ),
{
    lemma_match_count(rule.patterns);
    assert forall|p: int, m: int|
        0 <= p < rule.patterns.len() && 0 <= m < rule.patterns[p].matches.len() implies 0
        <= #[trigger] match_position(rule.patterns, p, m) < match_count(rule.patterns)
        && rule_requests(rule, base, category)[match_position(rule.patterns, p, m)]
        == request_at(base + rule.patterns[p].matches[m].start, rule.identifier, category) by {
        lemma_flat_matches_index(rule.patterns, p, m);
    }
}

/// The flattened matches are counted by `match_count`.
pub proof fn lemma_match_count(patterns: Seq<PatternMatchesView>)
    ensures
        flat_matches(patterns).len() == match_count(patterns),
    decreases patterns.len(),
{
    if patterns.len() > 0 {
        lemma_match_count(patterns.drop_last());
    }
}

/// The annotations of a scan are as many as its anchored rules and the matches of
/// its other rules together.
pub open spec fn request_count(rules: Seq<MatchingRuleView>) -> nat
    decreases rules.len(),
{
    if rules.len() == 0 {
        0
    } else {
        request_count(rules.drop_last()) + if rules.last().patterns.len() == 0 {
            1
        } else {
            match_count(rules.last().patterns)
        }
    }
}

/// `projection` gives `request_count` annotations.
pub proof fn lemma_projection_count(rules: Seq<MatchingRuleView>, base: int, category: TagCategoryView)
    ensures
        projection(rules, base, category).len() == request_count(rules),
    decreases rules.len(),
{
    if rules.len() > 0 {
        lemma_projection_count(rules.drop_last(), base, category);
        lemma_match_count(rules.last().patterns);
    }
}

/// The label of the rule named `identifier`.
pub fn label_for(identifier: &str) -> (label: String)
    ensures
        label@ == label_text(identifier@),
{
    let mut label = "Matched YARA rule (".to_owned();
    label.append(identifier);
    label.append(")");
    label
}

fn request_for(offset: u64, identifier: &str, category: &TagCategory) -> (request:
    AnnotationRequest)
    ensures
        request@ == request_at(offset as int, identifier@, category@),
{
    AnnotationRequest {
        offset,
        category: category.duplicate(),
        label: label_for(identifier),
        exclusive: false,
    }
}

fn project_matches(
    matches: &Vec<ScanMatch>,
    identifier: &str,
    base: u64,
    category: &TagCategory,
    out: &mut Vec<AnnotationRequest>,
)
    requires
        forall|m: int| 0 <= m < matches.len() ==> base + (#[trigger] matches[m]).start <= u64::MAX,
    ensures
        views(final(out)@) == views(old(out)@) + match_requests(
            views(matches@),
            identifier@,
            base as int,
            category@,
        ),
{
    let ghost before = views(out@);
    let ghost all = views(matches@);
    let mut m: usize = 0;
    while m < matches.len()
        invariant
            m <= matches.len(),
            all == views(matches@),
            forall|k: int| 0 <= k < matches.len() ==> base + (#[trigger] matches[k]).start <= u64::MAX,
            views(out@) == before + match_requests(
                all.take(m as int),
                identifier@,
                base as int,
                category@,
            ),
        decreases matches.len() - m,
    {
        let found = &matches[m];
        let request = request_for(base + found.start as u64, identifier, category);
        proof {
            assert(all.take(m + 1) == all.take(m as int).push(found@));
            assert(views(out@.push(request)) == views(out@).push(request@));
        }
        out.push(request);
        m += 1;
    }
    proof {
        assert(all.take(matches.len() as int) == all);
    }
}

fn project_rule(
    rule: &MatchingRule,
    base: u64,
    category: &TagCategory,
    out: &mut Vec<AnnotationRequest>,
)
    requires
        rule_offsets_fit(rule@, base as int),
    ensures
        views(final(out)@) == views(old(out)@) + rule_requests(rule@, base as int, category@),
{
    let ghost before = views(out@);
    let ghost patterns = views(rule.patterns@);
    if rule.patterns.len() == 0 {
        let request = request_for(base, rule.identifier.as_str(), category);
        proof {
            assert(views(out@.push(request)) == views(out@).push(request@));
        }
        out.push(request);
        return ;
    }
    let mut p: usize = 0;
    while p < rule.patterns.len()
        invariant
            p <= rule.patterns.len(),
            patterns == views(rule.patterns@),
            patterns == rule@.patterns,
            rule_offsets_fit(rule@, base as int),
            views(out@) == before + match_requests(
                flat_matches(patterns.take(p as int)),
                rule.identifier@,
                base as int,
                category@,
            ),
        decreases rule.patterns.len() - p,
    {
        let pattern = &rule.patterns[p];
        proof {
            assert(patterns.take(p + 1).drop_last() == patterns.take(p as int));
            assert(patterns.take(p + 1).last() == pattern@);
            assert forall|m: int| 0 <= m < pattern.matches.len() implies base + (
            #[trigger] pattern.matches[m]).start <= u64::MAX by {
                assert(rule@.patterns[p as int].matches[m] == pattern.matches[m]@);
            }
        }
        project_matches(&pattern.matches, rule.identifier.as_str(), base, category, out);
        p += 1;
    }
    proof {
        assert(patterns.take(rule.patterns.len() as int) == patterns);
    }
}

/// Maps the matches of a scan to annotation requests, counted from `base`, the
/// offset at which the scanned buffer starts in the document.
pub fn project(matches: &Vec<MatchingRule>, base: u64, category: &TagCategory) -> (requests: Vec<
    AnnotationRequest,
>)
    requires
        offsets_fit(views(matches@), base as int),
    ensures
        views(requests@) == projection(views(matches@), base as int, category@),
{
    let ghost rules = views(matches@);
    let mut requests: Vec<AnnotationRequest> = Vec::new();
    let mut r: usize = 0;
    while r < matches.len()
        invariant
            r <= matches.len(),
            rules == views(matches@),
            offsets_fit(rules, base as int),
            views(requests@) == projection(rules.take(r as int), base as int, category@),
        decreases matches.len() - r,
    {
        let rule = &matches[r];
        proof {
            assert(rules.take(r + 1).drop_last() == rules.take(r as int));
            assert(rules.take(r + 1).last() == rule@);
            assert(rules[r as int] == rule@);
        }
        project_rule(rule, base, category, &mut requests);
        r += 1;
    }
    proof {
        assert(rules.take(matches.len() as int) == rules);
    }
    requests
}

} // verus!
