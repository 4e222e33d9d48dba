//! Compiling rule sources into one rule set, source by source: a source that the
//! compiler refuses is recorded and adds nothing to the set, and the next one is
//! tried.

use vstd::prelude::*;
use crate::diagnostics::{Diagnostic, DiagnosticKind, DiagnosticView};
use crate::views;
use crate::engine::{scan, MatchingRule, ScanFailure, all_within};
use crate::sources::{RuleSource, RuleSourceView};

verus! {

/// `yara_x::Compiler`, an open compiler: carried through, never looked into.
#[verifier::external_type_specification]
#[verifier::external_body]
pub struct ExCompiler<'a>(yara_x::Compiler<'a>);

/// `yara_x::errors::CompileError`, the compiler's reason for refusing a source:
/// only its presence is read.
#[verifier::external_type_specification]
#[verifier::external_body]
pub struct ExCompileError(yara_x::errors::CompileError);

/// The texts that a compiler was handed through `yara_x::Compiler::add_source`, in
/// order, whether it took them or not.
pub uninterp spec fn compiler_texts(compiler: yara_x::Compiler<'static>) -> Seq<Seq<char>>;

/// Whether a compiler follows the `include` statements of the texts it is handed,
/// and so reads the files that they name.
pub uninterp spec fn compiler_includes(compiler: yara_x::Compiler<'static>) -> bool;

/// The texts that the compiler of a rule set had been handed when
/// `yara_x::Compiler::build` closed it.
pub uninterp spec fn rule_set_texts(rules: yara_x::Rules) -> Seq<Seq<char>>;

/// Whether `yara_x::Compiler::add_source` takes `text` from a compiler that was
/// made by `yara_x::Compiler::new`, follows no `include` statement and was handed
/// `before`.
pub uninterp spec fn compiles(before: Seq<Seq<char>>, text: Seq<char>) -> bool;

/// `yara_x::Compiler::new` makes a compiler that was handed nothing yet and that
/// follows `include` statements.
#[verifier::external_body]
fn engine_new() -> (compiler: yara_x::Compiler<'static>)
    ensures
        compiler_texts(compiler) == Seq::<Seq<char>>::empty(),
        compiler_includes(compiler),
{
    yara_x::Compiler::new()
}

/// `yara_x::Compiler::enable_includes` sets whether the compiler follows `include`
/// statements, and touches nothing else.
#[verifier::external_body]
fn engine_enable_includes(compiler: &mut yara_x::Compiler<'static>, yes: bool)
    ensures
        compiler_includes(*final(compiler)) == yes,
        compiler_texts(*final(compiler)) == compiler_texts(*old(compiler)),
{
    compiler.enable_includes(yes);
}

/// Hands `text` to `yara_x::Compiler::add_source`, as bytes. The compiler must not
/// follow `include` statements: it then reads no file, and whether it takes the
/// text rests on the text and on what it was handed before, which `compiles`
/// names. Taken or not, the text is among what the compiler was handed.
#[verifier::external_body]
fn engine_add_source(compiler: &mut yara_x::Compiler<'static>, text: &str) -> (outcome: Result<
    (),
    yara_x::errors::CompileError,
>)
    requires
        !compiler_includes(*old(compiler)),
    ensures
        outcome is Ok <==> compiles(compiler_texts(*old(compiler)), text@),
        compiler_texts(*final(compiler)) == compiler_texts(*old(compiler)).push(text@),
        compiler_includes(*final(compiler)) == compiler_includes(*old(compiler)),
{
    compiler.add_source(text.as_bytes()).map(|_| ())
}

/// `yara_x::Compiler::build` closes a compiler and gives the rule set of what it
/// was handed.
#[verifier::external_body]
fn engine_build(compiler: yara_x::Compiler<'static>) -> (rules: yara_x::Rules)
    ensures
        rule_set_texts(rules) == compiler_texts(compiler),
{
    compiler.build()
}

/// One rule source that was handed to the compiler, and what became of it.
#[derive(Debug)]
pub struct Attempt {
    pub origin: String,
    pub accepted: bool,
}

pub struct AttemptView {
    pub origin: Seq<char>,
    pub accepted: bool,
}

impl View for Attempt {
    type V = AttemptView;

    open spec fn view(&self) -> AttemptView {
        AttemptView { origin: self.origin@, accepted: self.accepted }
    }
}

/// The origins of the attempts that ended as `accepted` says, in order.
pub open spec fn origins_of(attempts: Seq<AttemptView>, accepted: bool) -> Seq<Seq<char>>
    decreases attempts.len(),
{
    if attempts.len() == 0 {
        Seq::empty()
    } else if attempts.last().accepted == accepted {
        origins_of(attempts.drop_last(), accepted).push(attempts.last().origin)
    } else {
        origins_of(attempts.drop_last(), accepted)
    }
}

/// The reports of the attempts: one for each source that was refused, in order.
pub open spec fn failure_reports(attempts: Seq<AttemptView>) -> Seq<DiagnosticView>
    decreases attempts.len(),
{
    if attempts.len() == 0 {
        Seq::empty()
    } else if attempts.last().accepted {
        failure_reports(attempts.drop_last())
    } else {
        failure_reports(attempts.drop_last()).push(
            DiagnosticView { kind: DiagnosticKind::CompileFailed, subject: attempts.last().origin },
        )
    }
}

/// The texts of the sources that the compiler takes where it is handed `sources`
/// one by one and forgets each that it refuses: the compiler judges each source by
/// the accepted ones before it alone.
pub open spec fn texts_after(sources: Seq<RuleSourceView>) -> Seq<Seq<char>>
    decreases sources.len(),
{
    if sources.len() == 0 {
        Seq::empty()
    } else {
        let before = texts_after(sources.drop_last());
        if compiles(before, sources.last().text) {
            before.push(sources.last().text)
        } else {
            before
        }
    }
}

/// The attempts that `sources` give: one for each, in order, accepted where the
/// compiler takes its text after the accepted ones before it.
pub open spec fn attempts_after(sources: Seq<RuleSourceView>) -> Seq<AttemptView>
    decreases sources.len(),
{
    if sources.len() == 0 {
        Seq::empty()
    } else {
        attempts_after(sources.drop_last()).push(
            AttemptView {
                origin: sources.last().origin,
                accepted: compiles(texts_after(sources.drop_last()), sources.last().text),
            },
        )
    }
}

/// Every text of `texts` is taken by a compiler that was handed those before it.
pub open spec fn accepted_in_turn(texts: Seq<Seq<char>>) -> bool {
    forall|i: int| 0 <= i < texts.len() ==> compiles(#[trigger] texts.take(i), texts[i])
}

/// Of the attempts, each was accepted or refused: where `n` sources were tried and
/// `m` of them refused, `n - m` were accepted, and each refusal is reported once.
pub proof fn lemma_partial_failure(attempts: Seq<AttemptView>)
    ensures
        origins_of(attempts, true).len() + origins_of(attempts, false).len() == attempts.len(),
        failure_reports(attempts).len() == origins_of(attempts, false).len(),
    decreases attempts.len(),
{
    if attempts.len() > 0 {
        lemma_partial_failure(attempts.drop_last());
    }
}

/// A refused source takes nothing from the others: with one more attempt, the
/// accepted origins are those of before, and the new one after them if it was
/// accepted.
pub proof fn lemma_failure_is_local(attempts: Seq<AttemptView>, next: AttemptView)
    ensures
        origins_of(attempts.push(next), true) == if next.accepted {
            origins_of(attempts, true).push(next.origin)
        } else {
            origins_of(attempts, true)
        },
{
    assert(attempts.push(next).drop_last() == attempts);
}

/// A refused source adds nothing: the set holds the text of every source that was
/// accepted and of no other, each taken in turn, and as many texts as sources were
/// accepted. Every source has its attempt.
pub proof fn lemma_refused_source_adds_nothing(sources: Seq<RuleSourceView>)
    ensures
        attempts_after(sources).len() == sources.len(),
        texts_after(sources).len() == origins_of(attempts_after(sources), true).len(),
        accepted_in_turn(texts_after(sources)),
        sources.len() > 0 && !attempts_after(sources).last().accepted ==> texts_after(sources)
            == texts_after(sources.drop_last()),
        sources.len() > 0 && attempts_after(sources).last().accepted ==> texts_after(sources)
            == texts_after(sources.drop_last()).push(sources.last().text),
    decreases sources.len(),
{
    if sources.len() > 0 {
        lemma_refused_source_adds_nothing(sources.drop_last());
        let before = texts_after(sources.drop_last());
        let after = texts_after(sources);
        assert(attempts_after(sources).drop_last() == attempts_after(sources.drop_last()));
        assert forall|i: int| 0 <= i < after.len() implies compiles(
            #[trigger] after.take(i),
            after[i],
        ) by {
            if i < before.len() {
                assert(after.take(i) == before.take(i));
            } else {
                assert(after.take(i) == before);
            }
        }
    }
}

/// Records in `attempts` that the source of `origin` was tried and whether it was
/// accepted.
pub fn record(attempts: &mut Vec<Attempt>, origin: &str, accepted: bool)
    ensures
        views(final(attempts)@) == views(old(attempts)@).push(
            AttemptView { origin: origin@, accepted },
        ),
{
    let attempt = Attempt { origin: origin.to_owned(), accepted };
    assert(views(attempts@.push(attempt)) == views(attempts@).push(attempt@));
    attempts.push(attempt);
}

/// The views of texts.
pub open spec fn text_views(texts: Seq<String>) -> Seq<Seq<char>> {
    texts.map_values(|text: String| text@)
}

/// A compiler that follows no `include` statement and was handed nothing yet.
fn fresh_engine() -> (engine: yara_x::Compiler<'static>)
    ensures
        compiler_texts(engine) == Seq::<Seq<char>>::empty(),
        !compiler_includes(engine),
{
    let mut engine = engine_new();
    engine_enable_includes(&mut engine, false);
    engine
}

/// A compiler that was handed `texts` and nothing else. It takes each of them, as
/// each was taken in turn before.
fn rebuilt_engine(texts: &Vec<String>) -> (engine: yara_x::Compiler<'static>)
    requires
        accepted_in_turn(text_views(texts@)),
    ensures
        compiler_texts(engine) == text_views(texts@),
        !compiler_includes(engine),
{
    let ghost wanted = text_views(texts@);
    let mut engine = fresh_engine();
    let mut i: usize = 0;
    while i < texts.len()
        invariant
            i <= texts.len(),
            wanted == text_views(texts@),
            accepted_in_turn(wanted),
            compiler_texts(engine) == wanted.take(i as int),
            !compiler_includes(engine),
        decreases texts.len() - i,
    {
        let outcome = engine_add_source(&mut engine, texts[i].as_str());
        proof {
            assert(compiles(wanted.take(i as int), wanted[i as int]));
            assert(outcome is Ok);
            assert(wanted.take(i as int).push(texts[i as int]@) == wanted.take(i + 1));
        }
        i += 1;
    }
    proof {
        assert(wanted.take(texts.len() as int) == wanted);
    }
    engine
}

/// An open compiler, with the record of what it was given. It follows no `include`
/// statement, so a text that holds one is refused and no file is read.
pub struct RuleCompiler {
    engine: yara_x::Compiler<'static>,
    attempts: Vec<Attempt>,
    accepted: Vec<String>,
}

impl RuleCompiler {
    /// The sources that were tried so far, in order.
    pub closed spec fn attempts(&self) -> Seq<AttemptView> {
        views(self.attempts@)
    }

    /// The texts that the compiler holds: those that it was handed, in order.
    pub closed spec fn texts(&self) -> Seq<Seq<char>> {
        compiler_texts(self.engine)
    }

    /// The compiler follows no `include` statement, holds the texts that it accepted
    /// and no other, and took each of them in turn.
    pub closed spec fn wf(&self) -> bool {
        &&& !compiler_includes(self.engine)
        &&& compiler_texts(self.engine) == text_views(self.accepted@)
        &&& accepted_in_turn(text_views(self.accepted@))
    }

    /// A compiler that was given nothing yet.
    pub fn new() -> (compiler: RuleCompiler)
        ensures
            compiler.wf(),
            compiler.attempts() == Seq::<AttemptView>::empty(),
            compiler.texts() == Seq::<Seq<char>>::empty(),
    {
        let compiler = RuleCompiler {
            engine: fresh_engine(),
            attempts: Vec::new(),
            accepted: Vec::new(),
        };
        assert(text_views(compiler.accepted@) =~= Seq::empty());
        compiler
    }

    /// Tries to add one source, and records the attempt whatever comes of it. An
    /// accepted source is held from then on. A refused one is forgotten: the engine,
    /// which keeps what it compiled of a text before it met the fault, is made anew
    /// from the accepted texts.
    pub fn add(&mut self, source: &RuleSource) -> (accepted: bool)
        requires
            old(self).wf(),
        ensures
            final(self).wf(),
            accepted == compiles(old(self).texts(), source.text@),
            final(self).attempts() == old(self).attempts().push(
                AttemptView { origin: source.origin@, accepted },
            ),
            final(self).texts() == if accepted {
                old(self).texts().push(source.text@)
            } else {
                old(self).texts()
            },
    {
        let ghost before = text_views(self.accepted@);
        let accepted = engine_add_source(&mut self.engine, source.text.as_str()).is_ok();
        if accepted {
            let text = source.text.clone();
            proof {
                let after = before.push(text@);
                assert(text_views(self.accepted@.push(text)) == after);
                assert forall|i: int| 0 <= i < after.len() implies compiles(
                    #[trigger] after.take(i),
                    after[i],
                ) by {
                    if i < before.len() {
                        assert(after.take(i) == before.take(i));
                    } else {
                        assert(after.take(i) == before);
                    }
                }
            }
            self.accepted.push(text);
        } else {
            self.engine = rebuilt_engine(&self.accepted);
        }
        record(&mut self.attempts, source.origin.as_str(), accepted);
        accepted
    }

    /// Closes the compiler: the rule set of the texts that it holds.
    pub fn build(self) -> (set: CompiledRuleSet)
        ensures
            set.attempts() == self.attempts(),
            set.texts() == self.texts(),
    {
        CompiledRuleSet { rules: engine_build(self.engine), attempts: self.attempts }
    }
}

/// What compilation left: the rule set of the accepted sources, ready to scan with,
/// and the record of every source that was tried. It offers no way to change it.
pub struct CompiledRuleSet {
    rules: yara_x::Rules,
    attempts: Vec<Attempt>,
}

impl CompiledRuleSet {
    /// The sources that were tried, in order.
    pub closed spec fn attempts(&self) -> Seq<AttemptView> {
        views(self.attempts@)
    }

    /// The texts that the rule set was built from, in order.
    pub closed spec fn texts(&self) -> Seq<Seq<char>> {
        rule_set_texts(self.rules)
    }

    /// How many sources were tried.
    pub fn attempted(&self) -> (n: usize)
        ensures
            n == self.attempts().len(),
    {
        self.attempts.len()
    }

    /// The origins of the sources that were accepted, where `accepted` holds, or of
    /// those that were refused.
    pub fn origins(&self, accepted: bool) -> (origins: Vec<String>)
        ensures
            origins@.map_values(|origin: String| origin@) == origins_of(self.attempts(), accepted),
    {
        let ghost all = self.attempts();
        let mut origins: Vec<String> = Vec::new();
        let mut i: usize = 0;
        while i < self.attempts.len()
            invariant
                i <= self.attempts.len(),
                all == views(self.attempts@),
                origins@.map_values(|origin: String| origin@) == origins_of(
                    all.take(i as int),
                    accepted,
                ),
            decreases self.attempts.len() - i,
        {
            proof {
                assert(all.take(i + 1).drop_last() == all.take(i as int));
                assert(all.take(i + 1).last() == self.attempts[i as int]@);
            }
            if self.attempts[i].accepted == accepted {
                let origin = self.attempts[i].origin.clone();
                assert(origins@.push(origin).map_values(|origin: String| origin@)
                    == origins@.map_values(|origin: String| origin@).push(origin@));
                origins.push(origin);
            }
            i += 1;
        }
        proof {
            assert(all.take(self.attempts.len() as int) == all);
        }
        origins
    }

    /// The reports of the sources that were refused.
    pub fn diagnostics(&self) -> (reports: Vec<Diagnostic>)
        ensures
            views(reports@) == failure_reports(self.attempts()),
    {
        let ghost all = self.attempts();
        let mut reports: Vec<Diagnostic> = Vec::new();
        let mut i: usize = 0;
        while i < self.attempts.len()
            invariant
                i <= self.attempts.len(),
                all == views(self.attempts@),
                views(reports@) == failure_reports(all.take(i as int)),
            decreases self.attempts.len() - i,
        {
            proof {
                assert(all.take(i + 1).drop_last() == all.take(i as int));
                assert(all.take(i + 1).last() == self.attempts[i as int]@);
            }
            if !self.attempts[i].accepted {
                let report = Diagnostic::new(
                    DiagnosticKind::CompileFailed,
                    self.attempts[i].origin.as_str(),
                );
                assert(views(reports@.push(report)) == views(reports@).push(report@));
                reports.push(report);
            }
            i += 1;
        }
        proof {
            assert(all.take(self.attempts.len() as int) == all);
        }
        reports
    }

    /// Whether any source was accepted.
    pub fn has_rules(&self) -> (any: bool)
        ensures
            any == (origins_of(self.attempts(), true).len() > 0),
    {
        let ghost all = self.attempts();
        let mut any = false;
        let mut i: usize = 0;
        while i < self.attempts.len()
            invariant
                i <= self.attempts.len(),
                all == views(self.attempts@),
                any == (origins_of(all.take(i as int), true).len() > 0),
            decreases self.attempts.len() - i,
        {
            proof {
                assert(all.take(i + 1).drop_last() == all.take(i as int));
                assert(all.take(i + 1).last() == self.attempts[i as int]@);
            }
            if self.attempts[i].accepted {
                any = true;
            }
            i += 1;
        }
        proof {
            assert(all.take(self.attempts.len() as int) == all);
        }
        any
    }

    /// Scans `buffer` with the rules of this set, in one pass. A set for which no
    /// source was accepted, be it that none was tried or that all were refused, is
    /// empty: its scan finds nothing and does not fail. Otherwise the engine says
    /// what matches and whether the scan fails, and every match lies in the buffer.
    pub fn scan(&self, buffer: &[u8]) -> (outcome: Result<Vec<MatchingRule>, ScanFailure>)
        ensures
            origins_of(self.attempts(), true).len() == 0 ==> outcome is Ok
                && outcome->Ok_0@.len() == 0,
            outcome matches Ok(found) ==> all_within(views(found@), buffer@),
    {
        if !self.has_rules() {
            return Ok(Vec::new());
        }
        scan(&self.rules, buffer)
    }
}

/// Compiles `sources` into one rule set. Every source is tried, in order, whatever
/// became of those before it, and no failure ends the compilation. The set is built
/// from the texts of the accepted sources and from nothing else.
pub fn compile(sources: &Vec<RuleSource>) -> (set: CompiledRuleSet)
    ensures
        set.attempts() == attempts_after(views(sources@)),
        set.texts() == texts_after(views(sources@)),
{
    let ghost all = views(sources@);
    let mut compiler = RuleCompiler::new();
    let mut i: usize = 0;
    while i < sources.len()
        invariant
            i <= sources.len(),
            all == views(sources@),
            compiler.wf(),
            compiler.attempts() == attempts_after(all.take(i as int)),
            compiler.texts() == texts_after(all.take(i as int)),
        decreases sources.len() - i,
    {
        proof {
            assert(all.take(i + 1).drop_last() == all.take(i as int));
            assert(all.take(i + 1).last() == sources[i as int]@);
        }
        compiler.add(&sources[i]);
        i += 1;
    }
    proof {
        assert(all.take(sources.len() as int) == all);
    }
    compiler.build()
}

} // verus!
