//! The verification pipeline: which candidate to compile next, and when and
//! how a run ends.
//!
//! The pipeline does no work of its own. It is told what came of each
//! compiler run and answers with the next thing to do. Candidates are tried
//! in the order given, newest first. A run ends at once with the first full
//! match, with a compiler crash or with a compiler that reports another
//! version than the one asked for. A candidate that does not compile is
//! passed over. When the candidates are used up, the first partial match
//! found is reported, if there was one.

use vstd::prelude::*;
use vstd::string::*;
use vstd::utf8::encode_utf8;
use crate::artifact::{is_selection, select_match, CompilationArtifact, Selection, SubmittedBytecode};
use crate::matcher::MatchType;
use crate::version::{parse_version_bytes, parsed_version, CompilerVersion};

verus! {

/// What a compiler run came to.
#[derive(Debug)]
pub enum CompileOutcome {
    /// The compiler ran and produced output.
    Compiled(CompilationArtifact),
    /// The compiler ran and rejected the sources; its diagnostics.
    Rejected(Vec<String>),
    /// The compiler ended abnormally, or could not be run at all.
    Crashed(String),
}

/// What the pipeline needs to know of a compiler run.
#[derive(Clone, Copy, Debug, PartialEq, Eq)]
pub enum Observed {
    Crashed,
    Rejected,
    /// The compiler reported another version of itself than the candidate.
    Mismatched,
    /// The sources compiled; the contract that matches, if any does.
    Compiled(Option<Selection>),
}

/// A match: the candidate whose output matched, the contract in that output,
/// and how well it matches.
#[derive(Clone, Copy, Debug, PartialEq, Eq)]
pub struct Found {
    pub candidate: usize,
    pub contract: usize,
    pub match_type: MatchType,
}

/// How a run ended.
#[derive(Clone, Copy, Debug, PartialEq, Eq)]
pub enum Verdict {
    Matched(Found),
    /// No candidate compiled.
    CompilationFailed,
    /// The compiler run for this candidate reported another version.
    VersionMismatch(usize),
    /// Some candidate compiled, and no contract matched.
    NoMatch,
    /// The compiler run for this candidate crashed.
    Crashed(usize),
}

/// What to do next.
#[derive(Clone, Copy, Debug, PartialEq, Eq)]
pub enum Step {
    /// Compile the candidate with this index and report what came of it.
    Compile(usize),
    /// Ask the fallback provider and report whether it knew the contract.
    Lookup,
    /// The run is over.
    Finish(Verdict),
}

#[derive(Clone, Copy, Debug, PartialEq, Eq)]
pub enum Phase {
    /// Waiting for the outcome of the compiler run for `position`.
    Compiling,
    /// Waiting for the fallback provider's answer.
    Consulting,
    Done,
}

/// The state of one run.
#[derive(Clone, Copy, Debug)]
pub struct Pipeline {
    /// The number of candidate versions.
    pub total: usize,
    pub phase: Phase,
    /// The index of the candidate being compiled.
    pub position: usize,
    /// Some candidate has compiled.
    pub compiled: bool,
    /// The first partial match found.
    pub partial: Option<Found>,
    /// A fallback provider is there to be asked.
    pub fallback: bool,
    /// The fallback provider has been asked.
    pub consulted: bool,
    /// The verdict to end with if the fallback provider does not help.
    pub pending: Option<Verdict>,
}

impl Verdict {
    /// The submitted code failed to verify; neither the request nor the
    /// service is at fault.
    pub open spec fn is_failed_verification(self) -> bool {
        match self {
            Verdict::CompilationFailed => true,
            Verdict::VersionMismatch(_) => true,
            Verdict::NoMatch => true,
            _ => false,
        }
    }

    pub fn failed_verification(&self) -> (failed: bool)
        ensures
            failed == self.is_failed_verification(),
    {
        match self {
            Verdict::CompilationFailed => true,
            Verdict::VersionMismatch(_) => true,
            Verdict::NoMatch => true,
            _ => false,
        }
    }
}

impl Pipeline {
    pub open spec fn wf(self) -> bool {
        &&& self.position <= self.total
        &&& self.phase == Phase::Compiling ==> self.position < self.total
        &&& self.phase == Phase::Consulting ==> self.pending.is_some() && self.fallback
            && !self.consulted
        &&& self.partial matches Some(found) ==> found.match_type == MatchType::Partial
            && found.candidate < self.position
    }

    /// The state before anything was compiled.
    pub open spec fn fresh(total: usize, fallback: bool) -> Pipeline {
        Pipeline {
            total,
            phase: Phase::Done,
            position: 0,
            compiled: false,
            partial: None,
            fallback,
            consulted: false,
            pending: None,
        }
    }

    /// The end of a run that failed to verify: the fallback provider is
    /// asked first, if there is one and it was not asked before.
    pub open spec fn settled(self, verdict: Verdict) -> (Pipeline, Step) {
        if verdict.is_failed_verification() && self.fallback && !self.consulted {
            (Pipeline { phase: Phase::Consulting, pending: Some(verdict), ..self }, Step::Lookup)
        } else {
            (Pipeline { phase: Phase::Done, ..self }, Step::Finish(verdict))
        }
    }

    /// What follows once the candidates before `position` are dealt with:
    /// the next candidate, or the end of the run.
    pub open spec fn proceeded(self) -> (Pipeline, Step) {
        if self.position < self.total {
            (Pipeline { phase: Phase::Compiling, ..self }, Step::Compile(self.position))
        } else {
            match self.partial {
                Some(found) => (Pipeline { phase: Phase::Done, ..self }, Step::Finish(
                    Verdict::Matched(found),
                )),
                None => self.settled(
                    if self.compiled {
                        Verdict::NoMatch
                    } else {
                        Verdict::CompilationFailed
                    },
                ),
            }
        }
    }

    /// The start of a run over `total` candidates.
    pub open spec fn started(total: usize, fallback: bool) -> (Pipeline, Step) {
        Pipeline::fresh(total, fallback).proceeded()
    }

    /// What follows when the compiler run for the current candidate came to
    /// `seen`.
    pub open spec fn advanced(self, seen: Observed) -> (Pipeline, Step)
        recommends
            self.phase == Phase::Compiling,
            self.position < self.total,
    {
        let here = self.position;
        let onward = (here + 1) as usize;
        match seen {
            Observed::Crashed => (Pipeline { phase: Phase::Done, ..self }, Step::Finish(
                Verdict::Crashed(here),
            )),
            Observed::Mismatched => self.settled(Verdict::VersionMismatch(here)),
            Observed::Rejected => (Pipeline { position: onward, ..self }).proceeded(),
            Observed::Compiled(None) => (Pipeline {
                position: onward,
                compiled: true,
                ..self
            }).proceeded(),
            Observed::Compiled(Some(chosen)) => {
                let found = Found {
                    candidate: here,
                    contract: chosen.index,
                    match_type: chosen.match_type,
                };
                match chosen.match_type {
                    MatchType::Full => (Pipeline {
                        phase: Phase::Done,
                        compiled: true,
                        ..self
                    }, Step::Finish(Verdict::Matched(found))),
                    MatchType::Partial => (Pipeline {
                        position: onward,
                        compiled: true,
                        partial: if self.partial.is_some() {
                            self.partial
                        } else {
                            Some(found)
                        },
                        ..self
                    }).proceeded(),
                }
            },
        }
    }

    /// What follows the fallback provider's answer: with a hit the
    /// candidates are tried once more from the first, with what the provider
    /// returned; with a miss the run ends as it would have without a
    /// provider.
    pub open spec fn resumed(self, hit: bool) -> (Pipeline, Step)
        recommends
            self.phase == Phase::Consulting,
            self.pending.is_some(),
    {
        if hit {
            (Pipeline {
                position: 0,
                compiled: false,
                partial: None,
                consulted: true,
                pending: None,
                ..self
            }).proceeded()
        } else {
            (Pipeline { phase: Phase::Done, consulted: true, ..self }, Step::Finish(
                self.pending.unwrap(),
            ))
        }
    }

    fn settle(&mut self, verdict: Verdict) -> (step: Step)
        ensures
            (*final(self), step) == old(self).settled(verdict),
    {
        if verdict.failed_verification() && self.fallback && !self.consulted {
            self.phase = Phase::Consulting;
            self.pending = Some(verdict);
            Step::Lookup
        } else {
            self.phase = Phase::Done;
            Step::Finish(verdict)
        }
    }

    fn proceed(&mut self) -> (step: Step)
        ensures
            (*final(self), step) == old(self).proceeded(),
    {
        if self.position < self.total {
            self.phase = Phase::Compiling;
            Step::Compile(self.position)
        } else {
            match self.partial {
                Some(found) => {
                    self.phase = Phase::Done;
                    Step::Finish(Verdict::Matched(found))
                },
                None => {
                    let verdict = if self.compiled {
                        Verdict::NoMatch
                    } else {
                        Verdict::CompilationFailed
                    };
                    self.settle(verdict)
                },
            }
        }
    }

    /// Starts a run over `total` candidates. `fallback` says whether a
    /// fallback provider is there to be asked.
    pub fn start(total: usize, fallback: bool) -> (begun: (Pipeline, Step))
        ensures
            begun == Pipeline::started(total, fallback),
            begun.0.wf(),
    {
        let mut pipeline = Pipeline {
            total,
            phase: Phase::Done,
            position: 0,
            compiled: false,
            partial: None,
            fallback,
            consulted: false,
            pending: None,
        };
        let step = pipeline.proceed();
        (pipeline, step)
    }

    /// Takes in what came of the compiler run for the current candidate.
    pub fn advance(&mut self, seen: Observed) -> (step: Step)
        requires
            old(self).wf(),
            old(self).phase == Phase::Compiling,
        ensures
            (*final(self), step) == old(self).advanced(seen),
            final(self).wf(),
    {
        let here = self.position;
        match seen {
            Observed::Crashed => {
                self.phase = Phase::Done;
                Step::Finish(Verdict::Crashed(here))
            },
            Observed::Mismatched => self.settle(Verdict::VersionMismatch(here)),
            Observed::Rejected => {
                self.position = here + 1;
                self.proceed()
            },
            Observed::Compiled(None) => {
                self.position = here + 1;
                self.compiled = true;
                self.proceed()
            },
            Observed::Compiled(Some(chosen)) => {
                let found = Found {
                    candidate: here,
                    contract: chosen.index,
                    match_type: chosen.match_type,
                };
                self.compiled = true;
                match chosen.match_type {
                    MatchType::Full => {
                        self.phase = Phase::Done;
                        Step::Finish(Verdict::Matched(found))
                    },
                    MatchType::Partial => {
                        self.position = here + 1;
                        if self.partial.is_none() {
                            self.partial = Some(found);
                        }
                        self.proceed()
                    },
                }
            },
        }
    }

    /// Takes in the fallback provider's answer.
    pub fn resume(&mut self, hit: bool) -> (step: Step)
        requires
            old(self).wf(),
            old(self).phase == Phase::Consulting,
        ensures
            (*final(self), step) == old(self).resumed(hit),
            final(self).wf(),
    {
        if hit {
            self.position = 0;
            self.compiled = false;
            self.partial = None;
            self.consulted = true;
            self.pending = None;
            self.proceed()
        } else {
            self.phase = Phase::Done;
            self.consulted = true;
            match self.pending {
                Some(verdict) => Step::Finish(verdict),
                None => Step::Finish(Verdict::NoMatch),
            }
        }
    }
}

/// What the pipeline is to be told of a compiler run for `candidate`.
pub open spec fn is_observation(
    outcome: CompileOutcome,
    candidate: CompilerVersion,
    submitted: SubmittedBytecode,
    hint: Option<String>,
    seen: Observed,
) -> bool {
    match outcome {
        CompileOutcome::Crashed(_) => seen == Observed::Crashed,
        CompileOutcome::Rejected(_) => seen == Observed::Rejected,
        CompileOutcome::Compiled(artifact) => {
            if parsed_version(encode_utf8(artifact.compiler_version@)) == Some(candidate) {
                seen matches Observed::Compiled(choice) && is_selection(
                    artifact.contracts@,
                    submitted,
                    hint,
                    choice,
                )
            } else {
                seen == Observed::Mismatched
            }
        },
    }
}

/// Sums up a compiler run for the pipeline: whether it crashed or rejected
/// the sources, whether the compiler is the one that was asked for, and
/// which of the compiled contracts matches the submitted bytecode.
pub fn observe(
    outcome: &CompileOutcome,
    candidate: &CompilerVersion,
    submitted: &SubmittedBytecode,
    hint: &Option<String>,
) -> (seen: Observed)
    ensures
        is_observation(*outcome, *candidate, *submitted, *hint, seen),
{
    match outcome {
        CompileOutcome::Crashed(_) => Observed::Crashed,
        CompileOutcome::Rejected(_) => Observed::Rejected,
        CompileOutcome::Compiled(artifact) => {
            let reported = parse_version_bytes(artifact.compiler_version.as_str().as_bytes());
            let agrees = match reported {
                Some(version) => version == *candidate,
                None => false,
            };
            if agrees {
                Observed::Compiled(select_match(&artifact.contracts, submitted, hint))
            } else {
                Observed::Mismatched
            }
        },
    }
}

/// An outcome that ends the run whatever else is left to try.
pub open spec fn ends_run(seen: Observed) -> bool {
    ||| seen is Crashed
    ||| seen is Mismatched
    ||| (seen matches Observed::Compiled(Some(chosen)) && chosen.match_type == MatchType::Full)
}

/// The verdict of a run that the outcome for candidate `here` ended.
pub open spec fn verdict_at(seen: Observed, here: usize) -> Verdict
    recommends
        ends_run(seen),
{
    match seen {
        Observed::Crashed => Verdict::Crashed(here),
        Observed::Compiled(Some(chosen)) => Verdict::Matched(
            Found { candidate: here, contract: chosen.index, match_type: chosen.match_type },
        ),
        _ => Verdict::VersionMismatch(here),
    }
}

/// The first partial match among the outcomes of the candidates, in their
/// order.
pub open spec fn first_partial(seen: Seq<Observed>) -> Option<Found>
    decreases seen.len(),
{
    if seen.len() == 0 {
        None
    } else {
        match first_partial(seen.drop_last()) {
            Some(found) => Some(found),
            None => match seen.last() {
                Observed::Compiled(Some(chosen)) => if chosen.match_type == MatchType::Partial {
                    Some(
                        Found {
                            candidate: (seen.len() - 1) as usize,
                            contract: chosen.index,
                            match_type: MatchType::Partial,
                        },
                    )
                } else {
                    None
                },
                _ => None,
            },
        }
    }
}

/// Some candidate compiled.
pub open spec fn any_compiled(seen: Seq<Observed>) -> bool {
    exists|i: int| 0 <= i < seen.len() && (#[trigger] seen[i]) is Compiled
}

/// The state and the step after a run without a fallback provider was
/// started and told the outcomes `seen`, one after another. Outcomes that
/// come after the run has ended change nothing.
pub open spec fn after_outcomes(total: usize, seen: Seq<Observed>) -> (Pipeline, Step)
    decreases seen.len(),
{
    if seen.len() == 0 {
        Pipeline::started(total, false)
    } else {
        let before = after_outcomes(total, seen.drop_last());
        if before.0.phase == Phase::Compiling {
            before.0.advanced(seen.last())
        } else {
            before
        }
    }
}

/// The verdict of a run over `total` candidates none of which ended it
/// early: the first partial match, else that no contract matched, else that
/// nothing compiled.
pub open spec fn verdict_of_all(seen: Seq<Observed>) -> Verdict {
    match first_partial(seen) {
        Some(found) => Verdict::Matched(found),
        None => if any_compiled(seen) {
            Verdict::NoMatch
        } else {
            Verdict::CompilationFailed
        },
    }
}

/// As long as no outcome ends the run, the candidates are compiled one
/// after another in their order, and when they are used up the run ends
/// with the first partial match, if there was one.
pub proof fn lemma_run_in_order(total: usize, seen: Seq<Observed>)
    requires
        seen.len() <= total,
        forall|i: int| 0 <= i < seen.len() ==> !ends_run(#[trigger] seen[i]),
    ensures
        after_outcomes(total, seen).0.wf(),
        after_outcomes(total, seen).0.total == total,
        !after_outcomes(total, seen).0.fallback,
        after_outcomes(total, seen).0.position == seen.len(),
        after_outcomes(total, seen).0.partial == first_partial(seen),
        after_outcomes(total, seen).0.compiled == any_compiled(seen),
        seen.len() < total ==> after_outcomes(total, seen).0.phase == Phase::Compiling && after_outcomes(total, seen).1
            == Step::Compile(seen.len() as usize),
        seen.len() == total ==> after_outcomes(total, seen).0.phase == Phase::Done && after_outcomes(total, seen).1
            == Step::Finish(verdict_of_all(seen)),
    decreases seen.len(),
{
    if seen.len() > 0 {
        let front = seen.drop_last();
        assert(forall|i: int| 0 <= i < front.len() ==> front[i] == seen[i]);
        lemma_run_in_order(total, front);
        lemma_first_partial_index(front);
        assert(!ends_run(seen[seen.len() - 1]));
        if any_compiled(front) {
            let i = choose|i: int| 0 <= i < front.len() && (#[trigger] front[i]) is Compiled;
            assert(seen[i] is Compiled);
        }
        if any_compiled(seen) && !any_compiled(front) {
            let i = choose|i: int| 0 <= i < seen.len() && (#[trigger] seen[i]) is Compiled;
            if i < front.len() {
                assert(front[i] is Compiled);
            }
        }
        if seen.last() is Compiled {
            assert(seen[seen.len() - 1] is Compiled);
        }
    }
}

/// The first partial match, where there is one, names a candidate among
/// those seen and a partial match.
pub proof fn lemma_first_partial_index(seen: Seq<Observed>)
    ensures
        first_partial(seen) matches Some(found) ==> found.candidate < seen.len()
            && found.match_type == MatchType::Partial,
    decreases seen.len(),
{
    if seen.len() > 0 {
        lemma_first_partial_index(seen.drop_last());
    }
}

/// A full match, a crash or a mismatch of versions is reported at once,
/// for the candidate it came with, whatever partial matches were found
/// before.
pub proof fn lemma_run_ends_at_first_end(total: usize, seen: Seq<Observed>)
    requires
        0 < seen.len() <= total,
        forall|i: int| 0 <= i < seen.len() - 1 ==> !ends_run(#[trigger] seen[i]),
        ends_run(seen.last()),
    ensures
        after_outcomes(total, seen).0.phase == Phase::Done,
        after_outcomes(total, seen).1 == Step::Finish(verdict_at(seen.last(), (seen.len() - 1) as usize)),
{
    let front = seen.drop_last();
    assert(forall|i: int| 0 <= i < front.len() ==> front[i] == seen[i]);
    lemma_run_in_order(total, front);
}

/// Once a run has ended, nothing that it is told changes its verdict.
pub proof fn lemma_run_stays_ended(total: usize, seen: Seq<Observed>, more: Observed)
    requires
        after_outcomes(total, seen).0.phase == Phase::Done,
    ensures
        after_outcomes(total, seen.push(more)) == after_outcomes(total, seen),
{
    assert(seen.push(more).drop_last() =~= seen);
}

/// The fallback provider is asked only after a failed verification, and
/// never a second time.
pub proof fn lemma_fallback_asked_once(state: Pipeline, seen: Observed, hit: bool)
    requires
        state.wf(),
    ensures
        state.phase == Phase::Compiling && state.advanced(seen).1 == Step::Lookup ==> {
            &&& state.fallback
            &&& !state.consulted
            &&& state.advanced(seen).0.pending matches Some(verdict)
                && verdict.is_failed_verification()
        },
        state.phase == Phase::Consulting ==> state.resumed(hit).0.consulted && state.resumed(
            hit,
        ).1 != Step::Lookup,
        state.phase == Phase::Consulting && !hit ==> state.resumed(hit).1 == Step::Finish(
            state.pending.unwrap(),
        ),
{
}

} // verus!
