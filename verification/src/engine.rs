//! One verification from its first candidate to its result.
//!
//! A [`Verification`] keeps what a run of the pipeline has to remember: the
//! candidates, the bytecode to match, the sources being compiled, the
//! output of the compiler run that matched partially, and what the compiler
//! said of the candidates that did not compile. It is fed the outcome of
//! each compiler run and answers with the next action, the last of which
//! carries the result.

use vstd::prelude::*;
use crate::artifact::{CompilationArtifact, SourceInput, SubmittedBytecode};
use crate::catalog::{is_candidates, VersionCatalog, VersionDemand};
use crate::matcher::MatchType;
use crate::outcome::{MatchResult, VerificationError};
use crate::pipeline::{is_observation, observe, CompileOutcome, Observed, Phase, Pipeline, Step, Verdict};
use crate::version::CompilerVersion;

verus! {

/// What the caller is to do next.
#[derive(Debug)]
pub enum Action {
    /// Compile the sources that the verification holds with this version
    /// and feed the outcome back.
    Compile(CompilerVersion),
    /// Ask the fallback provider about the contract and hand its answer in.
    Lookup,
    /// The verification is over.
    Done(Result<MatchResult, VerificationError>),
}

/// What a fallback provider knows of a contract: the sources and settings
/// it was built from, and the bytecode to expect of them.
#[derive(Debug)]
pub struct Fallback {
    pub input: SourceInput,
    pub expected_bytecode: Vec<u8>,
}

/// The diagnostics of the compiler runs that rejected the sources, in the
/// order of the runs.
pub open spec fn rejected_lines(fed: Seq<CompileOutcome>) -> Seq<String>
    decreases fed.len(),
{
    if fed.len() == 0 {
        Seq::empty()
    } else {
        let before = rejected_lines(fed.drop_last());
        match fed.last() {
            CompileOutcome::Rejected(lines) => before + lines@,
            _ => before,
        }
    }
}

/// `result` is what a verdict comes to, given the candidates, the sources
/// that were compiled and the outcomes of the compiler runs: a match names
/// the contract and carries the output of the run that produced it and the
/// sources that went into it; a failed compilation carries the diagnostics
/// of all runs; a mismatch carries the version that the compiler reported;
/// a crash carries its reason.
pub open spec fn is_conclusion(
    verdict: Verdict,
    result: Result<MatchResult, VerificationError>,
    candidates: Seq<CompilerVersion>,
    fed: Seq<CompileOutcome>,
    input: Option<SourceInput>,
) -> bool {
    match verdict {
        Verdict::Matched(found) => found.candidate < fed.len() && found.candidate
            < candidates.len() && (match (fed[found.candidate as int], result) {
            (CompileOutcome::Compiled(artifact), Ok(matched)) => {
                &&& found.contract < artifact.contracts.len()
                &&& matched.match_type == found.match_type
                &&& matched.compiler_version == candidates[found.candidate as int]
                &&& matched.artifact == artifact
                &&& matched.contract_name == artifact.contracts[found.contract as int].name
                &&& matched.diagnostics@ == rejected_lines(fed)
                &&& input == Some(matched.input)
            },
            _ => false,
        }),
        Verdict::CompilationFailed => result matches Err(VerificationError::Compilation(lines))
            && lines@ == rejected_lines(fed),
        Verdict::VersionMismatch(at) => at < fed.len() && (match (fed[at as int], result) {
            (
                CompileOutcome::Compiled(artifact),
                Err(VerificationError::CompilerVersionMismatch(reported)),
            ) => reported == artifact.compiler_version,
            _ => false,
        }),
        Verdict::NoMatch => result matches Err(VerificationError::NoMatchingContracts),
        Verdict::Crashed(at) => at < fed.len() && (match (fed[at as int], result) {
            (CompileOutcome::Crashed(reason), Err(VerificationError::Internal(told))) => told
                == reason,
            _ => false,
        }),
    }
}

/// `action` is what a step of the pipeline asks of the caller.
pub open spec fn is_action(
    step: Step,
    action: Action,
    candidates: Seq<CompilerVersion>,
    fed: Seq<CompileOutcome>,
    input: Option<SourceInput>,
) -> bool {
    match step {
        Step::Compile(at) => at < candidates.len() && action == Action::Compile(
            candidates[at as int],
        ),
        Step::Lookup => action is Lookup,
        Step::Finish(verdict) => action matches Action::Done(result) && is_conclusion(
            verdict,
            result,
            candidates,
            fed,
            input,
        ),
    }
}

/// One verification under way.
pub struct Verification {
    candidates: Vec<CompilerVersion>,
    submitted: SubmittedBytecode,
    hint: Option<String>,
    /// The sources to compile; handed out with the match.
    input: Option<SourceInput>,
    pipeline: Pipeline,
    /// The output of the run that gave the first partial match.
    kept: Option<CompilationArtifact>,
    /// The version that a compiler reported in place of the one asked for.
    reported: Option<String>,
    diagnostics: Vec<String>,
    fed: Ghost<Seq<CompileOutcome>>,
}

impl Verification {
    /// The state of the pipeline.
    pub closed spec fn state(&self) -> Pipeline {
        self.pipeline
    }

    /// The candidate versions, in the order in which they are tried.
    pub closed spec fn candidates(&self) -> Seq<CompilerVersion> {
        self.candidates@
    }

    /// The outcomes fed in since the candidates were last started on.
    pub closed spec fn fed(&self) -> Seq<CompileOutcome> {
        self.fed@
    }

    /// The bytecode that is being matched.
    pub closed spec fn submitted(&self) -> SubmittedBytecode {
        self.submitted
    }

    pub closed spec fn hint(&self) -> Option<String> {
        self.hint
    }

    /// The sources that are being compiled; none once they were handed out
    /// with a match.
    pub closed spec fn sources(&self) -> Option<SourceInput> {
        self.input
    }

    /// What the verification remembers agrees with what it was fed.
    pub closed spec fn wf(&self) -> bool {
        &&& self.pipeline.wf()
        &&& self.pipeline.total == self.candidates@.len()
        &&& self.pipeline.phase != Phase::Done ==> {
            &&& self.input.is_some()
            &&& self.diagnostics@ == rejected_lines(self.fed@)
            &&& self.pipeline.phase == Phase::Compiling ==> self.fed@.len()
                == self.pipeline.position
            &&& match self.pipeline.partial {
                Some(found) => found.candidate < self.fed@.len() && (match self.kept {
                    Some(artifact) => self.fed@[found.candidate as int]
                        == CompileOutcome::Compiled(artifact) && found.contract
                        < artifact.contracts.len(),
                    None => false,
                }),
                None => self.kept.is_none(),
            }
            &&& self.pipeline.phase == Phase::Consulting ==> (match self.pipeline.pending {
                Some(Verdict::VersionMismatch(at)) => at < self.fed@.len() && (match (
                    self.fed@[at as int],
                    self.reported,
                ) {
                    (CompileOutcome::Compiled(artifact), Some(text)) => text
                        == artifact.compiler_version,
                    _ => false,
                }),
                Some(Verdict::CompilationFailed) => true,
                Some(Verdict::NoMatch) => true,
                _ => false,
            })
        }
    }

    /// The outcome of a compiler run is awaited.
    pub open spec fn awaits_outcome(&self) -> bool {
        self.state().phase == Phase::Compiling
    }

    /// The answer of the fallback provider is awaited.
    pub open spec fn awaits_answer(&self) -> bool {
        self.state().phase == Phase::Consulting
    }

    /// Whether the outcome of a compiler run is awaited.
    pub fn is_compiling(&self) -> (compiling: bool)
        ensures
            compiling == self.awaits_outcome(),
    {
        matches!(self.pipeline.phase, Phase::Compiling)
    }

    /// Whether the answer of the fallback provider is awaited.
    pub fn is_consulting(&self) -> (consulting: bool)
        ensures
            consulting == self.awaits_answer(),
    {
        matches!(self.pipeline.phase, Phase::Consulting)
    }

    /// The sources to compile.
    pub fn input(&self) -> (input: Option<&SourceInput>)
        ensures
            match input {
                Some(held) => self.sources() == Some(*held),
                None => self.sources().is_none(),
            },
            self.wf() && (self.awaits_outcome() || self.awaits_answer()) ==> input.is_some(),
    {
        self.input.as_ref()
    }

    /// Hands out what was recorded of the rejected candidates.
    fn take_diagnostics(&mut self) -> (lines: Vec<String>)
        ensures
            lines@ == old(self).diagnostics@,
            final(self).diagnostics@.len() == 0,
            final(self).candidates == old(self).candidates,
            final(self).submitted == old(self).submitted,
            final(self).hint == old(self).hint,
            final(self).input == old(self).input,
            final(self).pipeline == old(self).pipeline,
            final(self).kept == old(self).kept,
            final(self).reported == old(self).reported,
            final(self).fed == old(self).fed,
    {
        let mut lines: Vec<String> = Vec::new();
        lines.append(&mut self.diagnostics);
        assert(lines@ =~= old(self).diagnostics@);
        lines
    }

    /// What a verdict needs of the verification to be turned into a
    /// result. `current` is the output of the run that has just matched in
    /// full, `reason` what was said of the run that has just crashed.
    closed spec fn can_conclude(
        &self,
        verdict: Verdict,
        current: Option<CompilationArtifact>,
        reason: Option<String>,
    ) -> bool {
        &&& self.diagnostics@ == rejected_lines(self.fed@)
        &&& self.pipeline.total == self.candidates@.len()
        &&& match verdict {
            Verdict::Matched(found) => self.input.is_some() && found.candidate
                < self.fed@.len() && found.candidate < self.candidates@.len() && (match (
                if found.match_type == MatchType::Full {
                    current
                } else {
                    self.kept
                }) {
                Some(artifact) => self.fed@[found.candidate as int]
                    == CompileOutcome::Compiled(artifact) && found.contract
                    < artifact.contracts.len(),
                None => false,
            }),
            Verdict::VersionMismatch(at) => at < self.fed@.len() && (match (
                self.fed@[at as int],
                self.reported,
            ) {
                (CompileOutcome::Compiled(artifact), Some(text)) => text
                    == artifact.compiler_version,
                _ => false,
            }),
            Verdict::Crashed(at) => at < self.fed@.len() && (match reason {
                Some(text) => self.fed@[at as int] == CompileOutcome::Crashed(text),
                None => false,
            }),
            _ => true,
        }
    }

    /// Turns a verdict into the result that the caller gets.
    fn conclude(
        &mut self,
        verdict: Verdict,
        current: Option<CompilationArtifact>,
        reason: Option<String>,
    ) -> (result: Result<MatchResult, VerificationError>)
        requires
            old(self).can_conclude(verdict, current, reason),
        ensures
            is_conclusion(
                verdict,
                result,
                old(self).candidates@,
                old(self).fed@,
                old(self).input,
            ),
            final(self).candidates == old(self).candidates,
            final(self).submitted == old(self).submitted,
            final(self).hint == old(self).hint,
            final(self).pipeline == old(self).pipeline,
            final(self).fed == old(self).fed,
    {
        match verdict {
            Verdict::Matched(found) => {
                let source = match found.match_type {
                    MatchType::Full => current,
                    MatchType::Partial => self.kept.take(),
                };
                let diagnostics = self.take_diagnostics();
                match (source, self.input.take()) {
                    (Some(artifact), Some(input)) => {
                        let contract_name = artifact.contracts[found.contract].name.clone();
                        Ok(
                            MatchResult {
                                contract_name,
                                match_type: found.match_type,
                                compiler_version: self.candidates[found.candidate],
                                artifact,
                                input,
                                diagnostics,
                            },
                        )
                    },
                    _ => Err(VerificationError::NoMatchingContracts),
                }
            },
            Verdict::CompilationFailed => Err(
                VerificationError::Compilation(self.take_diagnostics()),
            ),
            Verdict::VersionMismatch(_) => match self.reported.take() {
                Some(text) => Err(VerificationError::CompilerVersionMismatch(text)),
                None => Err(VerificationError::NoMatchingContracts),
            },
            Verdict::NoMatch => Err(VerificationError::NoMatchingContracts),
            Verdict::Crashed(_) => match reason {
                Some(text) => Err(VerificationError::Internal(text)),
                None => Err(VerificationError::NoMatchingContracts),
            },
        }
    }

    /// Turns a step of the pipeline into what is asked of the caller.
    fn act(
        &mut self,
        step: Step,
        current: Option<CompilationArtifact>,
        reason: Option<String>,
    ) -> (action: Action)
        requires
            old(self).pipeline.total == old(self).candidates@.len(),
            step matches Step::Compile(at) ==> at < old(self).candidates@.len(),
            step matches Step::Finish(verdict) ==> old(self).can_conclude(
                verdict,
                current,
                reason,
            ),
        ensures
            is_action(step, action, old(self).candidates@, old(self).fed@, old(self).input),
            final(self).candidates == old(self).candidates,
            final(self).submitted == old(self).submitted,
            final(self).hint == old(self).hint,
            final(self).pipeline == old(self).pipeline,
            final(self).fed == old(self).fed,
            !(step is Finish) ==> *final(self) == *old(self),
    {
        match step {
            Step::Compile(at) => Action::Compile(self.candidates[at]),
            Step::Lookup => Action::Lookup,
            Step::Finish(verdict) => Action::Done(self.conclude(verdict, current, reason)),
        }
    }

    /// Starts a verification of the given sources over the given
    /// candidates. `fallback` says whether a fallback provider is there to
    /// be asked.
    pub fn begin(
        candidates: Vec<CompilerVersion>,
        submitted: SubmittedBytecode,
        hint: Option<String>,
        input: SourceInput,
        fallback: bool,
    ) -> (begun: (Verification, Action))
        ensures
            begun.0.wf(),
            begun.0.candidates() == candidates@,
            begun.0.submitted() == submitted,
            begun.0.hint() == hint,
            begun.0.fed() == Seq::<CompileOutcome>::empty(),
            begun.0.state() == Pipeline::started(candidates.len(), fallback).0,
            !(begun.1 is Done) ==> begun.0.sources() == Some(input),
            is_action(
                Pipeline::started(candidates.len(), fallback).1,
                begun.1,
                candidates@,
                Seq::<CompileOutcome>::empty(),
                Some(input),
            ),
    {
        let (pipeline, step) = Pipeline::start(candidates.len(), fallback);
        let mut verification = Verification {
            candidates,
            submitted,
            hint,
            input: Some(input),
            pipeline,
            kept: None,
            reported: None,
            diagnostics: Vec::new(),
            fed: Ghost(Seq::empty()),
        };
        let action = verification.act(step, None, None);
        (verification, action)
    }

    /// Starts a verification of the versions that a demand names. A version
    /// that the catalog does not know ends it before anything is compiled.
    pub fn open(
        catalog: &VersionCatalog,
        demand: &VersionDemand,
        submitted: SubmittedBytecode,
        hint: Option<String>,
        input: SourceInput,
        fallback: bool,
    ) -> (opened: Result<(Verification, Action), VerificationError>)
        requires
            catalog.wf(),
        ensures
            match opened {
                Ok(begun) => {
                    &&& begun.0.wf()
                    &&& begun.0.submitted() == submitted
                    &&& begun.0.hint() == hint
                    &&& begun.0.fed() == Seq::<CompileOutcome>::empty()
                    &&& begun.0.state() == Pipeline::started(
                        begun.0.candidates().len() as usize,
                        fallback,
                    ).0
                    &&& !(begun.1 is Done) ==> begun.0.sources() == Some(input)
                    &&& is_action(
                        Pipeline::started(begun.0.candidates().len() as usize, fallback).1,
                        begun.1,
                        begun.0.candidates(),
                        Seq::<CompileOutcome>::empty(),
                        Some(input),
                    )
                    &&& exists|list: Vec<CompilerVersion>|
                        list@ == begun.0.candidates() && #[trigger] is_candidates(
                            catalog@,
                            *demand,
                            Ok(list),
                        )
                },
                Err(error) => is_candidates(catalog@, *demand, Err(error)),
            },
    {
        match catalog.candidates(demand) {
            Ok(list) => {
                assert(is_candidates(catalog@, *demand, Ok(list)));
                Ok(Verification::begin(list, submitted, hint, input, fallback))
            },
            Err(error) => Err(error),
        }
    }

    /// Takes in the outcome of the compiler run for the current candidate
    /// and says what to do next.
    pub fn feed(&mut self, outcome: CompileOutcome) -> (action: Action)
        requires
            old(self).wf(),
            old(self).awaits_outcome(),
        ensures
            final(self).wf(),
            final(self).candidates() == old(self).candidates(),
            final(self).submitted() == old(self).submitted(),
            final(self).hint() == old(self).hint(),
            final(self).fed() == old(self).fed().push(outcome),
            !(action is Done) ==> final(self).sources() == old(self).sources(),
            old(self).state().position < old(self).candidates().len(),
            exists|seen: Observed|
                {
                    &&& #[trigger] is_observation(
                        outcome,
                        old(self).candidates()[old(self).state().position as int],
                        old(self).submitted(),
                        old(self).hint(),
                        seen,
                    )
                    &&& final(self).state() == old(self).state().advanced(seen).0
                    &&& is_action(
                        old(self).state().advanced(seen).1,
                        action,
                        final(self).candidates(),
                        final(self).fed(),
                        old(self).sources(),
                    )
                },
    {
        let here = self.pipeline.position;
        let candidate = self.candidates[here];
        let seen = observe(&outcome, &candidate, &self.submitted, &self.hint);
        let step = self.pipeline.advance(seen);
        let ghost before = self.fed@;
        proof {
            self.fed = Ghost(before.push(outcome));
            assert(self.fed@.drop_last() =~= before);
            assert(self.fed@.last() == outcome);
            assert(forall|i: int| 0 <= i < before.len() ==> self.fed@[i] == before[i]);
        }
        let mut current: Option<CompilationArtifact> = None;
        let mut reason: Option<String> = None;
        match outcome {
            CompileOutcome::Rejected(lines) => {
                let mut lines = lines;
                self.diagnostics.append(&mut lines);
            },
            CompileOutcome::Crashed(text) => {
                reason = Some(text);
            },
            CompileOutcome::Compiled(artifact) => {
                match seen {
                    Observed::Mismatched => {
                        self.reported = Some(artifact.compiler_version.clone());
                    },
                    Observed::Compiled(Some(chosen)) => {
                        match chosen.match_type {
                            MatchType::Full => {
                                current = Some(artifact);
                            },
                            MatchType::Partial => {
                                if self.kept.is_none() {
                                    self.kept = Some(artifact);
                                }
                            },
                        }
                    },
                    _ => {},
                }
            },
        }
        let action = self.act(step, current, reason);
        assert(is_observation(
            outcome,
            old(self).candidates()[old(self).state().position as int],
            old(self).submitted(),
            old(self).hint(),
            seen,
        ));
        action
    }

    /// Takes in the answer of the fallback provider. If it knows the
    /// contract, the candidates are tried once more, with the sources and
    /// settings that it returned and against the bytecode that it expects.
    /// If it does not, the verification ends as it would have without a
    /// provider.
    pub fn answer(&mut self, found: Option<Fallback>) -> (action: Action)
        requires
            old(self).wf(),
            old(self).awaits_answer(),
        ensures
            final(self).wf(),
            final(self).candidates() == old(self).candidates(),
            final(self).hint() == old(self).hint(),
            final(self).submitted().bytecode_type == old(self).submitted().bytecode_type,
            final(self).state() == old(self).state().resumed(found.is_some()).0,
            match found {
                Some(known) => final(self).submitted().bytes == known.expected_bytecode
                    && final(self).fed() == Seq::<CompileOutcome>::empty() && (!(action is Done)
                    ==> final(self).sources() == Some(known.input)),
                None => final(self).submitted() == old(self).submitted() && final(self).fed()
                    == old(self).fed(),
            },
            is_action(
                old(self).state().resumed(found.is_some()).1,
                action,
                final(self).candidates(),
                final(self).fed(),
                match found {
                    Some(known) => Some(known.input),
                    None => old(self).sources(),
                },
            ),
    {
        let hit = found.is_some();
        match found {
            Some(known) => {
                self.submitted.bytes = known.expected_bytecode;
                self.input = Some(known.input);
                self.kept = None;
                self.reported = None;
                self.diagnostics = Vec::new();
                proof {
                    self.fed = Ghost(Seq::empty());
                }
            },
            None => {},
        }
        let step = self.pipeline.resume(hit);
        self.act(step, None, None)
    }
}

} // verus!
