use bytecode_verifier::adapter::{classify_exit, interpret_run, CompilerOutput, ExitKind, ProcessReport};
use bytecode_verifier::artifact::{CompilationArtifact, ContractArtifact, Selection, SubmittedBytecode};
use bytecode_verifier::matcher::{BytecodeType, MatchType};
use bytecode_verifier::pipeline::{observe, CompileOutcome, Found, Observed, Phase, Pipeline, Step, Verdict};
use bytecode_verifier::version::CompilerVersion;

fn partial(index: usize) -> Observed {
    Observed::Compiled(Some(Selection { index, match_type: MatchType::Partial }))
}

fn full(index: usize) -> Observed {
    Observed::Compiled(Some(Selection { index, match_type: MatchType::Full }))
}

#[test]
fn a_run_starts_with_the_first_candidate() {
    let (pipeline, step) = Pipeline::start(3, false);
    assert_eq!(step, Step::Compile(0));
    assert_eq!(pipeline.phase, Phase::Compiling);
    assert_eq!(pipeline.position, 0);
}

#[test]
fn a_run_without_candidates_ends_at_once() {
    let (pipeline, step) = Pipeline::start(0, false);
    assert_eq!(step, Step::Finish(Verdict::CompilationFailed));
    assert_eq!(pipeline.phase, Phase::Done);
    let (pipeline, step) = Pipeline::start(0, true);
    assert_eq!(step, Step::Lookup);
    assert_eq!(pipeline.phase, Phase::Consulting);
}

#[test]
fn a_full_match_ends_the_run() {
    let (mut pipeline, _) = Pipeline::start(3, false);
    assert_eq!(
        pipeline.advance(full(2)),
        Step::Finish(Verdict::Matched(Found { candidate: 0, contract: 2, match_type: MatchType::Full }))
    );
    assert_eq!(pipeline.phase, Phase::Done);
}

#[test]
fn a_candidate_that_does_not_compile_is_passed_over() {
    let (mut pipeline, _) = Pipeline::start(3, false);
    assert_eq!(pipeline.advance(Observed::Rejected), Step::Compile(1));
    assert_eq!(pipeline.advance(Observed::Rejected), Step::Compile(2));
    assert_eq!(pipeline.advance(Observed::Rejected), Step::Finish(Verdict::CompilationFailed));
}

#[test]
fn a_later_full_match_outranks_an_earlier_partial_one() {
    let (mut pipeline, _) = Pipeline::start(3, false);
    assert_eq!(pipeline.advance(partial(0)), Step::Compile(1));
    assert_eq!(
        pipeline.advance(full(1)),
        Step::Finish(Verdict::Matched(Found { candidate: 1, contract: 1, match_type: MatchType::Full }))
    );
}

#[test]
fn the_first_partial_match_is_reported_when_nothing_matches_in_full() {
    let (mut pipeline, _) = Pipeline::start(3, false);
    assert_eq!(pipeline.advance(Observed::Rejected), Step::Compile(1));
    assert_eq!(pipeline.advance(partial(4)), Step::Compile(2));
    assert_eq!(
        pipeline.advance(partial(5)),
        Step::Finish(Verdict::Matched(Found { candidate: 1, contract: 4, match_type: MatchType::Partial }))
    );
}

#[test]
fn sources_that_compile_and_match_nothing_end_without_a_match() {
    let (mut pipeline, _) = Pipeline::start(2, false);
    assert_eq!(pipeline.advance(Observed::Rejected), Step::Compile(1));
    assert_eq!(pipeline.advance(Observed::Compiled(None)), Step::Finish(Verdict::NoMatch));
}

#[test]
fn a_crash_ends_the_run_at_once() {
    let (mut pipeline, _) = Pipeline::start(3, true);
    assert_eq!(pipeline.advance(partial(0)), Step::Compile(1));
    assert_eq!(pipeline.advance(Observed::Crashed), Step::Finish(Verdict::Crashed(1)));
    assert_eq!(pipeline.phase, Phase::Done);
}

#[test]
fn a_version_mismatch_ends_the_run() {
    let (mut pipeline, _) = Pipeline::start(3, false);
    assert_eq!(pipeline.advance(Observed::Mismatched), Step::Finish(Verdict::VersionMismatch(0)));
}

#[test]
fn the_fallback_is_asked_after_a_failed_verification() {
    let (mut pipeline, _) = Pipeline::start(1, true);
    assert_eq!(pipeline.advance(Observed::Compiled(None)), Step::Lookup);
    assert_eq!(pipeline.phase, Phase::Consulting);
    assert_eq!(pipeline.resume(false), Step::Finish(Verdict::NoMatch));
    assert_eq!(pipeline.phase, Phase::Done);
}

#[test]
fn after_a_hit_the_candidates_are_tried_once_more_and_the_fallback_is_not_asked_again() {
    let (mut pipeline, _) = Pipeline::start(2, true);
    assert_eq!(pipeline.advance(Observed::Rejected), Step::Compile(1));
    assert_eq!(pipeline.advance(Observed::Rejected), Step::Lookup);
    assert_eq!(pipeline.resume(true), Step::Compile(0));
    assert_eq!(pipeline.advance(Observed::Compiled(None)), Step::Compile(1));
    assert_eq!(pipeline.advance(Observed::Compiled(None)), Step::Finish(Verdict::NoMatch));
}

#[test]
fn the_fallback_is_not_asked_after_a_match_or_a_crash() {
    let (mut pipeline, _) = Pipeline::start(1, true);
    assert_eq!(
        pipeline.advance(partial(0)),
        Step::Finish(Verdict::Matched(Found { candidate: 0, contract: 0, match_type: MatchType::Partial }))
    );
    let (mut pipeline, _) = Pipeline::start(1, true);
    assert_eq!(pipeline.advance(Observed::Crashed), Step::Finish(Verdict::Crashed(0)));
}

#[test]
fn verdicts_of_failed_verification_are_told_apart() {
    assert!(Verdict::NoMatch.failed_verification());
    assert!(Verdict::CompilationFailed.failed_verification());
    assert!(Verdict::VersionMismatch(0).failed_verification());
    assert!(!Verdict::Crashed(0).failed_verification());
    assert!(!Verdict::Matched(Found { candidate: 0, contract: 0, match_type: MatchType::Full })
        .failed_verification());
}

fn artifact(version: &str, creation: Vec<u8>) -> CompilationArtifact {
    CompilationArtifact {
        compiler_version: version.to_string(),
        contracts: vec![ContractArtifact {
            name: "Token".to_string(),
            creation_bytecode: creation,
            runtime_bytecode: vec![],
            abi: "[]".to_string(),
            warnings: vec![],
        }],
    }
}

#[test]
fn observe_sums_up_a_compiler_run() {
    let candidate = CompilerVersion::new(0, 3, 7);
    let submitted = SubmittedBytecode { bytes: vec![1, 2, 3], bytecode_type: BytecodeType::Creation };
    assert_eq!(
        observe(&CompileOutcome::Crashed("killed".to_string()), &candidate, &submitted, &None),
        Observed::Crashed
    );
    assert_eq!(
        observe(&CompileOutcome::Rejected(vec!["bad".to_string()]), &candidate, &submitted, &None),
        Observed::Rejected
    );
    assert_eq!(
        observe(&CompileOutcome::Compiled(artifact("0.3.7", vec![1, 2, 3])), &candidate, &submitted, &None),
        Observed::Compiled(Some(Selection { index: 0, match_type: MatchType::Full }))
    );
    assert_eq!(
        observe(&CompileOutcome::Compiled(artifact("v0.3.7+commit.abc", vec![9])), &candidate, &submitted, &None),
        Observed::Compiled(None)
    );
    assert_eq!(
        observe(&CompileOutcome::Compiled(artifact("0.3.8", vec![1, 2, 3])), &candidate, &submitted, &None),
        Observed::Mismatched
    );
    assert_eq!(
        observe(&CompileOutcome::Compiled(artifact("unknown", vec![1, 2, 3])), &candidate, &submitted, &None),
        Observed::Mismatched
    );
}

#[test]
fn exit_codes_tell_rejection_from_a_crash() {
    assert_eq!(classify_exit(Some(0)), ExitKind::Succeeded);
    assert_eq!(classify_exit(Some(1)), ExitKind::Rejected);
    assert_eq!(classify_exit(Some(-1)), ExitKind::Rejected);
    assert_eq!(classify_exit(Some(137)), ExitKind::Rejected);
    assert_eq!(classify_exit(None), ExitKind::Crashed);
}

fn report(exit_code: Option<i32>, output: Result<CompilerOutput, String>) -> ProcessReport {
    ProcessReport {
        exit_code,
        status: "signal: 9".to_string(),
        stderr: vec!["token.vy:1:1: bad".to_string()],
        output,
    }
}

fn output_with(errors: Vec<String>, creation: Vec<u8>) -> CompilerOutput {
    CompilerOutput { errors, artifact: artifact("0.3.7", creation) }
}

#[test]
fn a_process_without_an_exit_code_has_crashed() {
    match interpret_run(report(None, Ok(output_with(vec![], vec![1])))) {
        CompileOutcome::Crashed(reason) => assert_eq!(reason, "signal: 9"),
        other => panic!("unexpected: {:?}", other),
    }
}

#[test]
fn a_process_with_another_exit_code_than_zero_has_rejected_the_sources() {
    match interpret_run(report(Some(1), Err("empty".to_string()))) {
        CompileOutcome::Rejected(lines) => assert_eq!(lines, vec!["token.vy:1:1: bad".to_string()]),
        other => panic!("unexpected: {:?}", other),
    }
}

#[test]
fn output_that_cannot_be_read_is_a_crash() {
    match interpret_run(report(Some(0), Err("unreadable compiler output".to_string()))) {
        CompileOutcome::Crashed(reason) => assert_eq!(reason, "unreadable compiler output"),
        other => panic!("unexpected: {:?}", other),
    }
}

#[test]
fn output_that_lists_errors_is_a_rejection() {
    match interpret_run(report(Some(0), Ok(output_with(vec!["undeclared".to_string()], vec![1])))) {
        CompileOutcome::Rejected(lines) => assert_eq!(lines, vec!["undeclared".to_string()]),
        other => panic!("unexpected: {:?}", other),
    }
}

#[test]
fn output_without_errors_is_passed_on() {
    match interpret_run(report(Some(0), Ok(output_with(vec![], vec![1, 2])))) {
        CompileOutcome::Compiled(found) => {
            assert_eq!(found.compiler_version, "0.3.7");
            assert_eq!(found.contracts[0].creation_bytecode, vec![1, 2]);
        },
        other => panic!("unexpected: {:?}", other),
    }
}

#[test]
fn output_without_contracts_is_no_error() {
    let empty = CompilerOutput {
        errors: vec![],
        artifact: CompilationArtifact { compiler_version: "0.3.7".to_string(), contracts: vec![] },
    };
    match interpret_run(report(Some(0), Ok(empty))) {
        CompileOutcome::Compiled(found) => assert!(found.contracts.is_empty()),
        other => panic!("unexpected: {:?}", other),
    }
}
