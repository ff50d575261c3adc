//! What the end of a compiler process means.
//!
//! A compiler that exits with a code of its own has run: with zero it has
//! printed its output, with anything else it has rejected the sources and
//! said why on its error stream. A compiler that ends without an exit code
//! has crashed. Output that lists errors is a rejection too, whatever the
//! exit code. Output without contracts is no failure.

use vstd::prelude::*;
use crate::artifact::CompilationArtifact;
use crate::pipeline::CompileOutcome;

verus! {

/// How a compiler process ended, as far as a verification cares.
#[derive(Clone, Copy, Debug, PartialEq, Eq, Structural)]
pub enum ExitKind {
    /// The compiler accepted the sources; its output is to be read.
    Succeeded,
    /// The compiler ran to its end and rejected the sources.
    Rejected,
    /// The process ended without an exit code of its own: it was killed or
    /// could not be run.
    Crashed,
}

/// The meaning of an exit code; `None` stands for a process that ended
/// without one.
pub open spec fn exit_kind(code: Option<i32>) -> ExitKind {
    match code {
        Some(0) => ExitKind::Succeeded,
        Some(_) => ExitKind::Rejected,
        None => ExitKind::Crashed,
    }
}

/// Tells a compiler that rejected the sources from one that crashed.
pub fn classify_exit(code: Option<i32>) -> (kind: ExitKind)
    ensures
        kind == exit_kind(code),
{
    match code {
        Some(0) => ExitKind::Succeeded,
        Some(_) => ExitKind::Rejected,
        None => ExitKind::Crashed,
    }
}

/// What was read from the output of a compiler that exited with zero.
#[derive(Debug)]
pub struct CompilerOutput {
    /// The errors that the output lists. Warnings are not among them.
    pub errors: Vec<String>,
    pub artifact: CompilationArtifact,
}

/// All that is known of a compiler process that has ended.
#[derive(Debug)]
pub struct ProcessReport {
    /// The exit code, unless the process ended without one.
    pub exit_code: Option<i32>,
    /// How the process ended, in words.
    pub status: String,
    /// The lines of the error stream.
    pub stderr: Vec<String>,
    /// The output as read, or why it could not be read.
    pub output: Result<CompilerOutput, String>,
}

/// What a compiler run came to, given all that is known of the process: a
/// crash where it ended without an exit code or printed what cannot be
/// read; a rejection, with the compiler's words, where it exited with
/// another code than zero or lists errors; else its output, which may hold
/// no contract at all.
pub open spec fn run_outcome(report: ProcessReport) -> CompileOutcome {
    match exit_kind(report.exit_code) {
        ExitKind::Crashed => CompileOutcome::Crashed(report.status),
        ExitKind::Rejected => CompileOutcome::Rejected(report.stderr),
        ExitKind::Succeeded => match report.output {
            Err(reason) => CompileOutcome::Crashed(reason),
            Ok(output) => if output.errors@.len() > 0 {
                CompileOutcome::Rejected(output.errors)
            } else {
                CompileOutcome::Compiled(output.artifact)
            },
        },
    }
}

/// Sums up a compiler process that has ended.
pub fn interpret_run(report: ProcessReport) -> (outcome: CompileOutcome)
    ensures
        outcome == run_outcome(report),
{
    match classify_exit(report.exit_code) {
        ExitKind::Crashed => CompileOutcome::Crashed(report.status),
        ExitKind::Rejected => CompileOutcome::Rejected(report.stderr),
        ExitKind::Succeeded => match report.output {
            Err(reason) => CompileOutcome::Crashed(reason),
            Ok(output) => if output.errors.len() > 0 {
                CompileOutcome::Rejected(output.errors)
            } else {
                CompileOutcome::Compiled(output.artifact)
            },
        },
    }
}

/// Output without contracts is passed on as it is: that nothing was
/// compiled is for the matching to find out.
pub proof fn lemma_empty_output_is_no_error(report: ProcessReport)
    requires
        report.exit_code == Some(0i32),
        report.output matches Ok(output) && output.errors@.len() == 0
            && output.artifact.contracts@.len() == 0,
    ensures
        run_outcome(report) matches CompileOutcome::Compiled(artifact)
            && artifact.contracts@.len() == 0,
{
}

} // verus!
