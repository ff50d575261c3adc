//! How a verification ends, and what the caller is told.
//!
//! A failure of the submitted code to match is an ordinary answer with the
//! status `Failure`. A request that names a version that does not exist is
//! refused as an invalid argument. A failure of the system, be it a failed
//! start or an internal error, is reported as a failure of the service and
//! never dressed up as a verification outcome or blamed on the request.

use vstd::prelude::*;
use vstd::string::*;
use crate::artifact::{CompilationArtifact, SourceInput};
use crate::matcher::MatchType;
use crate::version::CompilerVersion;

verus! {

/// Why a verification did not end in a match.
#[derive(Debug)]
pub enum VerificationError {
    /// The catalog or the compiler pool failed to start.
    Initialization(String),
    /// The requested version, given by its text, is not in the catalog.
    VersionNotFound(String),
    /// The compiler ran and rejected the sources; its diagnostics.
    Compilation(Vec<String>),
    /// The compiler reported another version of itself than the one asked
    /// for; what it reported.
    CompilerVersionMismatch(String),
    /// The sources compiled, but no contract matches the bytecode.
    NoMatchingContracts,
    /// The compiler crashed, or storage or the adapter failed.
    Internal(String),
}

/// A successful verification.
#[derive(Debug)]
pub struct MatchResult {
    pub contract_name: String,
    pub match_type: MatchType,
    /// The version whose output matched.
    pub compiler_version: CompilerVersion,
    /// The whole output of that compiler run: each contract with its name
    /// and its abi.
    pub artifact: CompilationArtifact,
    /// The sources that were compiled, with their settings.
    pub input: SourceInput,
    /// What the compiler said of the candidates that were tried before and
    /// did not compile.
    pub diagnostics: Vec<String>,
}

#[derive(Clone, Copy, Debug, PartialEq, Eq, Structural)]
pub enum Status {
    /// The bytecode was verified.
    Success,
    /// The bytecode could not be verified.
    Failure,
}

/// The answer to a verification request that was understood and processed.
#[derive(Debug)]
pub struct VerifyResponse {
    pub status: Status,
    /// How well the bytecode matched, if it did.
    pub match_type: Option<MatchType>,
    /// The compiler version whose output matched, if any did.
    pub compiler_version_used: Option<CompilerVersion>,
    /// Why the bytecode could not be verified, if it could not.
    pub message: Option<String>,
    /// The match with the compiler's output, if there is one.
    pub matched: Option<MatchResult>,
}

impl VerifyResponse {
    /// The answer to a request whose bytecode could not be verified.
    pub fn failure(message: String) -> (response: Self)
        ensures
            response == (VerifyResponse {
                status: Status::Failure,
                match_type: None,
                compiler_version_used: None,
                message: Some(message),
                matched: None,
            }),
    {
        VerifyResponse {
            status: Status::Failure,
            match_type: None,
            compiler_version_used: None,
            message: Some(message),
            matched: None,
        }
    }

    /// The answer to a request whose bytecode was verified.
    pub fn success(found: MatchResult) -> (response: Self)
        ensures
            response == (VerifyResponse {
                status: Status::Success,
                match_type: Some(found.match_type),
                compiler_version_used: Some(found.compiler_version),
                message: None,
                matched: Some(found),
            }),
    {
        VerifyResponse {
            status: Status::Success,
            match_type: Some(found.match_type),
            compiler_version_used: Some(found.compiler_version),
            message: None,
            matched: Some(found),
        }
    }
}

/// What goes back to the caller: an answer, or a transport-level failure.
#[derive(Debug)]
pub enum Reply {
    Response(VerifyResponse),
    /// The request is at fault.
    InvalidArgument(String),
    /// The service is at fault.
    Internal(String),
}

/// Why the document of a standard-json request could not be used.
#[derive(Debug)]
pub enum StandardJsonParseError {
    /// The document cannot be used as the compiler's input; the complaint
    /// of whoever read it.
    InvalidContent(String),
    /// The call itself is malformed.
    BadRequest(String),
}

/// The lines of a list, each followed by a line feed.
pub open spec fn joined(lines: Seq<String>) -> Seq<char>
    decreases lines.len(),
{
    if lines.len() == 0 {
        Seq::empty()
    } else {
        joined(lines.drop_last()) + lines.last()@ + "\n"@
    }
}

/// Joins the lines of a list, ending each with a line feed.
pub fn join_lines(lines: &Vec<String>) -> (text: String)
    ensures
        text@ == joined(lines@),
{
    let mut text = String::new();
    let mut i: usize = 0;
    while i < lines.len()
        invariant
            i <= lines.len(),
            text@ == joined(lines@.take(i as int)),
        decreases lines.len() - i,
    {
        proof {
            assert(lines@.take(i + 1).drop_last() =~= lines@.take(i as int));
            assert(lines@.take(i + 1).last() == lines@[i as int]);
        }
        text.append(lines[i].as_str());
        text.append("\n");
        i += 1;
    }
    assert(lines@.take(lines.len() as int) =~= lines@);
    text
}

impl VerificationError {
    /// The error in words.
    pub open spec fn message_text(self) -> Seq<char> {
        match self {
            VerificationError::Initialization(reason) => "Initialization error: "@ + reason@,
            VerificationError::VersionNotFound(version) => "Compiler version not found: "@
                + version@,
            VerificationError::Compilation(diagnostics) => "Compilation error: "@ + joined(
                diagnostics@,
            ),
            VerificationError::CompilerVersionMismatch(reported) => "Compiler version mismatch: "@
                + reported@,
            VerificationError::NoMatchingContracts => "No contract could be verified with provided data"@,
            VerificationError::Internal(reason) => reason@,
        }
    }

    /// The submitted code is at fault, not the request and not the service:
    /// such an error is answered with the status `Failure`.
    pub open spec fn is_verdict(self) -> bool {
        match self {
            VerificationError::Compilation(_) => true,
            VerificationError::CompilerVersionMismatch(_) => true,
            VerificationError::NoMatchingContracts => true,
            _ => false,
        }
    }

    /// The service is at fault, not the request and not the submitted
    /// code: it failed to start, or it failed while it worked.
    pub open spec fn is_system_failure(self) -> bool {
        self is Initialization || self is Internal
    }

    /// The error in words.
    pub fn message(&self) -> (text: String)
        ensures
            text@ == self.message_text(),
    {
        match self {
            VerificationError::Initialization(reason) => {
                String::from_str("Initialization error: ").concat(reason.as_str())
            },
            VerificationError::VersionNotFound(version) => {
                String::from_str("Compiler version not found: ").concat(version.as_str())
            },
            VerificationError::Compilation(diagnostics) => {
                let lines = join_lines(diagnostics);
                String::from_str("Compilation error: ").concat(lines.as_str())
            },
            VerificationError::CompilerVersionMismatch(reported) => {
                String::from_str("Compiler version mismatch: ").concat(reported.as_str())
            },
            VerificationError::NoMatchingContracts => {
                String::from_str("No contract could be verified with provided data")
            },
            VerificationError::Internal(reason) => reason.clone(),
        }
    }
}

impl Status {
    pub open spec fn name_text(self) -> Seq<char> {
        match self {
            Status::Success => "SUCCESS"@,
            Status::Failure => "FAILURE"@,
        }
    }

    /// The name under which the status is counted.
    pub fn as_str_name(&self) -> (name: &'static str)
        ensures
            name@ == self.name_text(),
    {
        match self {
            Status::Success => "SUCCESS",
            Status::Failure => "FAILURE",
        }
    }
}

/// `reply` is what the caller is told of `result`: a match is answered with
/// the status `Success`; a failure of the code to verify with the status
/// `Failure` and the error in words; a version that is not known as an
/// invalid argument; a failed start and an internal error as a failure of
/// the service, each with the error in words.
pub open spec fn is_reply_to(result: Result<MatchResult, VerificationError>, reply: Reply) -> bool {
    match result {
        Ok(found) => reply matches Reply::Response(response) && response.status == Status::Success
            && response.match_type == Some(found.match_type) && response.compiler_version_used
            == Some(found.compiler_version) && response.message.is_none() && response.matched
            == Some(found),
        Err(error) => {
            if error.is_verdict() {
                reply matches Reply::Response(response) && response.status == Status::Failure
                    && response.match_type.is_none() && response.compiler_version_used.is_none()
                    && response.matched.is_none() && (response.message matches Some(text)
                    && text@ == error.message_text())
            } else if error.is_system_failure() {
                reply matches Reply::Internal(text) && text@ == error.message_text()
            } else {
                reply matches Reply::InvalidArgument(text) && text@ == error.message_text()
            }
        },
    }
}

/// Turns the end of a verification into what the caller is told.
pub fn reply_to(result: Result<MatchResult, VerificationError>) -> (reply: Reply)
    ensures
        is_reply_to(result, reply),
{
    match result {
        Ok(found) => Reply::Response(VerifyResponse::success(found)),
        Err(error) => {
            let text = error.message();
            match error {
                VerificationError::Compilation(_) => Reply::Response(
                    VerifyResponse::failure(text),
                ),
                VerificationError::CompilerVersionMismatch(_) => Reply::Response(
                    VerifyResponse::failure(text),
                ),
                VerificationError::NoMatchingContracts => Reply::Response(
                    VerifyResponse::failure(text),
                ),
                VerificationError::Initialization(_) => Reply::Internal(text),
                VerificationError::VersionNotFound(_) => Reply::InvalidArgument(text),
                VerificationError::Internal(_) => Reply::Internal(text),
            }
        },
    }
}

/// `reply` is what the caller is told of a standard-json document that
/// could not be used: bad content is an ordinary answer with the status
/// `Failure`, a malformed call is an invalid argument.
pub open spec fn is_reply_to_parse_error(error: StandardJsonParseError, reply: Reply) -> bool {
    match error {
        StandardJsonParseError::InvalidContent(reason) => reply matches Reply::Response(response)
            && response.status == Status::Failure && response.match_type.is_none()
            && response.compiler_version_used.is_none() && response.matched.is_none() && (
        response.message matches Some(text) && text@ == reason@),
        StandardJsonParseError::BadRequest(reason) => reply matches Reply::InvalidArgument(text)
            && text@ == reason@,
    }
}

/// Turns a standard-json document that could not be used into what the
/// caller is told.
pub fn reply_to_parse_error(error: StandardJsonParseError) -> (reply: Reply)
    ensures
        is_reply_to_parse_error(error, reply),
{
    match error {
        StandardJsonParseError::InvalidContent(reason) => Reply::Response(
            VerifyResponse::failure(reason),
        ),
        StandardJsonParseError::BadRequest(reason) => Reply::InvalidArgument(reason),
    }
}

/// A failure of the system, a failed start or an internal error, is always
/// answered as a failure of the service: never as a verification outcome
/// and never as an invalid argument. A failure of the code to verify is
/// never a transport-level failure. Only a version that is not known is
/// the request's fault.
pub proof fn lemma_reply_kinds(result: Result<MatchResult, VerificationError>, reply: Reply)
    requires
        is_reply_to(result, reply),
    ensures
        reply is Response <==> (result is Ok || (result matches Err(error)
            && error.is_verdict())),
        reply is Internal <==> (result matches Err(error) && error.is_system_failure()),
        reply is InvalidArgument <==> (result matches Err(error) && error is VersionNotFound),
        reply matches Reply::Response(response) ==> (response.status == Status::Success
            <==> result is Ok),
{
}

} // verus!
