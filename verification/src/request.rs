//! Requests and their validation.
//!
//! Two things can be wrong with a request, and they are kept apart. A call
//! that is malformed in itself, with bytecode that is not hex or without
//! the bytecode's type, is refused outright. A standard-json document that
//! cannot be used is the submitter's failure to provide usable sources: it
//! is answered like any other failed verification.
//!
//! Of a document this module itself checks the syntax only: that it is
//! JSON. Whether a JSON document also has the shape of the compiler's
//! input is found out by whoever reads the sources out of it, and that
//! complaint is taken in as a value, by [`check_standard_json`].

use vstd::prelude::*;
use vstd::string::*;
use vstd::utf8::encode_utf8;
use crate::artifact::{SourceFile, SourceInput, SubmittedBytecode};
use crate::hex::{normalize, normalized};
use crate::matcher::BytecodeType;
use crate::outcome::StandardJsonParseError;
use crate::service::RequestMetadata;

verus! {

/// A request to verify bytecode against discrete source files.
#[derive(Debug)]
pub struct MultiPartRequest {
    pub bytecode: String,
    pub bytecode_type: Option<BytecodeType>,
    pub compiler_version: String,
    pub evm_version: Option<String>,
    pub source_files: Vec<SourceFile>,
    pub interfaces: Vec<SourceFile>,
    pub optimize: Option<bool>,
    /// The name of the contract that the caller expects to match, if the
    /// caller has one in mind.
    pub contract_name: Option<String>,
    pub metadata: Option<RequestMetadata>,
}

/// A request to verify bytecode against one standard-json document.
#[derive(Debug)]
pub struct StandardJsonRequest {
    pub bytecode: String,
    pub bytecode_type: Option<BytecodeType>,
    pub compiler_version: String,
    pub input: String,
    /// The name of the contract that the caller expects to match, if the
    /// caller has one in mind.
    pub contract_name: Option<String>,
    pub metadata: Option<RequestMetadata>,
}

/// What is wrong with a text as a JSON document, in the words of
/// `serde_json`; `None` for a text that is one.
pub uninterp spec fn json_fault(document: Seq<char>) -> Option<Seq<char>>;

/// Reads a text as a JSON value with `serde_json::from_str` and hands back
/// the parser's complaint, if it has one. The parser's verdict and its
/// words depend on the text alone. Trusted, not proved.
#[verifier::external_body]
fn parse_fault(document: &str) -> (fault: Option<String>)
    ensures
        match fault {
            Some(text) => json_fault(document@) == Some(text@),
            None => json_fault(document@).is_none(),
        },
{
    match serde_json::from_str::<serde_json::Value>(document) {
        Ok(_) => None,
        Err(error) => Some(error.to_string()),
    }
}

/// The bytecode of a request as raw bytes with its type, or the reason why
/// the call is malformed: the hex text is looked at first, then the type.
pub open spec fn is_checked_bytecode(
    bytecode: Seq<u8>,
    bytecode_type: Option<BytecodeType>,
    checked: Result<SubmittedBytecode, String>,
) -> bool {
    match (normalized(bytecode), bytecode_type) {
        (None, _) => checked matches Err(reason) && reason@ == "Invalid bytecode"@,
        (Some(_), None) => checked matches Err(reason) && reason@
            == "Bytecode type is unspecified"@,
        (Some(raw), Some(kind)) => checked matches Ok(submitted) && submitted.bytes@ == raw
            && submitted.bytecode_type == kind,
    }
}

/// Turns the bytecode of a request into raw bytes.
pub fn check_bytecode(bytecode: &str, bytecode_type: Option<BytecodeType>) -> (checked: Result<
    SubmittedBytecode,
    String,
>)
    ensures
        is_checked_bytecode(bytecode.spec_bytes(), bytecode_type, checked),
{
    match normalize(bytecode) {
        None => Err(String::from_str("Invalid bytecode")),
        Some(bytes) => match bytecode_type {
            None => Err(String::from_str("Bytecode type is unspecified")),
            Some(kind) => Ok(SubmittedBytecode { bytes, bytecode_type: kind }),
        },
    }
}

/// Validates a multi-part request. The error is the reason why the call is
/// malformed.
pub fn check_multi_part(request: &MultiPartRequest) -> (checked: Result<SubmittedBytecode, String>)
    ensures
        is_checked_bytecode(
            encode_utf8(request.bytecode@),
            request.bytecode_type,
            checked,
        ),
{
    check_bytecode(request.bytecode.as_str(), request.bytecode_type)
}

/// What is made of a standard-json request once its document has been
/// read: a malformed call is a bad request, whatever the document holds; a
/// document that is at fault is invalid content, with the parser's words.
pub open spec fn is_checked_standard_json(
    bytecode: Seq<u8>,
    bytecode_type: Option<BytecodeType>,
    fault: Option<String>,
    checked: Result<SubmittedBytecode, StandardJsonParseError>,
) -> bool {
    match (normalized(bytecode), bytecode_type) {
        (None, _) => checked matches Err(StandardJsonParseError::BadRequest(reason)) && reason@
            == "Invalid bytecode"@,
        (Some(_), None) => checked matches Err(StandardJsonParseError::BadRequest(reason))
            && reason@ == "Bytecode type is unspecified"@,
        (Some(raw), Some(kind)) => match fault {
            Some(words) => checked matches Err(StandardJsonParseError::InvalidContent(reason))
                && reason@ == "content is not a valid standard json: "@ + words@,
            None => checked matches Ok(submitted) && submitted.bytes@ == raw
                && submitted.bytecode_type == kind,
        },
    }
}

/// Validates a standard-json request whose document has been read already:
/// `fault` is what the reader complained of, be it the syntax or the shape
/// of the document, if anything.
pub fn check_standard_json(request: &StandardJsonRequest, fault: Option<String>) -> (checked:
    Result<SubmittedBytecode, StandardJsonParseError>)
    ensures
        is_checked_standard_json(
            encode_utf8(request.bytecode@),
            request.bytecode_type,
            fault,
            checked,
        ),
{
    match check_bytecode(request.bytecode.as_str(), request.bytecode_type) {
        Err(reason) => Err(StandardJsonParseError::BadRequest(reason)),
        Ok(submitted) => match fault {
            Some(words) => Err(
                StandardJsonParseError::InvalidContent(
                    String::from_str("content is not a valid standard json: ").concat(
                        words.as_str(),
                    ),
                ),
            ),
            None => Ok(submitted),
        },
    }
}

/// Validates a standard-json request as far as syntax goes: reads its
/// document as JSON, of whatever shape, and checks the call.
pub fn validate_standard_json(request: &StandardJsonRequest) -> (checked: Result<
    SubmittedBytecode,
    StandardJsonParseError,
>)
    ensures
        exists|fault: Option<String>|
            {
                &&& (match fault {
                    Some(words) => json_fault(request.input@) == Some(words@),
                    None => json_fault(request.input@).is_none(),
                })
                &&& #[trigger] is_checked_standard_json(
                    encode_utf8(request.bytecode@),
                    request.bytecode_type,
                    fault,
                    checked,
                )
            },
{
    let fault = parse_fault(request.input.as_str());
    let ghost seen = fault;
    let checked = check_standard_json(request, fault);
    assert(is_checked_standard_json(
        encode_utf8(request.bytecode@),
        request.bytecode_type,
        seen,
        checked,
    ));
    checked
}

/// The sources of a multi-part request.
pub fn multi_part_input(request: MultiPartRequest) -> (input: SourceInput)
    ensures
        input == (SourceInput::MultiPart {
            files: request.source_files,
            interfaces: request.interfaces,
            evm_version: request.evm_version,
            optimize: request.optimize,
        }),
{
    SourceInput::MultiPart {
        files: request.source_files,
        interfaces: request.interfaces,
        evm_version: request.evm_version,
        optimize: request.optimize,
    }
}

/// The sources of a standard-json request.
pub fn standard_json_input(request: StandardJsonRequest) -> (input: SourceInput)
    ensures
        input == (SourceInput::StandardJson { document: request.input }),
{
    SourceInput::StandardJson { document: request.input }
}

} // verus!
