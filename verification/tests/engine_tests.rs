use bytecode_verifier::artifact::{
    CompilationArtifact, ContractArtifact, SourceFile, SourceInput, SubmittedBytecode,
};
use bytecode_verifier::catalog::{CatalogEntry, VersionCatalog, VersionConstraint, VersionDemand};
use bytecode_verifier::engine::{Action, Fallback, Verification};
use bytecode_verifier::matcher::{BytecodeType, MatchType};
use bytecode_verifier::outcome::{reply_to, Reply, Status, VerificationError};
use bytecode_verifier::pipeline::CompileOutcome;
use bytecode_verifier::pragma::demand_for;
use bytecode_verifier::request::{check_multi_part, multi_part_input, MultiPartRequest};
use bytecode_verifier::version::CompilerVersion;

const CREATION: &str = "0x6003600d60003960036000f3600160005260206000f3a165767970657283000307000b";
const CREATION_OTHER_TRAILER: &str =
    "0x6003600d60003960036000f3600160005260206000f3a16576797065728300030a000b";

fn catalog() -> VersionCatalog {
    let mut catalog = VersionCatalog::new();
    for patch in [4u64, 7, 9] {
        catalog.insert(CatalogEntry {
            version: CompilerVersion::new(0, 3, patch),
            label: format!("v0.3.{}", patch),
            location: format!("https://compilers.test/v0.3.{}", patch),
        });
    }
    catalog
}

fn request(bytecode: &str, version: &str) -> MultiPartRequest {
    MultiPartRequest {
        bytecode: bytecode.to_string(),
        bytecode_type: Some(BytecodeType::Creation),
        compiler_version: version.to_string(),
        evm_version: None,
        source_files: vec![SourceFile {
            path: "token.vy".to_string(),
            content: "@external\ndef one() -> uint256:\n    return 1\n".to_string(),
        }],
        interfaces: vec![],
        optimize: None,
        contract_name: None,
        metadata: None,
    }
}

fn compiled(version: &str, creation_hex: &str) -> CompileOutcome {
    CompileOutcome::Compiled(CompilationArtifact {
        compiler_version: version.to_string(),
        contracts: vec![ContractArtifact {
            name: "token".to_string(),
            creation_bytecode: bytecode_verifier::hex::normalize(creation_hex).unwrap(),
            runtime_bytecode: vec![0x60, 0x01],
            abi: "[]".to_string(),
            warnings: vec![],
        }],
    })
}

fn open(request: MultiPartRequest, fallback: bool) -> Result<(Verification, Action), VerificationError> {
    let submitted = check_multi_part(&request).unwrap();
    let demand = demand_for(&request.compiler_version, &request.source_files);
    let hint = request.contract_name.clone();
    Verification::open(&catalog(), &demand, submitted, hint, multi_part_input(request), fallback)
}

fn some_input() -> SourceInput {
    SourceInput::StandardJson { document: "{}".to_string() }
}

#[test]
fn multi_part_source_with_identical_creation_bytecode_matches_in_full() {
    let request = request(CREATION, "0.3.7");
    let (mut verification, action) = open(request, false).unwrap();
    match action {
        Action::Compile(version) => assert_eq!(version, CompilerVersion::new(0, 3, 7)),
        other => panic!("unexpected: {:?}", other),
    }
    assert!(verification.is_compiling());
    let result = match verification.feed(compiled("0.3.7", CREATION)) {
        Action::Done(result) => result,
        other => panic!("unexpected: {:?}", other),
    };
    let matched = result.unwrap();
    assert_eq!(matched.match_type, MatchType::Full);
    assert_eq!(matched.contract_name, "token");
    assert_eq!(matched.compiler_version, CompilerVersion::new(0, 3, 7));
    assert_eq!(matched.artifact.contracts.len(), 1);
    assert_eq!(matched.artifact.contracts[0].abi, "[]");
    match &matched.input {
        SourceInput::MultiPart { files, .. } => {
            assert_eq!(files.len(), 1);
            assert_eq!(files[0].path, "token.vy");
            assert!(files[0].content.starts_with("@external"));
        },
        other => panic!("unexpected: {:?}", other),
    }
    assert!(matched.diagnostics.is_empty());
    match reply_to(Ok(matched)) {
        Reply::Response(response) => {
            assert_eq!(response.status, Status::Success);
            assert!(response.message.is_none());
            assert_eq!(response.match_type, Some(MatchType::Full));
            assert_eq!(response.compiler_version_used, Some(CompilerVersion::new(0, 3, 7)));
            let found = response.matched.unwrap();
            assert_eq!(found.contract_name, "token");
            assert!(matches!(found.input, SourceInput::MultiPart { files, .. } if files[0].path == "token.vy"));
        },
        other => panic!("unexpected: {:?}", other),
    }
}

#[test]
fn bytecode_that_differs_only_in_its_trailing_metadata_matches_partially() {
    let request = request(CREATION_OTHER_TRAILER, "0.3.7");
    let (mut verification, _) = open(request, false).unwrap();
    let result = match verification.feed(compiled("0.3.7", CREATION)) {
        Action::Done(result) => result,
        other => panic!("unexpected: {:?}", other),
    };
    let matched = result.unwrap();
    assert_eq!(matched.match_type, MatchType::Partial);
    assert_eq!(matched.contract_name, "token");
}

#[test]
fn a_version_absent_from_the_catalog_is_an_invalid_argument() {
    let request = request(CREATION, "9.9.9");
    let error = match open(request, true) {
        Err(error) => error,
        Ok(_) => panic!("a compilation was started"),
    };
    assert!(matches!(&error, VerificationError::VersionNotFound(text) if text == "9.9.9"));
    match reply_to(Err(error)) {
        Reply::InvalidArgument(text) => assert_eq!(text, "Compiler version not found: 9.9.9"),
        other => panic!("unexpected: {:?}", other),
    }
}

#[test]
fn a_crashed_compiler_is_an_internal_error() {
    let request = request(CREATION, "0.3.7");
    let (mut verification, _) = open(request, true).unwrap();
    let action = verification.feed(CompileOutcome::Crashed("killed by signal 9".to_string()));
    let result = match action {
        Action::Done(result) => result,
        other => panic!("unexpected: {:?}", other),
    };
    assert!(!verification.is_compiling());
    assert!(!verification.is_consulting());
    match reply_to(result) {
        Reply::Internal(text) => assert_eq!(text, "killed by signal 9"),
        other => panic!("unexpected: {:?}", other),
    }
}

#[test]
fn sources_that_do_not_compile_fail_with_the_diagnostics() {
    let request = request(CREATION, "0.3.7");
    let (mut verification, _) = open(request, false).unwrap();
    let lines = vec!["token.vy:2:4: unknown type".to_string(), "1 error".to_string()];
    match verification.feed(CompileOutcome::Rejected(lines.clone())) {
        Action::Done(Err(VerificationError::Compilation(found))) => assert_eq!(found, lines),
        other => panic!("unexpected: {:?}", other),
    }
}

#[test]
fn sources_that_compile_to_something_else_match_nothing() {
    let request = request(CREATION, "0.3.7");
    let (mut verification, _) = open(request, false).unwrap();
    match verification.feed(compiled("0.3.7", "0x00")) {
        Action::Done(Err(VerificationError::NoMatchingContracts)) => {},
        other => panic!("unexpected: {:?}", other),
    }
}

#[test]
fn an_empty_artifact_matches_nothing() {
    let request = request(CREATION, "0.3.7");
    let (mut verification, _) = open(request, false).unwrap();
    let empty = CompileOutcome::Compiled(CompilationArtifact {
        compiler_version: "0.3.7".to_string(),
        contracts: vec![],
    });
    match verification.feed(empty) {
        Action::Done(Err(VerificationError::NoMatchingContracts)) => {},
        other => panic!("unexpected: {:?}", other),
    }
}

#[test]
fn a_compiler_of_another_version_is_a_mismatch() {
    let request = request(CREATION, "0.3.7");
    let (mut verification, _) = open(request, false).unwrap();
    match verification.feed(compiled("0.3.9", CREATION)) {
        Action::Done(Err(VerificationError::CompilerVersionMismatch(text))) => assert_eq!(text, "0.3.9"),
        other => panic!("unexpected: {:?}", other),
    }
}

fn range_run(fallback: bool) -> (Verification, Action) {
    let submitted = SubmittedBytecode {
        bytes: bytecode_verifier::hex::normalize(CREATION_OTHER_TRAILER).unwrap(),
        bytecode_type: BytecodeType::Creation,
    };
    let demand = VersionDemand::Within(VersionConstraint {
        lower: Some(CompilerVersion::new(0, 3, 0)),
        upper: None,
    });
    Verification::open(&catalog(), &demand, submitted, Some("token".to_string()), some_input(), fallback)
        .unwrap()
}

#[test]
fn candidates_of_a_range_are_tried_newest_first() {
    let (mut verification, action) = range_run(false);
    assert!(matches!(action, Action::Compile(v) if v == CompilerVersion::new(0, 3, 9)));
    let action = verification.feed(CompileOutcome::Rejected(vec!["a".to_string()]));
    assert!(matches!(action, Action::Compile(v) if v == CompilerVersion::new(0, 3, 7)));
    let action = verification.feed(compiled("0.3.7", CREATION));
    assert!(matches!(action, Action::Compile(v) if v == CompilerVersion::new(0, 3, 4)));
    let action = verification.feed(CompileOutcome::Rejected(vec!["b".to_string(), "c".to_string()]));
    let matched = match action {
        Action::Done(Ok(matched)) => matched,
        other => panic!("unexpected: {:?}", other),
    };
    assert_eq!(matched.match_type, MatchType::Partial);
    assert_eq!(matched.compiler_version, CompilerVersion::new(0, 3, 7));
    assert_eq!(matched.artifact.compiler_version, "0.3.7");
    assert_eq!(matched.diagnostics, vec!["a".to_string(), "b".to_string(), "c".to_string()]);
}

#[test]
fn a_later_candidate_that_matches_in_full_wins() {
    let (mut verification, _) = range_run(false);
    verification.feed(compiled("0.3.9", CREATION));
    let action = verification.feed(compiled("0.3.7", CREATION_OTHER_TRAILER));
    let matched = match action {
        Action::Done(Ok(matched)) => matched,
        other => panic!("unexpected: {:?}", other),
    };
    assert_eq!(matched.match_type, MatchType::Full);
    assert_eq!(matched.compiler_version, CompilerVersion::new(0, 3, 7));
}

#[test]
fn the_fallback_is_asked_when_nothing_matches_and_its_bytecode_is_tried() {
    let request = request("0x00", "0.3.7");
    let (mut verification, _) = open(request, true).unwrap();
    assert!(matches!(verification.feed(compiled("0.3.7", CREATION)), Action::Lookup));
    assert!(verification.is_consulting());
    assert!(matches!(verification.input(), Some(SourceInput::MultiPart { .. })));
    let known = Fallback {
        input: SourceInput::StandardJson { document: "{\"language\": \"Vyper\"}".to_string() },
        expected_bytecode: bytecode_verifier::hex::normalize(CREATION).unwrap(),
    };
    let action = verification.answer(Some(known));
    assert!(matches!(action, Action::Compile(v) if v == CompilerVersion::new(0, 3, 7)));
    assert!(matches!(
        verification.input(),
        Some(SourceInput::StandardJson { document }) if document.contains("Vyper")
    ));
    match verification.feed(compiled("0.3.7", CREATION)) {
        Action::Done(Ok(matched)) => {
            assert_eq!(matched.match_type, MatchType::Full);
            assert!(matches!(matched.input, SourceInput::StandardJson { .. }));
        },
        other => panic!("unexpected: {:?}", other),
    }
}

#[test]
fn a_fallback_that_knows_nothing_leaves_the_failure_as_it_was() {
    let (mut verification, _) = open(request("0x00", "0.3.7"), true).unwrap();
    assert!(matches!(verification.feed(compiled("0.3.8", CREATION)), Action::Lookup));
    match verification.answer(None) {
        Action::Done(Err(VerificationError::CompilerVersionMismatch(text))) => assert_eq!(text, "0.3.8"),
        other => panic!("unexpected: {:?}", other),
    }
    let (mut verification, _) = open(request("0x00", "0.3.7"), true).unwrap();
    assert!(matches!(
        verification.feed(CompileOutcome::Rejected(vec!["x".to_string()])),
        Action::Lookup
    ));
    match verification.answer(None) {
        Action::Done(Err(VerificationError::Compilation(lines))) => assert_eq!(lines, vec!["x".to_string()]),
        other => panic!("unexpected: {:?}", other),
    }
}

#[test]
fn begin_without_candidates_fails_to_compile() {
    let submitted = SubmittedBytecode { bytes: vec![1], bytecode_type: BytecodeType::Runtime };
    let (verification, action) = Verification::begin(vec![], submitted, None, some_input(), false);
    assert!(!verification.is_compiling());
    match action {
        Action::Done(Err(VerificationError::Compilation(lines))) => assert!(lines.is_empty()),
        other => panic!("unexpected: {:?}", other),
    }
}

#[test]
fn a_source_that_declares_a_range_is_tried_with_every_version_in_it() {
    let mut request = request(CREATION_OTHER_TRAILER, "0.3.7");
    request.source_files[0].content = "# @version ^0.3.5\n@external\ndef one(): pass\n".to_string();
    request.contract_name = Some("token".to_string());
    let (mut verification, action) = open(request, false).unwrap();
    assert!(matches!(action, Action::Compile(v) if v == CompilerVersion::new(0, 3, 9)));
    let action = verification.feed(compiled("0.3.9", "0x00"));
    assert!(matches!(action, Action::Compile(v) if v == CompilerVersion::new(0, 3, 7)));
    match verification.feed(compiled("0.3.7", CREATION)) {
        Action::Done(Ok(matched)) => {
            assert_eq!(matched.match_type, MatchType::Partial);
            assert_eq!(matched.compiler_version, CompilerVersion::new(0, 3, 7));
        },
        other => panic!("unexpected: {:?}", other),
    }
}

#[test]
fn a_version_absent_from_the_catalog_is_not_found_whatever_the_source_declares() {
    let mut request = request(CREATION, "9.9.9");
    request.source_files[0].content = "# @version ^0.3.5\n".to_string();
    match open(request, false) {
        Err(VerificationError::VersionNotFound(text)) => assert_eq!(text, "9.9.9"),
        Err(other) => panic!("unexpected: {:?}", other),
        Ok(_) => panic!("a compilation was started"),
    }
}
