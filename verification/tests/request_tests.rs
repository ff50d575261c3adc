use bytecode_verifier::matcher::BytecodeType;
use bytecode_verifier::outcome::{reply_to_parse_error, Reply, StandardJsonParseError, Status};
use bytecode_verifier::artifact::{SourceFile, SourceInput};
use bytecode_verifier::request::{
    check_bytecode, check_multi_part, check_standard_json, multi_part_input, standard_json_input,
    validate_standard_json, MultiPartRequest, StandardJsonRequest,
};

fn standard_json(bytecode: &str, kind: Option<BytecodeType>, input: &str) -> StandardJsonRequest {
    StandardJsonRequest {
        bytecode: bytecode.to_string(),
        bytecode_type: kind,
        compiler_version: "0.3.7".to_string(),
        input: input.to_string(),
        contract_name: None,
        metadata: None,
    }
}

#[test]
fn bytecode_is_turned_into_raw_bytes() {
    let submitted = check_bytecode("0x60FF", Some(BytecodeType::Runtime)).unwrap();
    assert_eq!(submitted.bytes, vec![0x60, 0xff]);
    assert_eq!(submitted.bytecode_type, BytecodeType::Runtime);
}

#[test]
fn bytecode_that_is_not_hex_is_refused() {
    assert_eq!(check_bytecode("0x6", Some(BytecodeType::Runtime)).unwrap_err(), "Invalid bytecode");
    assert_eq!(check_bytecode("hello", None).unwrap_err(), "Invalid bytecode");
}

#[test]
fn bytecode_without_a_type_is_refused() {
    assert_eq!(check_bytecode("0x60", None).unwrap_err(), "Bytecode type is unspecified");
}

#[test]
fn a_multi_part_request_is_checked_by_its_bytecode() {
    let request = MultiPartRequest {
        bytecode: "6001".to_string(),
        bytecode_type: Some(BytecodeType::Creation),
        compiler_version: "0.3.7".to_string(),
        evm_version: Some("paris".to_string()),
        source_files: vec![SourceFile { path: "a.vy".to_string(), content: "x".to_string() }],
        interfaces: vec![],
        optimize: Some(true),
        contract_name: Some("a".to_string()),
        metadata: None,
    };
    let submitted = check_multi_part(&request).unwrap();
    assert_eq!(submitted.bytes, vec![0x60, 0x01]);
    assert_eq!(submitted.bytecode_type, BytecodeType::Creation);
    match multi_part_input(request) {
        SourceInput::MultiPart { files, interfaces, evm_version, optimize } => {
            assert_eq!(files.len(), 1);
            assert_eq!(files[0].path, "a.vy");
            assert!(interfaces.is_empty());
            assert_eq!(evm_version.unwrap(), "paris");
            assert_eq!(optimize, Some(true));
        },
        other => panic!("unexpected: {:?}", other),
    }
}

#[test]
fn standard_json_with_invalid_syntax_is_answered_as_a_failure() {
    let request = standard_json("0x6001", Some(BytecodeType::Creation), "{\"language\": \"Vyper\",");
    let error = validate_standard_json(&request).unwrap_err();
    let text = match &error {
        StandardJsonParseError::InvalidContent(text) => text.clone(),
        other => panic!("unexpected: {:?}", other),
    };
    assert_eq!(
        text,
        "content is not a valid standard json: EOF while parsing a value at line 1 column 21"
    );
    match reply_to_parse_error(error) {
        Reply::Response(response) => {
            assert_eq!(response.status, Status::Failure);
            assert_eq!(response.message.unwrap(), text);
        },
        other => panic!("unexpected: {:?}", other),
    }
}

#[test]
fn standard_json_that_is_json_passes() {
    let request = standard_json(
        "0x6001",
        Some(BytecodeType::Runtime),
        "{\"language\": \"Vyper\", \"sources\": {}, \"settings\": {}}",
    );
    let submitted = validate_standard_json(&request).unwrap();
    assert_eq!(submitted.bytes, vec![0x60, 0x01]);
    assert_eq!(submitted.bytecode_type, BytecodeType::Runtime);
}

#[test]
fn an_empty_document_is_invalid_content() {
    let request = standard_json("0x6001", Some(BytecodeType::Runtime), "");
    match validate_standard_json(&request) {
        Err(StandardJsonParseError::InvalidContent(text)) => assert_eq!(
            text,
            "content is not a valid standard json: EOF while parsing a value at line 1 column 0"
        ),
        other => panic!("unexpected: {:?}", other),
    }
}

#[test]
fn a_malformed_call_is_a_bad_request_whatever_the_document_holds() {
    let request = standard_json("0x6", Some(BytecodeType::Runtime), "{");
    match validate_standard_json(&request) {
        Err(StandardJsonParseError::BadRequest(text)) => assert_eq!(text, "Invalid bytecode"),
        other => panic!("unexpected: {:?}", other),
    }
    let request = standard_json("0x60", None, "{}");
    match validate_standard_json(&request) {
        Err(StandardJsonParseError::BadRequest(text)) => assert_eq!(text, "Bytecode type is unspecified"),
        other => panic!("unexpected: {:?}", other),
    }
    match reply_to_parse_error(StandardJsonParseError::BadRequest("Invalid bytecode".to_string())) {
        Reply::InvalidArgument(text) => assert_eq!(text, "Invalid bytecode"),
        other => panic!("unexpected: {:?}", other),
    }
}

#[test]
fn check_standard_json_takes_the_parsers_words() {
    let request = standard_json("0x60", Some(BytecodeType::Creation), "ignored");
    match check_standard_json(&request, Some("trailing characters".to_string())) {
        Err(StandardJsonParseError::InvalidContent(text)) => {
            assert_eq!(text, "content is not a valid standard json: trailing characters")
        },
        other => panic!("unexpected: {:?}", other),
    }
    assert_eq!(check_standard_json(&request, None).unwrap().bytes, vec![0x60]);
    let bad = standard_json("xyz", Some(BytecodeType::Creation), "ignored");
    assert!(matches!(
        check_standard_json(&bad, Some("trailing characters".to_string())),
        Err(StandardJsonParseError::BadRequest(_))
    ));
}

#[test]
fn the_document_of_a_standard_json_request_is_its_input() {
    let request = standard_json("0x60", Some(BytecodeType::Creation), "{\"a\": 1}");
    match standard_json_input(request) {
        SourceInput::StandardJson { document } => assert_eq!(document, "{\"a\": 1}"),
        other => panic!("unexpected: {:?}", other),
    }
}

#[test]
fn a_document_of_the_wrong_shape_passes_the_syntax_check_and_fails_on_the_readers_complaint() {
    let request = standard_json("0x6001", Some(BytecodeType::Creation), "[1, 2, 3]");
    assert!(validate_standard_json(&request).is_ok());
    match check_standard_json(&request, Some("invalid type: sequence, expected struct".to_string())) {
        Err(StandardJsonParseError::InvalidContent(text)) => assert_eq!(
            text,
            "content is not a valid standard json: invalid type: sequence, expected struct"
        ),
        other => panic!("unexpected: {:?}", other),
    }
}
