use bytecode_verifier::hex::normalize;
use bytecode_verifier::outcome::{Reply, Status, VerifyResponse};
use bytecode_verifier::service::{
    chain_id_of, contract_address_of, count_labels, fallback_target, list_url_of, request_id,
    request_id_of,
    FetcherSettings, InputShape, RequestMetadata, REQUEST_ID_SIZE,
};

#[test]
fn a_request_id_is_a_uuid_in_display_form() {
    let id = request_id();
    assert_eq!(id.len(), 34);
    assert!(id.starts_with("0x"));
    assert!(id[2..].bytes().all(|c| c.is_ascii_digit() || (b'a'..=b'f').contains(&c)));
    let raw = normalize(&id).unwrap();
    assert_eq!(raw.len(), REQUEST_ID_SIZE);
    assert_eq!(raw[6] >> 4, 4);
    assert_eq!(raw[8] >> 6, 2);
    assert_eq!(&id[14..15], "4");
}

#[test]
fn request_ids_differ() {
    assert_ne!(request_id(), request_id());
}

#[test]
fn a_request_without_metadata_names_nothing() {
    assert_eq!(chain_id_of(&None), "");
    assert_eq!(contract_address_of(&None), "");
    let empty = Some(RequestMetadata { chain_id: None, contract_address: None });
    assert_eq!(chain_id_of(&empty), "");
    assert_eq!(contract_address_of(&empty), "");
    assert!(fallback_target(&None).is_none());
    assert!(fallback_target(&empty).is_none());
}

#[test]
fn metadata_names_the_chain_and_the_address() {
    let metadata = Some(RequestMetadata {
        chain_id: Some("5".to_string()),
        contract_address: Some("0xcafe".to_string()),
    });
    assert_eq!(chain_id_of(&metadata), "5");
    assert_eq!(contract_address_of(&metadata), "0xcafe");
    let target = fallback_target(&metadata).unwrap();
    assert_eq!(target.chain_id, "5");
    assert_eq!(target.contract_address, "0xcafe");
}

#[test]
fn the_fallback_needs_both_chain_and_address() {
    let only_chain = Some(RequestMetadata { chain_id: Some("5".to_string()), contract_address: None });
    assert!(fallback_target(&only_chain).is_none());
    assert_eq!(chain_id_of(&only_chain), "5");
    let only_address =
        Some(RequestMetadata { chain_id: None, contract_address: Some("0xcafe".to_string()) });
    assert!(fallback_target(&only_address).is_none());
    assert_eq!(contract_address_of(&only_address), "0xcafe");
}

#[test]
fn only_a_list_can_be_fetched_from() {
    assert_eq!(
        list_url_of(FetcherSettings::List("https://list.test/vyper.json".to_string())),
        Ok("https://list.test/vyper.json".to_string())
    );
    assert_eq!(
        list_url_of(FetcherSettings::S3("bucket".to_string())),
        Err("S3 fetcher for vyper not supported".to_string())
    );
}

#[test]
fn input_shapes_are_counted_by_name() {
    assert_eq!(InputShape::MultiPart.name(), "multi-part");
    assert_eq!(InputShape::StandardJson.name(), "standard-json");
}

#[test]
fn answers_are_counted_and_transport_failures_are_not() {
    let chain = "5".to_string();
    let answer = Reply::Response(VerifyResponse::failure("no".to_string()));
    let labels = count_labels(&answer, &chain, InputShape::StandardJson).unwrap();
    assert_eq!(labels.chain_id, "5");
    assert_eq!(labels.language, "vyper");
    assert_eq!(labels.status, Status::Failure);
    assert_eq!(labels.shape, InputShape::StandardJson);
    assert!(count_labels(&Reply::InvalidArgument("x".to_string()), &chain, InputShape::MultiPart).is_none());
    assert!(count_labels(&Reply::Internal("x".to_string()), &chain, InputShape::MultiPart).is_none());
}

#[test]
fn the_name_of_a_request_is_the_display_form_of_its_bytes() {
    let raw: [u8; 16] = [
        0x00, 0x01, 0x0a, 0x10, 0x7f, 0x80, 0x4b, 0xff, 0x9c, 0xab, 0xcd, 0xef, 0x12, 0x34, 0x56,
        0x78,
    ];
    assert_eq!(request_id_of(&raw), "0x00010a107f804bff9cabcdef12345678");
    assert_eq!(request_id_of(&[]), "0x");
    assert_eq!(request_id_of(&[0xAB]), "0xab");
    assert_eq!(normalize(&request_id_of(&raw)), Some(raw.to_vec()));
}
