use bytecode_verifier::artifact::{select_match, ContractArtifact, Selection, SubmittedBytecode};
use bytecode_verifier::matcher::{BytecodeType, MatchType};

fn contract(name: &str, creation: Vec<u8>, runtime: Vec<u8>) -> ContractArtifact {
    ContractArtifact {
        name: name.to_string(),
        creation_bytecode: creation,
        runtime_bytecode: runtime,
        abi: "[]".to_string(),
        warnings: vec![],
    }
}

fn creation(bytes: Vec<u8>) -> SubmittedBytecode {
    SubmittedBytecode { bytes, bytecode_type: BytecodeType::Creation }
}

const BODY: [u8; 3] = [0x60, 0x80, 0x40];

fn with_trailer(tag: u8) -> Vec<u8> {
    let mut code = BODY.to_vec();
    code.extend_from_slice(&[tag, 0x00, 0x01]);
    code
}

#[test]
fn no_contract_no_choice() {
    assert_eq!(select_match(&vec![], &creation(with_trailer(1)), &None), None);
}

#[test]
fn a_contract_that_does_not_match_is_not_chosen() {
    let contracts = vec![contract("A", vec![1, 2, 3], vec![])];
    assert_eq!(select_match(&contracts, &creation(with_trailer(1)), &None), None);
}

#[test]
fn a_full_match_outranks_an_earlier_partial_one() {
    let contracts = vec![
        contract("A", with_trailer(2), vec![]),
        contract("B", with_trailer(1), vec![]),
    ];
    assert_eq!(
        select_match(&contracts, &creation(with_trailer(1)), &None),
        Some(Selection { index: 1, match_type: MatchType::Full })
    );
}

#[test]
fn a_full_match_outranks_a_hinted_partial_one() {
    let contracts = vec![
        contract("A", with_trailer(2), vec![]),
        contract("B", with_trailer(1), vec![]),
    ];
    assert_eq!(
        select_match(&contracts, &creation(with_trailer(1)), &Some("A".to_string())),
        Some(Selection { index: 1, match_type: MatchType::Full })
    );
}

#[test]
fn among_equal_matches_the_first_declared_is_chosen() {
    let contracts = vec![
        contract("A", vec![9], vec![]),
        contract("B", with_trailer(2), vec![]),
        contract("C", with_trailer(3), vec![]),
    ];
    assert_eq!(
        select_match(&contracts, &creation(with_trailer(1)), &None),
        Some(Selection { index: 1, match_type: MatchType::Partial })
    );
    let twins = vec![
        contract("A", with_trailer(1), vec![]),
        contract("B", with_trailer(1), vec![]),
    ];
    assert_eq!(
        select_match(&twins, &creation(with_trailer(1)), &None),
        Some(Selection { index: 0, match_type: MatchType::Full })
    );
}

#[test]
fn among_equal_matches_the_hinted_name_is_preferred() {
    let twins = vec![
        contract("A", with_trailer(1), vec![]),
        contract("B", with_trailer(1), vec![]),
        contract("B", with_trailer(1), vec![]),
    ];
    assert_eq!(
        select_match(&twins, &creation(with_trailer(1)), &Some("B".to_string())),
        Some(Selection { index: 1, match_type: MatchType::Full })
    );
    assert_eq!(
        select_match(&twins, &creation(with_trailer(1)), &Some("Z".to_string())),
        Some(Selection { index: 0, match_type: MatchType::Full })
    );
}

#[test]
fn a_hint_does_not_make_a_match() {
    let contracts = vec![contract("A", vec![1], vec![])];
    assert_eq!(select_match(&contracts, &creation(vec![2]), &Some("A".to_string())), None);
}

#[test]
fn the_submitted_type_decides_which_form_is_compared() {
    let contracts = vec![contract("A", with_trailer(1), vec![0x01, 0x02])];
    let runtime = SubmittedBytecode { bytes: vec![0x01, 0x02], bytecode_type: BytecodeType::Runtime };
    assert_eq!(
        select_match(&contracts, &runtime, &None),
        Some(Selection { index: 0, match_type: MatchType::Full })
    );
    let wrong = SubmittedBytecode { bytes: vec![0x01, 0x02], bytecode_type: BytecodeType::Creation };
    assert_eq!(select_match(&contracts, &wrong, &None), None);
}

#[test]
fn the_choice_is_the_same_every_time() {
    let contracts = vec![
        contract("A", with_trailer(4), vec![]),
        contract("B", with_trailer(5), vec![]),
    ];
    let submitted = creation(with_trailer(1));
    let first = select_match(&contracts, &submitted, &Some("B".to_string()));
    let second = select_match(&contracts, &submitted, &Some("B".to_string()));
    assert_eq!(first, second);
    assert_eq!(first, Some(Selection { index: 1, match_type: MatchType::Partial }));
}
