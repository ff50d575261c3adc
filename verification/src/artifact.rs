//! What goes into a compiler run and what comes out of it, and the choice
//! of the contract that matches a submitted bytecode.

use vstd::prelude::*;
use crate::matcher::{classification, classify_contract, form_for, BytecodeType, MatchType};

verus! {

/// One named source text.
#[derive(Debug)]
pub struct SourceFile {
    pub path: String,
    pub content: String,
}

/// The sources to compile, in one of the two shapes.
#[derive(Debug)]
pub enum SourceInput {
    /// Discrete files together with the settings for all of them.
    MultiPart {
        files: Vec<SourceFile>,
        interfaces: Vec<SourceFile>,
        evm_version: Option<String>,
        optimize: Option<bool>,
    },
    /// One document in the compiler's own input format.
    StandardJson { document: String },
}

/// One compiled contract.
#[derive(Debug)]
pub struct ContractArtifact {
    pub name: String,
    pub creation_bytecode: Vec<u8>,
    pub runtime_bytecode: Vec<u8>,
    pub abi: String,
    pub warnings: Vec<String>,
}

/// The contracts of one compiler run, in the order in which the sources
/// declare them, and the version that the compiler reported of itself.
#[derive(Debug)]
pub struct CompilationArtifact {
    /// The version as the compiler printed it.
    pub compiler_version: String,
    pub contracts: Vec<ContractArtifact>,
}

/// The bytecode to verify, as raw bytes, and the form it was taken in.
#[derive(Debug)]
pub struct SubmittedBytecode {
    pub bytes: Vec<u8>,
    pub bytecode_type: BytecodeType,
}

/// The contract chosen from an artifact and how well it matches.
#[derive(Clone, Copy, Debug, PartialEq, Eq, Structural)]
pub struct Selection {
    pub index: usize,
    pub match_type: MatchType,
}

/// How one compiled contract matches the submitted bytecode.
pub open spec fn contract_class(
    contract: ContractArtifact,
    submitted: SubmittedBytecode,
) -> Option<MatchType> {
    classification(
        form_for(
            submitted.bytecode_type,
            contract.creation_bytecode@,
            contract.runtime_bytecode@,
        ),
        submitted.bytes@,
    )
}

/// The contract bears the name that the caller hinted at.
pub open spec fn is_hinted(contract: ContractArtifact, hint: Option<String>) -> bool {
    hint matches Some(name) && contract.name@ == name@
}

/// The rank of a contract among the candidates for a submitted bytecode:
/// zero for one that does not match; a full match ranks above every partial
/// one, and within either kind the hinted name ranks higher.
pub open spec fn score(
    contract: ContractArtifact,
    submitted: SubmittedBytecode,
    hint: Option<String>,
) -> nat {
    match contract_class(contract, submitted) {
        None => 0,
        Some(MatchType::Partial) => if is_hinted(contract, hint) {
            2
        } else {
            1
        },
        Some(MatchType::Full) => if is_hinted(contract, hint) {
            4
        } else {
            3
        },
    }
}

/// `choice` is the contract to report for a submitted bytecode: none where
/// no contract matches, else the first among those of the highest rank.
pub open spec fn is_selection(
    contracts: Seq<ContractArtifact>,
    submitted: SubmittedBytecode,
    hint: Option<String>,
    choice: Option<Selection>,
) -> bool {
    match choice {
        None => forall|i: int|
            0 <= i < contracts.len() ==> score(#[trigger] contracts[i], submitted, hint) == 0,
        Some(chosen) => {
            &&& chosen.index < contracts.len()
            &&& contract_class(contracts[chosen.index as int], submitted) == Some(
                chosen.match_type,
            )
            &&& forall|i: int|
                0 <= i < contracts.len() ==> score(#[trigger] contracts[i], submitted, hint)
                    <= score(contracts[chosen.index as int], submitted, hint)
            &&& forall|i: int|
                0 <= i < chosen.index ==> score(#[trigger] contracts[i], submitted, hint) < score(
                    contracts[chosen.index as int],
                    submitted,
                    hint,
                )
        },
    }
}

fn rank(contract: &ContractArtifact, submitted: &SubmittedBytecode, hint: &Option<String>) -> (found:
    (u8, Option<MatchType>))
    ensures
        found.0 == score(*contract, *submitted, *hint),
        found.1 == contract_class(*contract, *submitted),
{
    let class = classify_contract(
        contract.creation_bytecode.as_slice(),
        contract.runtime_bytecode.as_slice(),
        submitted.bytes.as_slice(),
        submitted.bytecode_type,
    );
    let hinted = match hint {
        Some(name) => contract.name == *name,
        None => false,
    };
    let points: u8 = match class {
        None => 0,
        Some(MatchType::Partial) => if hinted {
            2
        } else {
            1
        },
        Some(MatchType::Full) => if hinted {
            4
        } else {
            3
        },
    };
    (points, class)
}

/// Chooses the contract of an artifact to report for a submitted bytecode.
/// A full match is preferred to a partial one; among matches of the same
/// kind a contract with the hinted name is preferred; what is still tied
/// goes to the contract declared first.
pub fn select_match(
    contracts: &Vec<ContractArtifact>,
    submitted: &SubmittedBytecode,
    hint: &Option<String>,
) -> (choice: Option<Selection>)
    ensures
        is_selection(contracts@, *submitted, *hint, choice),
{
    let mut choice: Option<Selection> = None;
    let mut best: u8 = 0;
    let mut i: usize = 0;
    while i < contracts.len()
        invariant
            i <= contracts.len(),
            is_selection(contracts@.take(i as int), *submitted, *hint, choice),
            choice matches Some(chosen) ==> best == score(
                contracts[chosen.index as int],
                *submitted,
                *hint,
            ),
            choice.is_none() ==> best == 0,
        decreases contracts.len() - i,
    {
        let ghost seen = contracts@.take(i as int);
        let ghost next = contracts@.take(i + 1);
        assert(forall|j: int| 0 <= j < i ==> seen[j] == next[j]);
        let (points, class) = rank(&contracts[i], submitted, hint);
        if points > best {
            match class {
                Some(match_type) => {
                    choice = Some(Selection { index: i, match_type });
                    best = points;
                },
                None => {},
            }
        }
        assert(is_selection(next, *submitted, *hint, choice)) by {
            assert forall|j: int| 0 <= j < next.len() implies score(
                #[trigger] next[j],
                *submitted,
                *hint,
            ) <= best by {
                if j < i {
                    assert(seen[j] == next[j]);
                }
            }
        }
        i += 1;
    }
    assert(contracts@.take(contracts.len() as int) =~= contracts@);
    choice
}

/// The choice is unique: whatever meets the description of the selection is
/// the selection.
pub proof fn lemma_selection_unique(
    contracts: Seq<ContractArtifact>,
    submitted: SubmittedBytecode,
    hint: Option<String>,
    first: Option<Selection>,
    second: Option<Selection>,
)
    requires
        is_selection(contracts, submitted, hint, first),
        is_selection(contracts, submitted, hint, second),
    ensures
        first == second,
{
    match (first, second) {
        (Some(a), Some(b)) => {
            assert(score(contracts[a.index as int], submitted, hint) <= score(
                contracts[b.index as int],
                submitted,
                hint,
            ));
            assert(score(contracts[b.index as int], submitted, hint) <= score(
                contracts[a.index as int],
                submitted,
                hint,
            ));
        },
        (Some(a), None) => {
            assert(score(contracts[a.index as int], submitted, hint) == 0);
        },
        (None, Some(b)) => {
            assert(score(contracts[b.index as int], submitted, hint) == 0);
        },
        (None, None) => {},
    }
}

/// A partial match is chosen only where no contract matches in full.
pub proof fn lemma_full_outranks_partial(
    contracts: Seq<ContractArtifact>,
    submitted: SubmittedBytecode,
    hint: Option<String>,
    choice: Option<Selection>,
    other: int,
)
    requires
        is_selection(contracts, submitted, hint, choice),
        0 <= other < contracts.len(),
        contract_class(contracts[other], submitted) == Some(MatchType::Full),
    ensures
        choice matches Some(chosen) && chosen.match_type == MatchType::Full,
{
    assert(score(contracts[other], submitted, hint) >= 3);
}

/// Among contracts that match equally well, one with the hinted name is
/// chosen if there is any.
pub proof fn lemma_hint_breaks_ties(
    contracts: Seq<ContractArtifact>,
    submitted: SubmittedBytecode,
    hint: Option<String>,
    choice: Option<Selection>,
    other: int,
)
    requires
        is_selection(contracts, submitted, hint, choice),
        0 <= other < contracts.len(),
        is_hinted(contracts[other], hint),
        choice matches Some(chosen) && contract_class(contracts[other], submitted) == Some(
            chosen.match_type,
        ),
    ensures
        choice matches Some(chosen) && is_hinted(contracts[chosen.index as int], hint),
{
    assert(score(contracts[other], submitted, hint) <= score(
        contracts[choice.unwrap().index as int],
        submitted,
        hint,
    ));
}

} // verus!
