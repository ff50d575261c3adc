//! Classification of compiled against submitted bytecode.
//!
//! A compiler appends build metadata to the code it emits. The appended
//! trailer describes itself: its last two bytes give, big-endian, the number
//! of metadata bytes that precede them. Two byte strings that differ only in
//! their trailers come from the same source, so they still match, partially.
//! What a trailer holds is never looked at.

use vstd::prelude::*;
use vstd::slice::*;
use vstd::string::*;
use crate::hex::{normalize, normalized};

verus! {

/// The size of the length field that ends a metadata trailer, which is also
/// the size of the shortest possible trailer.
pub const LENGTH_FIELD_SIZE: usize = 2;

/// How well a compiled bytecode matches a submitted one.
#[derive(Clone, Copy, Debug, PartialEq, Eq, Structural)]
pub enum MatchType {
    /// Byte for byte identical.
    Full,
    /// Identical once the metadata trailer is taken off both.
    Partial,
}

/// Which form of a contract's code was submitted.
#[derive(Clone, Copy, Debug, PartialEq, Eq, Structural)]
pub enum BytecodeType {
    /// The code sent in the deploying transaction.
    Creation,
    /// The code stored at the contract's address.
    Runtime,
}

/// The number that the last two bytes of `code` spell, big-endian.
pub open spec fn declared_len(code: Seq<u8>) -> int
    recommends
        code.len() >= 2,
{
    code[code.len() - 2] as int * 256 + code[code.len() - 1] as int
}

/// The size of the trailer of `code`, length field included, if the code
/// ends in one: the code holds the length field, and the metadata that the
/// field announces fits in front of it.
pub open spec fn trailer_size(code: Seq<u8>) -> Option<int> {
    if code.len() < 2 {
        None
    } else if declared_len(code) + 2 <= code.len() {
        Some(declared_len(code) + 2)
    } else {
        None
    }
}

pub open spec fn has_trailer(code: Seq<u8>) -> bool {
    trailer_size(code).is_some()
}

/// The code without its trailer; the code itself where it has none.
pub open spec fn stripped(code: Seq<u8>) -> Seq<u8> {
    match trailer_size(code) {
        Some(size) => code.take(code.len() - size),
        None => code,
    }
}

/// Both codes end in a trailer and agree in all that precedes it.
pub open spec fn agree_up_to_trailer(compiled: Seq<u8>, submitted: Seq<u8>) -> bool {
    &&& has_trailer(compiled)
    &&& has_trailer(submitted)
    &&& stripped(compiled) == stripped(submitted)
}

/// The match between two raw bytecodes: full where they are identical,
/// else partial where they agree up to their trailers, else none.
pub open spec fn classification(compiled: Seq<u8>, submitted: Seq<u8>) -> Option<MatchType> {
    if compiled == submitted {
        Some(MatchType::Full)
    } else if agree_up_to_trailer(compiled, submitted) {
        Some(MatchType::Partial)
    } else {
        None
    }
}

/// The compiled form that a submitted bytecode of the given type is held
/// against.
pub open spec fn form_for(kind: BytecodeType, creation: Seq<u8>, runtime: Seq<u8>) -> Seq<u8> {
    match kind {
        BytecodeType::Creation => creation,
        BytecodeType::Runtime => runtime,
    }
}

/// The match between two hex texts, each taken by its bytes. `None` on the
/// outside where either text is not hex.
pub open spec fn text_classification(compiled: Seq<u8>, submitted: Seq<u8>) -> Option<
    Option<MatchType>,
> {
    match (normalized(compiled), normalized(submitted)) {
        (Some(c), Some(s)) => Some(classification(c, s)),
        _ => None,
    }
}

/// Whether two byte strings are the same.
pub fn same_bytes(a: &[u8], b: &[u8]) -> (same: bool)
    ensures
        same == (a@ == b@),
{
    if a.len() != b.len() {
        return false;
    }
    let mut i: usize = 0;
    while i < a.len()
        invariant
            a.len() == b.len(),
            i <= a.len(),
            forall|j: int| 0 <= j < i ==> a[j] == b[j],
        decreases a.len() - i,
    {
        if a[i] != b[i] {
            return false;
        }
        i += 1;
    }
    assert(a@ =~= b@);
    true
}

/// The size of the trailer that `code` ends in, if it ends in one.
pub fn trailer_len(code: &[u8]) -> (size: Option<usize>)
    ensures
        match size {
            Some(n) => trailer_size(code@) == Some(n as int),
            None => trailer_size(code@).is_none(),
        },
{
    let len = code.len();
    if len < LENGTH_FIELD_SIZE {
        return None;
    }
    let high: usize = code[len - 2] as usize;
    let low: usize = code[len - 1] as usize;
    let announced: usize = high * 256 + low;
    if announced <= len - LENGTH_FIELD_SIZE {
        Some(announced + LENGTH_FIELD_SIZE)
    } else {
        None
    }
}

/// The code without its metadata trailer. Code that ends in no trailer comes
/// back whole.
pub fn strip_trailer(code: &[u8]) -> (prefix: &[u8])
    ensures
        prefix@ == stripped(code@),
        !has_trailer(code@) ==> prefix@ == code@,
{
    match trailer_len(code) {
        Some(size) => {
            let prefix = slice_subrange(code, 0, code.len() - size);
            assert(prefix@ =~= code@.take(code.len() - size));
            prefix
        },
        None => code,
    }
}

/// Classifies a compiled bytecode against a submitted one, both raw.
pub fn classify(compiled: &[u8], submitted: &[u8]) -> (found: Option<MatchType>)
    ensures
        found == classification(compiled@, submitted@),
{
    if same_bytes(compiled, submitted) {
        return Some(MatchType::Full);
    }
    if trailer_len(compiled).is_none() || trailer_len(submitted).is_none() {
        return None;
    }
    if same_bytes(strip_trailer(compiled), strip_trailer(submitted)) {
        Some(MatchType::Partial)
    } else {
        None
    }
}

/// Classifies a submitted bytecode against the form of a compiled contract
/// that its declared type selects.
pub fn classify_contract(
    creation: &[u8],
    runtime: &[u8],
    submitted: &[u8],
    kind: BytecodeType,
) -> (found: Option<MatchType>)
    ensures
        found == classification(form_for(kind, creation@, runtime@), submitted@),
{
    match kind {
        BytecodeType::Creation => classify(creation, submitted),
        BytecodeType::Runtime => classify(runtime, submitted),
    }
}

/// Classifies two bytecodes given as hex text. Both are normalized first;
/// the outer `None` says that one of them is not hex.
pub fn classify_text(compiled: &str, submitted: &str) -> (found: Option<Option<MatchType>>)
    ensures
        found == text_classification(compiled.spec_bytes(), submitted.spec_bytes()),
{
    let compiled_raw = normalize(compiled);
    let submitted_raw = normalize(submitted);
    match (compiled_raw, submitted_raw) {
        (Some(c), Some(s)) => Some(classify(c.as_slice(), s.as_slice())),
        _ => None,
    }
}

/// Identical codes match in full, and only identical codes do: a full match
/// is never reported as a partial one.
pub proof fn lemma_full_excludes_partial(compiled: Seq<u8>, submitted: Seq<u8>)
    ensures
        classification(compiled, submitted) == Some(MatchType::Full) <==> compiled == submitted,
        classification(compiled, submitted) == Some(MatchType::Partial) ==> compiled != submitted,
{
}

/// Taking the trailer off code that has none changes nothing, and such code
/// matches in full or not at all, on whichever side it stands.
pub proof fn lemma_trailerless_is_full_or_none(compiled: Seq<u8>, submitted: Seq<u8>)
    requires
        !has_trailer(compiled) || !has_trailer(submitted),
    ensures
        !has_trailer(compiled) ==> stripped(compiled) == compiled,
        !has_trailer(submitted) ==> stripped(submitted) == submitted,
        classification(compiled, submitted) != Some(MatchType::Partial),
{
}

/// Code shorter than the length field has no trailer.
pub proof fn lemma_short_code_has_no_trailer(code: Seq<u8>)
    requires
        code.len() < LENGTH_FIELD_SIZE,
    ensures
        !has_trailer(code),
        stripped(code) == code,
{
}

/// What is left after stripping is a prefix of the code, and together with
/// the trailer's size it gives the code's length back.
pub proof fn lemma_stripped_is_prefix(code: Seq<u8>)
    ensures
        stripped(code).len() <= code.len(),
        stripped(code) == code.take(stripped(code).len() as int),
        has_trailer(code) ==> stripped(code).len() + trailer_size(code).unwrap() == code.len(),
{
    if !has_trailer(code) {
        assert(code.take(code.len() as int) =~= code);
    }
}

/// The classification does not depend on which side is called compiled.
pub proof fn lemma_classification_symmetric(a: Seq<u8>, b: Seq<u8>)
    ensures
        classification(a, b) == classification(b, a),
{
}

/// The classification is a function of the two codes: equal inputs are
/// never classified differently.
pub proof fn lemma_classification_deterministic(
    compiled: Seq<u8>,
    submitted: Seq<u8>,
    compiled_again: Seq<u8>,
    submitted_again: Seq<u8>,
)
    requires
        compiled =~= compiled_again,
        submitted =~= submitted_again,
    ensures
        classification(compiled, submitted) == classification(compiled_again, submitted_again),
{
}

/// Two codes that share everything but the contents of equally long
/// trailers match partially, unless the trailers are the same too.
pub proof fn lemma_trailer_contents_are_ignored(body: Seq<u8>, first: Seq<u8>, second: Seq<u8>)
    requires
        first.len() == second.len(),
        has_trailer(first),
        has_trailer(second),
        trailer_size(first) == Some(first.len() as int),
        trailer_size(second) == Some(second.len() as int),
    ensures
        classification(body + first, body + second) == if first == second {
            Some(MatchType::Full)
        } else {
            Some(MatchType::Partial)
        },
{
    let a = body + first;
    let b = body + second;
    let n = first.len() as int;
    assert(declared_len(a) == declared_len(first));
    assert(declared_len(b) == declared_len(second));
    assert(a.take(a.len() - n) =~= body);
    assert(b.take(b.len() - n) =~= body);
    if first == second {
        assert(a =~= b);
    } else {
        if a == b {
            assert(a.skip(body.len() as int) =~= first);
            assert(b.skip(body.len() as int) =~= second);
        }
    }
}

} // verus!
