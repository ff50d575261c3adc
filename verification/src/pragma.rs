//! The version constraint that a source declares.
//!
//! A source may say in a comment which compilers it is written for. The
//! line starts with `# @version ` or with `#pragma version `, and what
//! follows up to the end of the line is the specifier: a version, which
//! stands for that version alone, or a version behind one of `==`, `^`,
//! `>=` and `<`. Lines end in a line feed, before which a carriage return
//! is left out of account. The first line of a source that reads as such
//! a declaration counts; a line that does not read is passed over.

use vstd::prelude::*;
use vstd::slice::*;
use vstd::string::*;
use vstd::utf8::encode_utf8;
use crate::artifact::SourceFile;
use crate::catalog::{VersionConstraint, VersionDemand};
use crate::version::{find_byte, parse_version_bytes, parsed_version, position_of, CompilerVersion};

verus! {

/// The bytes of `# @version `.
pub open spec fn at_version_mark() -> Seq<u8> {
    seq![0x23u8, 0x20, 0x40, 0x76, 0x65, 0x72, 0x73, 0x69, 0x6f, 0x6e, 0x20]
}

/// The bytes of `#pragma version `.
pub open spec fn pragma_mark() -> Seq<u8> {
    seq![
        0x23u8,
        0x70,
        0x72,
        0x61,
        0x67,
        0x6d,
        0x61,
        0x20,
        0x76,
        0x65,
        0x72,
        0x73,
        0x69,
        0x6f,
        0x6e,
        0x20,
    ]
}

pub open spec fn starts_with(text: Seq<u8>, prefix: Seq<u8>) -> bool {
    text.len() >= prefix.len() && text.take(prefix.len() as int) == prefix
}

/// The version that follows `version` directly in the order of versions;
/// none for the greatest version there is.
pub open spec fn successor(version: CompilerVersion) -> Option<CompilerVersion> {
    if version.patch < u64::MAX {
        Some(CompilerVersion { patch: (version.patch + 1) as u64, ..version })
    } else if version.minor < u64::MAX {
        Some(CompilerVersion { minor: (version.minor + 1) as u64, patch: 0, ..version })
    } else if version.major < u64::MAX {
        Some(CompilerVersion { major: (version.major + 1) as u64, minor: 0, patch: 0 })
    } else {
        None
    }
}

/// The first version that is no longer compatible with `version`: the one
/// in which the leftmost number of `version` that is not zero has grown by
/// one and all to its right are zero.
pub open spec fn compatible_end(version: CompilerVersion) -> Option<CompilerVersion> {
    if version.major > 0 {
        if version.major < u64::MAX {
            Some(CompilerVersion { major: (version.major + 1) as u64, minor: 0, patch: 0 })
        } else {
            None
        }
    } else if version.minor > 0 {
        if version.minor < u64::MAX {
            Some(CompilerVersion { major: 0, minor: (version.minor + 1) as u64, patch: 0 })
        } else {
            Some(CompilerVersion { major: 1, minor: 0, patch: 0 })
        }
    } else {
        successor(version)
    }
}

/// The range that a specifier stands for.
pub open spec fn specified(text: Seq<u8>) -> Option<VersionConstraint> {
    if starts_with(text, seq![0x5eu8]) {
        match parsed_version(text.skip(1)) {
            Some(version) => Some(
                VersionConstraint { lower: Some(version), upper: compatible_end(version) },
            ),
            None => None,
        }
    } else if starts_with(text, seq![0x3eu8, 0x3d]) {
        match parsed_version(text.skip(2)) {
            Some(version) => Some(VersionConstraint { lower: Some(version), upper: None }),
            None => None,
        }
    } else if starts_with(text, seq![0x3du8, 0x3d]) {
        match parsed_version(text.skip(2)) {
            Some(version) => Some(
                VersionConstraint { lower: Some(version), upper: successor(version) },
            ),
            None => None,
        }
    } else if starts_with(text, seq![0x3cu8]) {
        match parsed_version(text.skip(1)) {
            Some(version) => Some(VersionConstraint { lower: None, upper: Some(version) }),
            None => None,
        }
    } else {
        match parsed_version(text) {
            Some(version) => Some(
                VersionConstraint { lower: Some(version), upper: successor(version) },
            ),
            None => None,
        }
    }
}

/// The line without the carriage return that it may end in.
pub open spec fn without_return(line: Seq<u8>) -> Seq<u8> {
    if line.len() > 0 && line.last() == 0x0d {
        line.drop_last()
    } else {
        line
    }
}

/// The range that one line declares, if it is a declaration that reads.
pub open spec fn line_constraint(line: Seq<u8>) -> Option<VersionConstraint> {
    let line = without_return(line);
    if starts_with(line, at_version_mark()) {
        specified(line.skip(at_version_mark().len() as int))
    } else if starts_with(line, pragma_mark()) {
        specified(line.skip(pragma_mark().len() as int))
    } else {
        None
    }
}

/// The range that a source declares: that of its first line that
/// declares one.
pub open spec fn declared_constraint(text: Seq<u8>) -> Option<VersionConstraint>
    decreases text.len(),
{
    let end = position_of(text, 0x0a);
    match line_constraint(text.take(end)) {
        Some(constraint) => Some(constraint),
        None => if 0 <= end < text.len() {
            declared_constraint(text.skip(end + 1))
        } else {
            None
        },
    }
}

/// The range that the first of the files that declares one declares.
pub open spec fn first_declared(files: Seq<SourceFile>) -> Option<VersionConstraint>
    decreases files.len(),
{
    if files.len() == 0 {
        None
    } else {
        match first_declared(files.drop_last()) {
            Some(constraint) => Some(constraint),
            None => declared_constraint(encode_utf8(files.last().content@)),
        }
    }
}

/// The versions to try for a request: those of the range that its sources
/// declare, if they declare one, else the version that it names. The
/// version that it names must be known either way.
pub open spec fn demanded(compiler_version: String, files: Seq<SourceFile>) -> VersionDemand {
    match first_declared(files) {
        Some(constraint) => VersionDemand::NamedWithin(compiler_version, constraint),
        None => VersionDemand::Exact(compiler_version),
    }
}

fn begins_with(text: &[u8], mark: &[u8]) -> (begins: bool)
    ensures
        begins == starts_with(text@, mark@),
{
    if text.len() < mark.len() {
        return false;
    }
    let mut i: usize = 0;
    while i < mark.len()
        invariant
            i <= mark.len() <= text.len(),
            forall|j: int| 0 <= j < i ==> text[j] == mark[j],
        decreases mark.len() - i,
    {
        if text[i] != mark[i] {
            assert(text@.take(mark.len() as int)[i as int] != mark[i as int]);
            return false;
        }
        i += 1;
    }
    assert(text@.take(mark.len() as int) =~= mark@);
    true
}

fn next_version(version: &CompilerVersion) -> (next: Option<CompilerVersion>)
    ensures
        next == successor(*version),
{
    if version.patch < u64::MAX {
        Some(CompilerVersion { major: version.major, minor: version.minor, patch: version.patch + 1 })
    } else if version.minor < u64::MAX {
        Some(CompilerVersion { major: version.major, minor: version.minor + 1, patch: 0 })
    } else if version.major < u64::MAX {
        Some(CompilerVersion { major: version.major + 1, minor: 0, patch: 0 })
    } else {
        None
    }
}

fn end_of_compatible(version: &CompilerVersion) -> (end: Option<CompilerVersion>)
    ensures
        end == compatible_end(*version),
{
    if version.major > 0 {
        if version.major < u64::MAX {
            Some(CompilerVersion { major: version.major + 1, minor: 0, patch: 0 })
        } else {
            None
        }
    } else if version.minor > 0 {
        if version.minor < u64::MAX {
            Some(CompilerVersion { major: 0, minor: version.minor + 1, patch: 0 })
        } else {
            Some(CompilerVersion { major: 1, minor: 0, patch: 0 })
        }
    } else {
        next_version(version)
    }
}

fn version_behind(text: &[u8], skipped: usize) -> (version: Option<CompilerVersion>)
    requires
        skipped <= text.len(),
    ensures
        version == parsed_version(text@.skip(skipped as int)),
{
    let rest = slice_subrange(text, skipped, text.len());
    assert(rest@ =~= text@.skip(skipped as int));
    parse_version_bytes(rest)
}

/// Reads a specifier.
pub fn read_specifier(text: &[u8]) -> (constraint: Option<VersionConstraint>)
    ensures
        constraint == specified(text@),
{
    let caret: [u8; 1] = [0x5e];
    let at_least: [u8; 2] = [0x3e, 0x3d];
    let equal: [u8; 2] = [0x3d, 0x3d];
    let below: [u8; 1] = [0x3c];
    assert(caret@ =~= seq![0x5eu8]);
    assert(at_least@ =~= seq![0x3eu8, 0x3d]);
    assert(equal@ =~= seq![0x3du8, 0x3d]);
    assert(below@ =~= seq![0x3cu8]);
    assert(text@.skip(0) =~= text@);
    if begins_with(text, caret.as_slice()) {
        match version_behind(text, 1) {
            Some(version) => Some(
                VersionConstraint { lower: Some(version), upper: end_of_compatible(&version) },
            ),
            None => None,
        }
    } else if begins_with(text, at_least.as_slice()) {
        match version_behind(text, 2) {
            Some(version) => Some(VersionConstraint { lower: Some(version), upper: None }),
            None => None,
        }
    } else if begins_with(text, equal.as_slice()) {
        match version_behind(text, 2) {
            Some(version) => Some(
                VersionConstraint { lower: Some(version), upper: next_version(&version) },
            ),
            None => None,
        }
    } else if begins_with(text, below.as_slice()) {
        match version_behind(text, 1) {
            Some(version) => Some(VersionConstraint { lower: None, upper: Some(version) }),
            None => None,
        }
    } else {
        match version_behind(text, 0) {
            Some(version) => Some(
                VersionConstraint { lower: Some(version), upper: next_version(&version) },
            ),
            None => None,
        }
    }
}

fn read_line(whole: &[u8]) -> (constraint: Option<VersionConstraint>)
    ensures
        constraint == line_constraint(whole@),
{
    let line = if whole.len() > 0 && whole[whole.len() - 1] == 0x0d {
        slice_subrange(whole, 0, whole.len() - 1)
    } else {
        whole
    };
    assert(line@ =~= without_return(whole@));
    let at_version: [u8; 11] = [0x23, 0x20, 0x40, 0x76, 0x65, 0x72, 0x73, 0x69, 0x6f, 0x6e, 0x20];
    let pragma: [u8; 16] = [
        0x23,
        0x70,
        0x72,
        0x61,
        0x67,
        0x6d,
        0x61,
        0x20,
        0x76,
        0x65,
        0x72,
        0x73,
        0x69,
        0x6f,
        0x6e,
        0x20,
    ];
    assert(at_version@ =~= at_version_mark());
    assert(pragma@ =~= pragma_mark());
    if begins_with(line, at_version.as_slice()) {
        let rest = slice_subrange(line, 11, line.len());
        assert(rest@ =~= line@.skip(11));
        read_specifier(rest)
    } else if begins_with(line, pragma.as_slice()) {
        let rest = slice_subrange(line, 16, line.len());
        assert(rest@ =~= line@.skip(16));
        read_specifier(rest)
    } else {
        None
    }
}

/// Reads the version constraint that a source declares, the source given
/// by its bytes.
pub fn read_constraint(text: &[u8]) -> (constraint: Option<VersionConstraint>)
    ensures
        constraint == declared_constraint(text@),
{
    let len = text.len();
    let mut start: usize = 0;
    assert(text@.subrange(0, len as int) =~= text@);
    loop
        invariant
            start <= len,
            len == text.len(),
            declared_constraint(text@) == declared_constraint(text@.subrange(start as int, len as int)),
        decreases len - start,
    {
        let ghost rest = text@.subrange(start as int, len as int);
        let end = find_byte(text, start, len, 0x0a);
        let line = slice_subrange(text, start, end);
        assert(line@ =~= rest.take(end - start));
        match read_line(line) {
            Some(constraint) => {
                return Some(constraint);
            },
            None => {
                if end < len {
                    assert(rest.skip(end - start + 1) =~= text@.subrange(end + 1, len as int));
                    start = end + 1;
                } else {
                    return None;
                }
            },
        }
    }
}

/// The versions to try for a request that names `compiler_version` and
/// comes with these source files.
pub fn demand_for(compiler_version: &String, files: &Vec<SourceFile>) -> (demand: VersionDemand)
    ensures
        demand == demanded(*compiler_version, files@),
{
    let mut i: usize = 0;
    while i < files.len()
        invariant
            i <= files.len(),
            first_declared(files@.take(i as int)).is_none(),
        decreases files.len() - i,
    {
        proof {
            assert(files@.take(i + 1).drop_last() =~= files@.take(i as int));
            assert(files@.take(i + 1).last() == files@[i as int]);
        }
        match read_constraint(files[i].content.as_str().as_bytes()) {
            Some(constraint) => {
                proof {
                    lemma_first_declared_stays(files@, i + 1);
                }
                return VersionDemand::NamedWithin(compiler_version.clone(), constraint);
            },
            None => {},
        }
        i += 1;
    }
    assert(files@.take(files.len() as int) =~= files@);
    VersionDemand::Exact(compiler_version.clone())
}

/// What the first files of a list declare, the whole list declares.
pub proof fn lemma_first_declared_stays(files: Seq<SourceFile>, count: int)
    requires
        0 <= count <= files.len(),
        first_declared(files.take(count)).is_some(),
    ensures
        first_declared(files) == first_declared(files.take(count)),
    decreases files.len() - count,
{
    if count == files.len() {
        assert(files.take(count) =~= files);
    } else {
        assert(files.drop_last().take(count) =~= files.take(count));
        lemma_first_declared_stays(files.drop_last(), count);
    }
}

/// A version alone, or behind `==`, stands for that version and no other.
pub proof fn lemma_exact_admits_one(version: CompilerVersion, other: CompilerVersion)
    ensures
        (VersionConstraint { lower: Some(version), upper: successor(version) }).admits(other)
            <==> other == version,
{
}

/// A version behind `^` stands for the versions from it on that agree
/// with it in all numbers up to its leftmost that is not zero.
pub proof fn lemma_compatible_range(version: CompilerVersion, other: CompilerVersion)
    ensures
        (VersionConstraint { lower: Some(version), upper: compatible_end(version) }).admits(other)
            <==> (!other.older_than(version) && (if version.major > 0 {
            other.major == version.major
        } else if version.minor > 0 {
            other.major == 0 && other.minor == version.minor
        } else {
            other == version
        })),
{
}

} // verus!
