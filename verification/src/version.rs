//! Compiler versions: their text form and their order.
//!
//! A version is written as three decimal numbers joined by dots, as in
//! `0.3.7`. A leading `v` is allowed, and so is a build tag after a `+`;
//! neither takes part in the version's identity or order.

use vstd::prelude::*;
use vstd::string::*;
use vstd::utf8::{encode_utf8, is_ascii_chars, is_ascii_chars_encode_utf8};

verus! {

/// A compiler version. Versions are ordered by major, then minor, then patch
/// number.
#[derive(Clone, Copy, Debug, PartialEq, Eq, Structural, Hash)]
pub struct CompilerVersion {
    pub major: u64,
    pub minor: u64,
    pub patch: u64,
}

impl CompilerVersion {
    /// Strictly older than `other`.
    pub open spec fn older_than(self, other: Self) -> bool {
        ||| self.major < other.major
        ||| (self.major == other.major && self.minor < other.minor)
        ||| (self.major == other.major && self.minor == other.minor && self.patch < other.patch)
    }

    /// Strictly newer than `other`.
    pub open spec fn newer_than(self, other: Self) -> bool {
        other.older_than(self)
    }

    pub fn new(major: u64, minor: u64, patch: u64) -> (version: Self)
        ensures
            version == (CompilerVersion { major, minor, patch }),
    {
        CompilerVersion { major, minor, patch }
    }

    /// Whether this version is strictly older than `other`.
    pub fn precedes(&self, other: &Self) -> (older: bool)
        ensures
            older == self.older_than(*other),
    {
        if self.major != other.major {
            self.major < other.major
        } else if self.minor != other.minor {
            self.minor < other.minor
        } else {
            self.patch < other.patch
        }
    }

    /// Whether this version is strictly newer than `other`.
    pub fn follows(&self, other: &Self) -> (newer: bool)
        ensures
            newer == self.newer_than(*other),
    {
        other.precedes(self)
    }

    /// The version in its plain text form, such as `0.3.7`.
    pub fn to_text(&self) -> (text: String)
        ensures
            text@ == chars_of(version_text(*self)),
    {
        let mut text = String::new();
        append_decimal(self.major, &mut text);
        text.append(".");
        append_decimal(self.minor, &mut text);
        text.append(".");
        append_decimal(self.patch, &mut text);
        proof {
            reveal_strlit(".");
            assert(text@ =~= chars_of(version_text(*self)));
        }
        text
    }

    /// Reads a version from its text form. See [`parsed_version`].
    pub fn parse(text: &str) -> (version: Option<Self>)
        ensures
            version == parsed_version(text.spec_bytes()),
    {
        parse_version_bytes(text.as_bytes())
    }
}

pub open spec fn is_digit(c: u8) -> bool {
    0x30 <= c <= 0x39
}

/// The value of a decimal digit; zero for any other byte.
pub open spec fn digit_of(c: u8) -> nat {
    if is_digit(c) {
        (c - 0x30) as nat
    } else {
        0
    }
}

/// One or more decimal digits.
pub open spec fn is_number(s: Seq<u8>) -> bool {
    &&& s.len() > 0
    &&& forall|i: int| 0 <= i < s.len() ==> is_digit(#[trigger] s[i])
}

/// The number that a string of decimal digits spells.
pub open spec fn decimal_value(s: Seq<u8>) -> nat
    decreases s.len(),
{
    if s.len() == 0 {
        0
    } else {
        decimal_value(s.drop_last()) * 10 + digit_of(s.last())
    }
}

/// The index of the first `c` in `s`, or the length of `s` where it holds
/// none.
pub open spec fn position_of(s: Seq<u8>, c: u8) -> int
    decreases s.len(),
{
    if s.len() == 0 {
        0
    } else if s[0] == c {
        0
    } else {
        1 + position_of(s.drop_first(), c)
    }
}

/// The number that `s` spells, if it is a number that fits in 64 bits.
pub open spec fn parsed_number(s: Seq<u8>) -> Option<u64> {
    if is_number(s) && decimal_value(s) <= u64::MAX {
        Some(decimal_value(s) as u64)
    } else {
        None
    }
}

/// The part of a version text that names the version: what stands after an
/// optional `v` and before the first `+`.
pub open spec fn version_core(text: Seq<u8>) -> Seq<u8> {
    let body = if text.len() > 0 && text[0] == 0x76 {
        text.skip(1)
    } else {
        text
    };
    body.take(position_of(body, 0x2b))
}

/// The version that a text names: its core must be three numbers, each
/// fitting in 64 bits, joined by two dots.
pub open spec fn parsed_version(text: Seq<u8>) -> Option<CompilerVersion> {
    let core = version_core(text);
    let first_dot = position_of(core, 0x2e);
    if first_dot < core.len() {
        let rest = core.skip(first_dot + 1);
        let second_dot = position_of(rest, 0x2e);
        if second_dot < rest.len() {
            match (
                parsed_number(core.take(first_dot)),
                parsed_number(rest.take(second_dot)),
                parsed_number(rest.skip(second_dot + 1)),
            ) {
                (Some(major), Some(minor), Some(patch)) => Some(
                    CompilerVersion { major, minor, patch },
                ),
                _ => None,
            }
        } else {
            None
        }
    } else {
        None
    }
}

/// The decimal digits of a number, without leading zeros.
pub open spec fn decimal_digits(n: nat) -> Seq<u8>
    decreases n,
{
    if n < 10 {
        seq![(0x30 + n) as u8]
    } else {
        decimal_digits(n / 10).push((0x30 + n % 10) as u8)
    }
}

/// The plain text form of a version: its three numbers joined by dots.
pub open spec fn version_text(version: CompilerVersion) -> Seq<u8> {
    decimal_digits(version.major as nat) + seq![0x2eu8] + decimal_digits(version.minor as nat)
        + seq![0x2eu8] + decimal_digits(version.patch as nat)
}

/// ASCII bytes as characters.
pub open spec fn chars_of(bytes: Seq<u8>) -> Seq<char> {
    bytes.map_values(|b: u8| b as char)
}

fn digit_text(digit: u8) -> (text: &'static str)
    requires
        digit < 10,
    ensures
        text@ == seq![(0x30 + digit) as u8 as char],
{
    proof {
        reveal_strlit("0");
        reveal_strlit("1");
        reveal_strlit("2");
        reveal_strlit("3");
        reveal_strlit("4");
        reveal_strlit("5");
        reveal_strlit("6");
        reveal_strlit("7");
        reveal_strlit("8");
        reveal_strlit("9");
    }
    let text = match digit {
        0 => "0",
        1 => "1",
        2 => "2",
        3 => "3",
        4 => "4",
        5 => "5",
        6 => "6",
        7 => "7",
        8 => "8",
        _ => "9",
    };
    assert(text@ =~= seq![(0x30 + digit) as u8 as char]);
    text
}

fn append_decimal(n: u64, text: &mut String)
    ensures
        final(text)@ == old(text)@ + chars_of(decimal_digits(n as nat)),
    decreases n,
{
    if n >= 10 {
        append_decimal(n / 10, text);
    }
    text.append(digit_text((n % 10) as u8));
    proof {
        let digits = decimal_digits(n as nat);
        if n >= 10 {
            let front = decimal_digits((n / 10) as nat);
            assert(chars_of(digits) =~= chars_of(front) + seq![(0x30 + n % 10) as u8 as char]);
            assert(text@ =~= old(text)@ + chars_of(digits));
        } else {
            assert(chars_of(digits) =~= seq![(0x30 + n) as u8 as char]);
        }
    }
}

/// The digits of a number are digits, and they spell the number.
pub proof fn lemma_decimal_digits(n: nat)
    ensures
        is_number(decimal_digits(n)),
        decimal_value(decimal_digits(n)) == n,
    decreases n,
{
    let digits = decimal_digits(n);
    if n < 10 {
        assert(digits.drop_last() =~= Seq::<u8>::empty());
        assert(decimal_value(digits.drop_last()) == 0);
    } else {
        lemma_decimal_digits(n / 10);
        assert(digits.drop_last() =~= decimal_digits(n / 10));
    }
}

/// The text form of a version reads back as the version.
pub proof fn lemma_text_reads_back(version: CompilerVersion)
    ensures
        parsed_version(version_text(version)) == Some(version),
{
    let a = decimal_digits(version.major as nat);
    let b = decimal_digits(version.minor as nat);
    let c = decimal_digits(version.patch as nat);
    lemma_decimal_digits(version.major as nat);
    lemma_decimal_digits(version.minor as nat);
    lemma_decimal_digits(version.patch as nat);
    let text = version_text(version);
    assert(text.len() == a.len() + b.len() + c.len() + 2);
    assert forall|i: int| 0 <= i < text.len() implies (#[trigger] text[i]) == (if i < a.len() {
        a[i]
    } else if i == a.len() {
        0x2eu8
    } else if i < a.len() + 1 + b.len() {
        b[i - a.len() - 1]
    } else if i == a.len() + 1 + b.len() {
        0x2eu8
    } else {
        c[i - a.len() - b.len() - 2]
    }) by {}
    assert(text[0] == a[0] && is_digit(a[0]));
    assert forall|i: int| 0 <= i < text.len() implies (#[trigger] text[i]) != 0x2bu8 by {
        if i < a.len() {
            assert(is_digit(a[i]));
        } else if i > a.len() && i < a.len() + 1 + b.len() {
            assert(is_digit(b[i - a.len() - 1]));
        } else if i > a.len() + 1 + b.len() {
            assert(is_digit(c[i - a.len() - b.len() - 2]));
        }
    }
    lemma_position_of(text, 0x2b, text.len() as int);
    assert(text.take(text.len() as int) =~= text);
    assert(version_core(text) == text);
    assert forall|i: int| 0 <= i < a.len() implies (#[trigger] text[i]) != 0x2eu8 by {
        assert(is_digit(a[i]));
    }
    lemma_position_of(text, 0x2e, a.len() as int);
    let rest = text.skip(a.len() as int + 1);
    assert(rest =~= b + seq![0x2eu8] + c);
    assert forall|i: int| 0 <= i < b.len() implies (#[trigger] rest[i]) != 0x2eu8 by {
        assert(is_digit(b[i]));
    }
    lemma_position_of(rest, 0x2e, b.len() as int);
    assert(text.take(a.len() as int) =~= a);
    assert(rest.take(b.len() as int) =~= b);
    assert(rest.skip(b.len() as int + 1) =~= c);
}

/// The text form of a version is plain ASCII: as text it encodes to the
/// very bytes.
pub proof fn lemma_version_text_is_ascii(version: CompilerVersion)
    ensures
        encode_utf8(chars_of(version_text(version))) == version_text(version),
{
    let bytes = version_text(version);
    let chars = chars_of(bytes);
    lemma_decimal_digits(version.major as nat);
    lemma_decimal_digits(version.minor as nat);
    lemma_decimal_digits(version.patch as nat);
    let a = decimal_digits(version.major as nat);
    let b = decimal_digits(version.minor as nat);
    let c = decimal_digits(version.patch as nat);
    assert forall|i: int| 0 <= i < bytes.len() implies (#[trigger] bytes[i]) < 0x80 by {
        if i < a.len() {
            assert(is_digit(a[i]));
        } else if i > a.len() && i < a.len() + 1 + b.len() {
            assert(is_digit(b[i - a.len() - 1]));
        } else if i > a.len() + 1 + b.len() {
            assert(is_digit(c[i - a.len() - b.len() - 2]));
        }
    }
    assert forall|i: int| 0 <= i < chars.len() implies '\0' <= #[trigger] chars[i] <= '\u{7f}' by {
        assert(chars[i] == bytes[i] as char);
    }
    is_ascii_chars_encode_utf8(chars);
    assert forall|i: int| 0 <= i < bytes.len() implies encode_utf8(chars)[i] == bytes[i] by {
        assert(chars[i] == bytes[i] as char);
        assert(chars[i] as u8 == bytes[i]);
    }
    assert(encode_utf8(chars) =~= bytes);
}

/// The index of the first `c` is the one before which no `c` stands and at
/// which one does, or the length where none stands at all.
pub proof fn lemma_position_of(s: Seq<u8>, c: u8, i: int)
    requires
        0 <= i <= s.len(),
        forall|j: int| 0 <= j < i ==> s[j] != c,
        i < s.len() ==> s[i] == c,
    ensures
        position_of(s, c) == i,
    decreases i,
{
    if i > 0 {
        let tail = s.drop_first();
        assert(s[0] != c);
        assert forall|j: int| 0 <= j < i - 1 implies tail[j] != c by {
            assert(tail[j] == s[j + 1]);
        }
        lemma_position_of(tail, c, i - 1);
    }
}

proof fn lemma_prefix_value(s: Seq<u8>, k: int)
    requires
        0 <= k <= s.len(),
    ensures
        decimal_value(s.take(k)) <= decimal_value(s),
    decreases s.len() - k,
{
    if k == s.len() {
        assert(s.take(k) =~= s);
    } else {
        assert(s.drop_last().take(k) =~= s.take(k));
        lemma_prefix_value(s.drop_last(), k);
    }
}

pub(crate) fn find_byte(text: &[u8], from: usize, to: usize, c: u8) -> (at: usize)
    requires
        from <= to <= text.len(),
    ensures
        from <= at <= to,
        at - from == position_of(text@.subrange(from as int, to as int), c),
{
    let ghost part = text@.subrange(from as int, to as int);
    let mut at: usize = from;
    while at < to && text[at] != c
        invariant
            from <= at <= to <= text.len(),
            part == text@.subrange(from as int, to as int),
            forall|j: int| 0 <= j < at - from ==> part[j] != c,
        decreases to - at,
    {
        at += 1;
    }
    proof {
        lemma_position_of(part, c, at - from);
    }
    at
}

fn parse_number(text: &[u8], from: usize, to: usize) -> (number: Option<u64>)
    requires
        from <= to <= text.len(),
    ensures
        number == parsed_number(text@.subrange(from as int, to as int)),
{
    let ghost part = text@.subrange(from as int, to as int);
    if from == to {
        return None;
    }
    let mut value: u64 = 0;
    let mut i: usize = from;
    while i < to
        invariant
            from <= i <= to <= text.len(),
            part == text@.subrange(from as int, to as int),
            forall|j: int| 0 <= j < i - from ==> is_digit(#[trigger] part[j]),
            value == decimal_value(part.take(i - from)),
        decreases to - i,
    {
        let c = text[i];
        if c < 0x30 || c > 0x39 {
            assert(!is_digit(part[i - from]));
            return None;
        }
        proof {
            let next = part.take(i - from + 1);
            assert(next.drop_last() =~= part.take(i - from));
            assert(next.last() == c);
            lemma_prefix_value(part, i - from + 1);
        }
        let scaled = match value.checked_mul(10) {
            Some(s) => s,
            None => {
                return None;
            },
        };
        value = match scaled.checked_add((c - 0x30) as u64) {
            Some(v) => v,
            None => {
                return None;
            },
        };
        i += 1;
    }
    assert(part.take(to - from) =~= part);
    Some(value)
}

/// Reads a version from the bytes of its text form.
pub fn parse_version_bytes(text: &[u8]) -> (version: Option<CompilerVersion>)
    ensures
        version == parsed_version(text@),
{
    let len = text.len();
    let start: usize = if len > 0 && text[0] == 0x76 {
        1
    } else {
        0
    };
    let ghost body = text@.skip(start as int);
    assert(body =~= text@.subrange(start as int, len as int));
    assert(text@.skip(0) =~= text@);
    let end = find_byte(text, start, len, 0x2b);
    let ghost core = version_core(text@);
    assert(core =~= text@.subrange(start as int, end as int));
    let first_dot = find_byte(text, start, end, 0x2e);
    if first_dot == end {
        return None;
    }
    let ghost rest = core.skip(first_dot - start + 1);
    assert(rest =~= text@.subrange(first_dot + 1, end as int));
    let second_dot = find_byte(text, first_dot + 1, end, 0x2e);
    if second_dot == end {
        return None;
    }
    assert(core.take(first_dot - start) =~= text@.subrange(start as int, first_dot as int));
    assert(rest.take(second_dot - first_dot - 1) =~= text@.subrange(
        first_dot + 1,
        second_dot as int,
    ));
    assert(rest.skip(second_dot - first_dot) =~= text@.subrange(second_dot + 1, end as int));
    let major = parse_number(text, start, first_dot);
    let minor = parse_number(text, first_dot + 1, second_dot);
    let patch = parse_number(text, second_dot + 1, end);
    match (major, minor, patch) {
        (Some(major), Some(minor), Some(patch)) => Some(CompilerVersion { major, minor, patch }),
        _ => None,
    }
}

/// No version is older than itself.
pub proof fn lemma_order_irreflexive(a: CompilerVersion)
    ensures
        !a.older_than(a),
{
}

/// The order is transitive.
pub proof fn lemma_order_transitive(a: CompilerVersion, b: CompilerVersion, c: CompilerVersion)
    requires
        a.older_than(b),
        b.older_than(c),
    ensures
        a.older_than(c),
{
}

/// The order is total: of two versions exactly one of older, same and newer
/// holds.
pub proof fn lemma_order_total(a: CompilerVersion, b: CompilerVersion)
    ensures
        a.older_than(b) || a == b || b.older_than(a),
        !(a.older_than(b) && b.older_than(a)),
        !(a.older_than(b) && a == b),
{
}

} // verus!
