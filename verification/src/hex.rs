//! Hex text and raw bytes.
//!
//! Bytecode travels as hex text, with or without a leading `0x` and in either
//! letter case. Everything that compares bytecode first turns the text into
//! raw bytes here.

use vstd::prelude::*;
use vstd::string::*;
use vstd::utf8::{encode_utf8, is_ascii_chars, is_ascii_chars_encode_utf8};

verus! {

/// The value of one hex digit given as an ASCII byte, in either case.
pub open spec fn hex_value(c: u8) -> Option<u8> {
    if 0x30 <= c <= 0x39 {
        Some((c - 0x30) as u8)
    } else if 0x61 <= c <= 0x66 {
        Some((c - 0x61 + 10) as u8)
    } else if 0x41 <= c <= 0x46 {
        Some((c - 0x41 + 10) as u8)
    } else {
        None
    }
}

/// Whether the text starts with the two bytes `0x`.
pub open spec fn has_prefix(text: Seq<u8>) -> bool {
    text.len() >= 2 && text[0] == 0x30 && text[1] == 0x78
}

/// The text without its optional `0x`.
pub open spec fn digits_of(text: Seq<u8>) -> Seq<u8> {
    if has_prefix(text) {
        text.skip(2)
    } else {
        text
    }
}

/// An even number of hex digits and nothing else.
pub open spec fn well_formed_digits(digits: Seq<u8>) -> bool {
    &&& digits.len() % 2 == 0
    &&& forall|i: int| 0 <= i < digits.len() ==> (#[trigger] hex_value(digits[i])).is_some()
}

/// The byte that the digit pair at position `k` stands for.
pub open spec fn byte_at(digits: Seq<u8>, k: int) -> u8 {
    (hex_value(digits[2 * k]).unwrap() * 16 + hex_value(digits[2 * k + 1]).unwrap()) as u8
}

/// The bytes that a well-formed digit string stands for.
pub open spec fn decoded(digits: Seq<u8>) -> Seq<u8> {
    Seq::new((digits.len() / 2) as nat, |k: int| byte_at(digits, k))
}

/// The raw bytes of a hex text: the optional `0x` is dropped and the digits
/// are read in either case. `None` where the rest is not an even number of
/// hex digits.
pub open spec fn normalized(text: Seq<u8>) -> Option<Seq<u8>> {
    let digits = digits_of(text);
    if well_formed_digits(digits) {
        Some(decoded(digits))
    } else {
        None
    }
}

/// The lower-case hex digit for a value below sixteen.
pub open spec fn digit_char(nibble: u8) -> char {
    if nibble < 10 {
        (0x30 + nibble) as char
    } else {
        (0x61 + nibble - 10) as char
    }
}

/// The display form of raw bytes: `0x`, then two lower-case digits per byte.
pub open spec fn hex_text(bytes: Seq<u8>) -> Seq<char> {
    Seq::new(
        (2 + 2 * bytes.len()) as nat,
        |i: int|
            if i == 0 {
                '0'
            } else if i == 1 {
                'x'
            } else if i % 2 == 0 {
                digit_char(bytes[(i - 2) / 2] / 16)
            } else {
                digit_char(bytes[(i - 2) / 2] % 16)
            },
    )
}

fn digit_value(c: u8) -> (value: Option<u8>)
    ensures
        value == hex_value(c),
        value matches Some(v) ==> v < 16,
{
    if 0x30 <= c && c <= 0x39 {
        Some(c - 0x30)
    } else if 0x61 <= c && c <= 0x66 {
        Some(c - 0x61 + 10)
    } else if 0x41 <= c && c <= 0x46 {
        Some(c - 0x41 + 10)
    } else {
        None
    }
}

/// Decodes hex text given as bytes. See [`normalized`].
pub fn normalize_bytes(text: &[u8]) -> (raw: Option<Vec<u8>>)
    ensures
        match raw {
            Some(bytes) => normalized(text@) == Some(bytes@),
            None => normalized(text@).is_none(),
        },
{
    let start: usize = if text.len() >= 2 && text[0] == 0x30 && text[1] == 0x78 {
        2
    } else {
        0
    };
    let ghost digits = digits_of(text@);
    assert(digits.len() == text.len() - start);
    assert(forall|i: int| 0 <= i < digits.len() ==> digits[i] == text[start + i]);
    if (text.len() - start) % 2 != 0 {
        return None;
    }
    let count: usize = (text.len() - start) / 2;
    let mut out: Vec<u8> = Vec::new();
    let mut k: usize = 0;
    while k < count
        invariant
            start <= text.len(),
            start == 0 || start == 2,
            digits == digits_of(text@),
            digits.len() == text.len() - start,
            digits.len() == 2 * count,
            forall|i: int| 0 <= i < digits.len() ==> digits[i] == text[start + i],
            k <= count,
            out.len() == k,
            forall|i: int| 0 <= i < 2 * k ==> (#[trigger] hex_value(digits[i])).is_some(),
            forall|j: int| 0 <= j < k ==> out[j] == byte_at(digits, j),
        decreases count - k,
    {
        let hi = digit_value(text[start + 2 * k]);
        let lo = digit_value(text[start + 2 * k + 1]);
        assert(digits[2 * k as int] == text[start + 2 * k]);
        assert(digits[2 * k + 1] == text[start + 2 * k + 1]);
        match (hi, lo) {
            (Some(h), Some(l)) => {
                out.push(h * 16 + l);
                assert forall|i: int| 0 <= i < 2 * (k + 1) implies (#[trigger] hex_value(
                    digits[i],
                )).is_some() by {
                    if i == 2 * k {
                    } else if i == 2 * k + 1 {
                    }
                }
            },
            _ => {
                assert(!well_formed_digits(digits)) by {
                    if hi.is_none() {
                        assert(hex_value(digits[2 * k as int]).is_none());
                    } else {
                        assert(hex_value(digits[2 * k + 1]).is_none());
                    }
                }
                return None;
            },
        }
        k += 1;
    }
    assert(well_formed_digits(digits));
    assert(out@ =~= decoded(digits));
    Some(out)
}

/// Decodes hex text. The text is read by its bytes, so anything outside
/// ASCII makes it ill-formed.
pub fn normalize(text: &str) -> (raw: Option<Vec<u8>>)
    ensures
        match raw {
            Some(bytes) => normalized(text.spec_bytes()) == Some(bytes@),
            None => normalized(text.spec_bytes()).is_none(),
        },
{
    normalize_bytes(text.as_bytes())
}

/// The display form of raw bytes, as `blockscout_display_bytes::Bytes`
/// prints it: `0x` followed by the lower-case hex digits of each byte in
/// turn, which is what [`hex_text`] says. Trusted, not proved.
#[verifier::external_body]
pub(crate) fn display_bytes(bytes: &[u8]) -> (text: String)
    ensures
        text@ == hex_text(bytes@),
{
    blockscout_display_bytes::Bytes::from(bytes.to_vec()).to_string()
}

/// The value of a lower-case digit is the nibble it was made from.
pub proof fn lemma_digit_char_value(nibble: u8)
    requires
        nibble < 16,
    ensures
        digit_char(nibble) as u32 <= 0x7f,
        hex_value(digit_char(nibble) as u8) == Some(nibble),
{
}

/// The display form is plain ASCII, so its bytes are its characters.
pub open spec fn hex_text_bytes(bytes: Seq<u8>) -> Seq<u8> {
    Seq::new(hex_text(bytes).len(), |i: int| hex_text(bytes)[i] as u8)
}

/// Reading the display form of raw bytes gives the bytes back.
pub proof fn lemma_display_then_normalize(bytes: Seq<u8>)
    ensures
        normalized(hex_text_bytes(bytes)) == Some(bytes),
{
    let text = hex_text_bytes(bytes);
    let digits = digits_of(text);
    assert(has_prefix(text));
    assert(digits.len() == 2 * bytes.len());
    assert forall|i: int| 0 <= i < digits.len() implies (#[trigger] hex_value(digits[i])).is_some() by {
        let byte = bytes[i / 2];
        assert(digits[i] == text[i + 2]);
        assert(text[i + 2] == hex_text(bytes)[i + 2] as u8);
        if i % 2 == 0 {
            assert((i + 2) % 2 == 0);
            assert((i + 2 - 2) / 2 == i / 2);
            lemma_digit_char_value(byte / 16);
        } else {
            assert((i + 2) % 2 != 0);
            assert((i + 2 - 2) / 2 == i / 2);
            lemma_digit_char_value(byte % 16);
        }
    }
    assert forall|k: int| 0 <= k < bytes.len() implies byte_at(digits, k) == bytes[k] by {
        let byte = bytes[k];
        assert(digits[2 * k] == text[2 * k + 2]);
        assert(digits[2 * k + 1] == text[2 * k + 3]);
        assert((2 * k + 2) % 2 == 0);
        assert((2 * k + 2 - 2) / 2 == k);
        assert((2 * k + 3) % 2 != 0);
        assert((2 * k + 3 - 2) / 2 == k);
        lemma_digit_char_value(byte / 16);
        lemma_digit_char_value(byte % 16);
        assert(hex_value(digits[2 * k]) == Some((byte / 16) as u8));
        assert(hex_value(digits[2 * k + 1]) == Some((byte % 16) as u8));
    }
    assert(decoded(digits) =~= bytes);
}

/// The display form is ASCII, and its bytes as text are those of
/// [`hex_text_bytes`].
pub proof fn lemma_hex_text_is_ascii(bytes: Seq<u8>)
    ensures
        is_ascii_chars(hex_text(bytes)),
        encode_utf8(hex_text(bytes)) == hex_text_bytes(bytes),
{
    let text = hex_text(bytes);
    assert forall|i: int| 0 <= i < text.len() implies '\0' <= #[trigger] text[i] <= '\u{7f}' by {
        if i >= 2 {
            let byte = bytes[(i - 2) / 2];
            lemma_digit_char_value(byte / 16);
            lemma_digit_char_value(byte % 16);
        }
    }
    is_ascii_chars_encode_utf8(text);
    assert(encode_utf8(text) =~= hex_text_bytes(bytes));
}

} // verus!
