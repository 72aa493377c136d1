//! Checks on a receipt before its seal is verified.
//!
//! A receipt belongs to a program, named by an image identifier, and its
//! journal records the state the program started from and the state it left.
//! Before the receipt is handed to the proof system, the recorded states are
//! compared with the expected ones, and the identifier is turned from text
//! into the eight words that the proof system takes.

use vstd::prelude::*;
use vstd::string::StringSliceAdditionalSpecFns;

verus! {

/// What the journal of a receipt records.
#[derive(Clone, Debug, Default, PartialEq, Eq)]
pub struct HyleOutput {
    pub initial_state: Vec<u8>,
    pub next_state: Vec<u8>,
}

/// Why a receipt is refused before its seal is looked at.
#[derive(Clone, Copy, Debug, PartialEq, Eq, Structural)]
pub enum ReceiptError {
    /// The journal starts from another state than expected.
    InitialStateMismatch,
    /// The journal ends in another state than expected.
    NextStateMismatch,
    /// The image identifier is not eight hexadecimal words.
    InvalidImageId,
}

/// Number of bytes that spell one word.
pub const WORD_TEXT_LEN: usize = 8;

/// The value of a hexadecimal digit of either case.
pub open spec fn hex_digit(byte: u8) -> Option<nat> {
    if 0x30 <= byte <= 0x39 {
        Some((byte - 0x30) as nat)
    } else if 0x61 <= byte <= 0x66 {
        Some((byte - 0x61 + 10) as nat)
    } else if 0x41 <= byte <= 0x46 {
        Some((byte - 0x41 + 10) as nat)
    } else {
        None
    }
}

/// The number that a run of hexadecimal digits spells, most significant
/// digit first; `None` where a byte is no digit.
pub open spec fn hex_value(digits: Seq<u8>) -> Option<nat>
    decreases digits.len(),
{
    if digits.len() == 0 {
        Some(0)
    } else {
        match (hex_value(digits.drop_last()), hex_digit(digits.last())) {
            (Some(high), Some(low)) => Some(16 * high + low),
            _ => None,
        }
    }
}

/// The word that eight bytes spell, read as an integer in base sixteen: a
/// `+` sign may stand in place of the first digit.
pub open spec fn word_value(text: Seq<u8>) -> Option<nat>
    recommends
        text.len() == WORD_TEXT_LEN,
{
    if text[0] == 0x2b {
        hex_value(text.subrange(1, 8))
    } else {
        hex_value(text)
    }
}

/// The bytes that spell word `index` of an identifier.
pub open spec fn word_text(bytes: Seq<u8>, index: int) -> Seq<u8> {
    bytes.subrange(8 * index, 8 * index + 8)
}

/// The eight words of an image identifier: its first sixty-four bytes, eight
/// to a word. `None` where the identifier is shorter or a word is not
/// spelled out; what follows the sixty-fourth byte is not looked at.
pub open spec fn image_words(bytes: Seq<u8>) -> Option<Seq<u32>> {
    if bytes.len() >= 64 && (forall|i: int|
        0 <= i < 8 ==> (#[trigger] word_value(word_text(bytes, i))) is Some) {
        Some(Seq::new(8, |i: int| word_value(word_text(bytes, i))->0 as u32))
    } else {
        None
    }
}

/// One more than the largest number that `count` hexadecimal digits spell.
pub open spec fn hex_bound(count: nat) -> nat
    decreases count,
{
    if count == 0 {
        1
    } else {
        16 * hex_bound((count - 1) as nat)
    }
}

/// The value of one hexadecimal digit.
fn digit_of(byte: u8) -> (r: Option<u64>)
    ensures
        match r {
            Some(value) => hex_digit(byte) == Some(value as nat) && value < 16,
            None => hex_digit(byte) is None,
        },
{
    if 0x30 <= byte && byte <= 0x39 {
        Some((byte - 0x30) as u64)
    } else if 0x61 <= byte && byte <= 0x66 {
        Some((byte - 0x61 + 10) as u64)
    } else if 0x41 <= byte && byte <= 0x46 {
        Some((byte - 0x41 + 10) as u64)
    } else {
        None
    }
}

/// Reads the word that the eight bytes from `at` on spell.
fn read_word(bytes: &[u8], at: usize) -> (r: Option<u32>)
    requires
        at + 8 <= bytes@.len(),
    ensures
        match r {
            Some(word) => word_value(bytes@.subrange(at as int, at + 8)) == Some(word as nat),
            None => word_value(bytes@.subrange(at as int, at + 8)) is None,
        },
{
    let ghost text = bytes@.subrange(at as int, at + 8);
    let first: usize = if bytes[at] == 0x2b {
        1
    } else {
        0
    };
    let ghost digits = text.subrange(first as int, 8);
    assert(first == 0 ==> digits =~= text);
    assert(at + 8 <= bytes.len());
    let mut value: u64 = 0;
    let mut read: usize = first;
    while read < 8
        invariant
            first <= read <= 8,
            at + 8 <= bytes@.len(),
            at + 8 <= usize::MAX,
            word_value(text) == hex_value(digits),
            text == bytes@.subrange(at as int, at + 8),
            digits == text.subrange(first as int, 8),
            hex_value(digits.subrange(0, read - first)) == Some(value as nat),
            value < hex_bound((read - first) as nat),
        decreases 8 - read,
    {
        let ghost before = digits.subrange(0, read - first);
        let ghost after = digits.subrange(0, read - first + 1);
        proof {
            reveal_with_fuel(hex_bound, 10);
            assert(after.drop_last() =~= before);
            assert(after.last() == bytes@[at + read]);
        }
        match digit_of(bytes[at + read]) {
            Some(digit) => {
                value = 16 * value + digit;
            },
            None => {
                proof {
                    lemma_digit_missing(digits, read - first);
                }
                return None;
            },
        }
        read += 1;
    }
    proof {
        reveal_with_fuel(hex_bound, 10);
        assert(digits.subrange(0, 8 - first) =~= digits);
    }
    Some(value as u32)
}

/// A run of digits with a byte that is no digit spells no number.
proof fn lemma_digit_missing(digits: Seq<u8>, at: int)
    requires
        0 <= at < digits.len(),
        hex_digit(digits[at]) is None,
    ensures
        hex_value(digits) is None,
    decreases digits.len(),
{
    if at < digits.len() - 1 {
        lemma_digit_missing(digits.drop_last(), at);
    }
}

/// Turns an image identifier from text into its eight words.
///
/// The text is taken byte by byte. `None` where it has fewer than sixty-four
/// bytes or one of the eight words is not spelled out.
pub fn decode_image_id(image_id: &str) -> (r: Option<[u32; 8]>)
    ensures
        match r {
            Some(words) => image_words(image_id.spec_bytes()) == Some(words@),
            None => image_words(image_id.spec_bytes()) is None,
        },
{
    let bytes = image_id.as_bytes();
    if bytes.len() < 64 {
        return None;
    }
    let mut words: [u32; 8] = [0;8];
    let mut index: usize = 0;
    while index < 8
        invariant
            index <= 8,
            bytes@ == image_id.spec_bytes(),
            bytes@.len() >= 64,
            forall|i: int|
                0 <= i < index ==> (#[trigger] word_value(word_text(bytes@, i))) == Some(
                    words@[i] as nat,
                ),
        decreases 8 - index,
    {
        match read_word(bytes, 8 * index) {
            Some(word) => {
                words[index] = word;
            },
            None => {
                assert(word_value(word_text(bytes@, index as int)) is None);
                return None;
            },
        }
        index += 1;
    }
    proof {
        let spelled = Seq::new(8, |i: int| word_value(word_text(bytes@, i))->0 as u32);
        assert forall|i: int| 0 <= i < 8 implies spelled[i] == words@[i] by {
            assert(word_value(word_text(bytes@, i)) == Some(words@[i] as nat));
        }
        assert(spelled =~= words@);
    }
    Some(words)
}

/// Whether two buffers hold the same bytes.
fn same_bytes(left: &[u8], right: &[u8]) -> (same: bool)
    ensures
        same == (left@ == right@),
{
    if left.len() != right.len() {
        return false;
    }
    let mut at: usize = 0;
    while at < left.len()
        invariant
            at <= left@.len(),
            left@.len() == right@.len(),
            forall|k: int| 0 <= k < at ==> left@[k] == right@[k],
        decreases left@.len() - at,
    {
        if left[at] != right[at] {
            return false;
        }
        at += 1;
    }
    assert(left@ =~= right@);
    true
}

/// What the checks on a receipt come to: the words of the image identifier,
/// or the first check that fails.
pub open spec fn receipt_check(
    image_id: Seq<u8>,
    recorded_initial: Seq<u8>,
    recorded_next: Seq<u8>,
    initial_state: Seq<u8>,
    next_state: Seq<u8>,
) -> Result<Seq<u32>, ReceiptError> {
    if recorded_initial != initial_state {
        Err(ReceiptError::InitialStateMismatch)
    } else if recorded_next != next_state {
        Err(ReceiptError::NextStateMismatch)
    } else {
        match image_words(image_id) {
            Some(words) => Ok(words),
            None => Err(ReceiptError::InvalidImageId),
        }
    }
}

/// Checks a receipt's journal against the expected states and decodes the
/// image identifier that its seal is to be verified against.
///
/// The states are compared first, the initial one before the next one; the
/// identifier is decoded only where both agree.
pub fn perform_verification(
    image_id: &str,
    output: &HyleOutput,
    initial_state: &[u8],
    next_state: &[u8],
) -> (r: Result<[u32; 8], ReceiptError>)
    ensures
        match r {
            Ok(words) => receipt_check(
                image_id.spec_bytes(),
                output.initial_state@,
                output.next_state@,
                initial_state@,
                next_state@,
            ) == Ok::<Seq<u32>, ReceiptError>(words@),
            Err(e) => receipt_check(
                image_id.spec_bytes(),
                output.initial_state@,
                output.next_state@,
                initial_state@,
                next_state@,
            ) == Err::<Seq<u32>, ReceiptError>(e),
        },
{
    if !same_bytes(output.initial_state.as_slice(), initial_state) {
        return Err(ReceiptError::InitialStateMismatch);
    }
    if !same_bytes(output.next_state.as_slice(), next_state) {
        return Err(ReceiptError::NextStateMismatch);
    }
    match decode_image_id(image_id) {
        Some(words) => Ok(words),
        None => Err(ReceiptError::InvalidImageId),
    }
}

} // verus!
