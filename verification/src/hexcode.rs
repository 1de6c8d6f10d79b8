//! Hexadecimal text and the bytes it stands for.

use vstd::prelude::*;

verus! {

/// The value of one hexadecimal digit, given as a byte of text. Both cases
/// of the letters are digits.
pub open spec fn digit_value(digit: u8) -> Option<u8> {
    if 0x30 <= digit <= 0x39 {
        Some((digit - 0x30) as u8)
    } else if 0x41 <= digit <= 0x46 {
        Some((digit - 0x41 + 10) as u8)
    } else if 0x61 <= digit <= 0x66 {
        Some((digit - 0x61 + 10) as u8)
    } else {
        None
    }
}

/// Whether `text` is hexadecimal: an even number of bytes, each a digit.
pub open spec fn is_hex(text: Seq<u8>) -> bool {
    &&& text.len() % 2 == 0
    &&& forall|i: int| 0 <= i < text.len() ==> (#[trigger] digit_value(text[i])) is Some
}

/// The byte that two digits stand for, the high one first.
pub open spec fn pair_value(high: u8, low: u8) -> u8 {
    (digit_value(high)->0 * 16 + digit_value(low)->0) as u8
}

/// The bytes that `text` stands for, two digits to a byte; `None` where
/// `text` is not hexadecimal.
pub open spec fn decoded(text: Seq<u8>) -> Option<Seq<u8>> {
    if is_hex(text) {
        Some(Seq::new((text.len() / 2) as nat, |i: int| pair_value(text[2 * i], text[2 * i + 1])))
    } else {
        None
    }
}

/// The lower-case digit for a value below sixteen, as a character.
pub open spec fn digit_char(value: int) -> char {
    if value < 10 {
        (0x30 + value) as u8 as char
    } else {
        (0x61 + value - 10) as u8 as char
    }
}

/// `bytes` written in lower-case hexadecimal, two digits to a byte.
pub open spec fn encoded(bytes: Seq<u8>) -> Seq<char> {
    Seq::new(
        2 * bytes.len(),
        |i: int|
            if i % 2 == 0 {
                digit_char(bytes[i / 2] as int / 16)
            } else {
                digit_char(bytes[i / 2] as int % 16)
            },
    )
}

/// The bytes of a text of characters below 128, one byte to a character.
pub open spec fn plain_bytes(text: Seq<char>) -> Seq<u8> {
    Seq::new(text.len(), |i: int| text[i] as u8)
}

/// Decodes hexadecimal text by `hex::decode`. Trusted: the call is claimed to
/// succeed exactly on an even number of bytes that are all hexadecimal
/// digits of either case, and then to return one byte for each two digits,
/// the first digit of a pair being the high half.
#[verifier::external_body]
pub(crate) fn decode(text: &[u8]) -> (bytes: Option<Vec<u8>>)
    ensures
        match bytes {
            Some(found) => decoded(text@) == Some(found@),
            None => decoded(text@) is None,
        },
{
    ::hex::decode(text).ok()
}

/// Writing bytes in hexadecimal and reading them back gives the bytes.
pub proof fn lemma_decode_inverts_encode(bytes: Seq<u8>)
    ensures
        decoded(plain_bytes(encoded(bytes))) == Some(bytes),
{
    let text = plain_bytes(encoded(bytes));
    assert forall|i: int| 0 <= i < text.len() implies (#[trigger] digit_value(text[i])) is Some by {
        let value = if i % 2 == 0 {
            bytes[i / 2] as int / 16
        } else {
            bytes[i / 2] as int % 16
        };
        assert(0 <= value < 16);
        assert(text[i] == digit_char(value) as u8);
    }
    assert(is_hex(text));
    let back = decoded(text)->0;
    assert(back.len() == bytes.len());
    assert forall|k: int| 0 <= k < bytes.len() implies back[k] == bytes[k] by {
        let high = bytes[k] as int / 16;
        let low = bytes[k] as int % 16;
        assert((2 * k) % 2 == 0 && (2 * k) / 2 == k);
        assert((2 * k + 1) % 2 == 1 && (2 * k + 1) / 2 == k);
        assert(text[2 * k] == digit_char(high) as u8);
        assert(text[2 * k + 1] == digit_char(low) as u8);
        assert(digit_value(text[2 * k]) == Some(high as u8));
        assert(digit_value(text[2 * k + 1]) == Some(low as u8));
    }
    assert(back =~= bytes);
}

} // verus!
