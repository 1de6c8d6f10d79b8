//! The shared secret, the store, and the check of an update's signature.

use vstd::prelude::*;
use vstd::string::*;
use hmac::{Hmac, Mac, NewMac};
use sha2::Sha256;
use crate::hexcode::{
    decode, decoded, digit_char, encoded, lemma_decode_inverts_encode, plain_bytes,
};
use crate::invoice::InvoiceCommands;
use crate::text::same_text;

verus! {

/// The HMAC-SHA256 tag of `message` under `key`: what the `hmac` crate
/// computes with `sha2`'s SHA-256. Nothing is stated of its bytes.
pub uninterp spec fn hmac_sha256(key: Seq<u8>, message: Seq<u8>) -> Seq<u8>;

/// Checks a tag by `Hmac::<Sha256>`: `new_varkey` with the key, `update` with
/// the message, `verify` with the tag. Trusted: `new_varkey` is claimed to
/// take a key of any length, and `verify` to accept exactly the tag that the
/// computation yields, a tag of another length being refused like a wrong one.
#[verifier::external_body]
fn tag_matches(key: &[u8], message: &[u8], tag: &[u8]) -> (matches: bool)
    ensures
        matches == (tag@ == hmac_sha256(key@, message@)),
{
    let mut mac = Hmac::<Sha256>::new_varkey(key).expect("HMAC key error");
    mac.update(message);
    mac.verify(tag).is_ok()
}

/// The one algorithm a signature may name.
pub open spec fn algorithm() -> Seq<char> {
    "sha256"@
}

/// Why a signature header was turned away before its digest was looked at.
#[derive(Debug, Clone, Copy, PartialEq, Eq, Structural)]
pub enum SignatureError {
    /// The header does not hold exactly one `=`.
    Malformed,
    /// The algorithm named before the `=` is not the supported one.
    UnsupportedAlgorithm,
}

/// Whether `header` holds exactly one `=`, and holds it at `place`.
pub open spec fn splits_at(header: Seq<char>, place: int) -> bool {
    &&& 0 <= place < header.len()
    &&& forall|i: int| 0 <= i < header.len() ==> ((#[trigger] header[i]) == '=' <==> i == place)
}

/// Whether `header` holds exactly one `=`.
pub open spec fn well_formed(header: Seq<char>) -> bool {
    exists|place: int| splits_at(header, place)
}

/// The place of the one `=` of a well-formed header.
pub open spec fn separator(header: Seq<char>) -> int {
    choose|place: int| splits_at(header, place)
}

/// Whether `digest`, as hexadecimal text, stands for the tag of `body` under `secret`.
pub open spec fn digest_matches(body: Seq<u8>, digest: Seq<char>, secret: Seq<u8>) -> bool {
    decoded(vstd::utf8::encode_utf8(digest)) == Some(hmac_sha256(secret, body))
}

/// What checking a signature header comes to. A header that is not of the
/// form `<algorithm>=<digest>`, or names another algorithm, is an error;
/// otherwise the outcome is whether the digest is the tag of `body`.
pub open spec fn verdict(body: Seq<u8>, header: Seq<char>, secret: Seq<u8>) -> Result<
    bool,
    SignatureError,
> {
    if !well_formed(header) {
        Err(SignatureError::Malformed)
    } else if header.subrange(0, separator(header)) != algorithm() {
        Err(SignatureError::UnsupportedAlgorithm)
    } else {
        Ok(
            digest_matches(
                body,
                header.subrange(separator(header) + 1, header.len() as int),
                secret,
            ),
        )
    }
}

/// The header that vouches for `tag`: the algorithm, `=`, and the tag in
/// lower-case hexadecimal.
pub open spec fn signed_header(tag: Seq<u8>) -> Seq<char> {
    algorithm() + seq!['='] + encoded(tag)
}

/// A header with exactly one `=` has it where `separator` says.
pub proof fn lemma_separator_is_unique(header: Seq<char>, place: int)
    requires
        splits_at(header, place),
    ensures
        well_formed(header),
        separator(header) == place,
{
    let chosen = separator(header);
    assert(splits_at(header, chosen));
    assert(header[place] == '=');
}

/// The header written for a tag is well formed, names the supported
/// algorithm, and its digest is read back as the tag.
pub proof fn lemma_signed_header_reads_back(tag: Seq<u8>)
    ensures
        splits_at(signed_header(tag), 6),
        signed_header(tag).subrange(0, 6) == algorithm(),
        decoded(
            vstd::utf8::encode_utf8(
                signed_header(tag).subrange(7, signed_header(tag).len() as int),
            ),
        ) == Some(tag),
{
    reveal_strlit("sha256");
    let header = signed_header(tag);
    let digest = encoded(tag);
    assert(header.len() == 7 + digest.len());
    assert forall|i: int| 0 <= i < digest.len() implies '0' <= (#[trigger] digest[i]) <= 'f'
        && digest[i] != '=' by {
        let value = if i % 2 == 0 {
            tag[i / 2] as int / 16
        } else {
            tag[i / 2] as int % 16
        };
        assert(0 <= value < 16);
        assert(digest[i] == digit_char(value));
    }
    assert forall|i: int| 0 <= i < header.len() implies ((#[trigger] header[i]) == '=' <==> i
        == 6) by {
        if i > 6 {
            assert(header[i] == digest[i - 7]);
        }
    }
    assert(header.subrange(0, 6) =~= algorithm());
    assert(header.subrange(7, header.len() as int) =~= digest);
    assert(vstd::utf8::is_ascii_chars(digest));
    vstd::utf8::is_ascii_chars_encode_utf8(digest);
    assert(vstd::utf8::encode_utf8(digest) =~= plain_bytes(digest));
    lemma_decode_inverts_encode(tag);
}

/// A body signed with the secret is accepted: the header written for the
/// tag of `body` under `secret` checks as valid.
pub proof fn lemma_own_signature_accepted(body: Seq<u8>, secret: Seq<u8>)
    ensures
        verdict(body, signed_header(hmac_sha256(secret, body)), secret) == Ok::<
            bool,
            SignatureError,
        >(true),
{
    let tag = hmac_sha256(secret, body);
    lemma_signed_header_reads_back(tag);
    lemma_separator_is_unique(signed_header(tag), 6);
}

/// A header written for any other bytes than the tag is checked and found invalid.
pub proof fn lemma_other_tag_rejected(body: Seq<u8>, secret: Seq<u8>, tag: Seq<u8>)
    requires
        tag != hmac_sha256(secret, body),
    ensures
        verdict(body, signed_header(tag), secret) == Ok::<bool, SignatureError>(false),
{
    lemma_signed_header_reads_back(tag);
    lemma_separator_is_unique(signed_header(tag), 6);
}

/// The tag with one bit of one byte turned over.
pub open spec fn flipped(tag: Seq<u8>, index: int, bit: u8) -> Seq<u8> {
    tag.update(index, tag[index] ^ (1u8 << bit))
}

/// Turning over any one bit of the tag makes the signature invalid.
pub proof fn lemma_flipped_bit_rejected(body: Seq<u8>, secret: Seq<u8>, index: int, bit: u8)
    requires
        0 <= index < hmac_sha256(secret, body).len(),
        bit < 8,
    ensures
        verdict(
            body,
            signed_header(flipped(hmac_sha256(secret, body), index, bit)),
            secret,
        ) == Ok::<bool, SignatureError>(false),
{
    let tag = hmac_sha256(secret, body);
    let byte = tag[index];
    assert(byte ^ (1u8 << bit) != byte) by (bit_vector)
        requires
            bit < 8,
    ;
    assert(flipped(tag, index, bit)[index] != tag[index]);
    lemma_other_tag_rejected(body, secret, flipped(tag, index, bit));
}

/// A header that does not hold exactly one `=` is turned away as malformed,
/// whatever the body, the secret and the tag are.
pub proof fn lemma_malformed_header_rejected(body: Seq<u8>, header: Seq<char>, secret: Seq<u8>)
    requires
        forall|place: int| !splits_at(header, place),
    ensures
        verdict(body, header, secret) == Err::<bool, SignatureError>(SignatureError::Malformed),
{
}

/// Finds the `=` of a header that holds exactly one.
fn find_separator(header: &str) -> (found: Option<usize>)
    ensures
        match found {
            Some(place) => splits_at(header@, place as int),
            None => !well_formed(header@),
        },
{
    let length = header.unicode_len();
    let mut first: Option<usize> = None;
    let mut again: bool = false;
    let mut index: usize = 0;
    for mark in walk: header.chars()
        invariant
            walk.seq() == header@,
            length == header@.len(),
            index == walk.index(),
            match first {
                Some(place) => {
                    &&& place < index
                    &&& header@[place as int] == '='
                    &&& forall|i: int| 0 <= i < place ==> header@[i] != '='
                    &&& again ==> exists|other: int|
                        place < other < index && header@[other] == '='
                    &&& !again ==> forall|i: int| place < i < index ==> header@[i] != '='
                },
                None => !again && forall|i: int| 0 <= i < index ==> header@[i] != '=',
            },
    {
        if mark == '=' {
            if first.is_some() {
                again = true;
            } else {
                first = Some(index);
            }
        }
        index = index + 1;
    }
    match first {
        Some(place) => {
            if again {
                proof {
                    let other = choose|other: int|
                        place < other < length && header@[other] == '=';
                    assert forall|at: int| !splits_at(header@, at) by {
                        if splits_at(header@, at) {
                            assert(header@[place as int] == '=');
                            assert(header@[other] == '=');
                        }
                    }
                }
                None
            } else {
                Some(place)
            }
        },
        None => {
            proof {
                assert forall|at: int| !splits_at(header@, at) by {
                    if splits_at(header@, at) {
                        assert(header@[at] == '=');
                    }
                }
            }
            None
        },
    }
}

/// Checks the signature header of an update against its body.
///
/// `header_value` must read `sha256=<digest>`, with no other `=` in it. The
/// digest is hexadecimal; one that is not hexadecimal matches nothing.
pub fn verify(raw_body: &[u8], header_value: &str, secret: &[u8]) -> (checked: Result<
    bool,
    SignatureError,
>)
    ensures
        checked == verdict(raw_body@, header_value@, secret@),
{
    match find_separator(header_value) {
        None => Err(SignatureError::Malformed),
        Some(place) => {
            let length = header_value.unicode_len();
            let name = header_value.substring_char(0, place);
            let digest = header_value.substring_char(place + 1, length);
            proof {
                lemma_separator_is_unique(header_value@, place as int);
            }
            if !same_text(name, "sha256") {
                Err(SignatureError::UnsupportedAlgorithm)
            } else {
                match decode(digest.as_bytes()) {
                    Some(tag) => Ok(tag_matches(secret, raw_body, tag.as_slice())),
                    None => Ok(false),
                }
            }
        },
    }
}

/// What the handlers share: the status store and the secret that signs updates.
#[derive(Clone)]
pub struct State<T: InvoiceCommands> {
    pub db: T,
    pub hmac: String,
}

impl<T: InvoiceCommands> State<T> {
    /// Whether `sig`, a digest in hexadecimal, is the tag of `data` under the secret.
    pub fn verify_hmac(&self, data: String, sig: String) -> (valid: bool)
        ensures
            valid == digest_matches(
                vstd::utf8::encode_utf8(data@),
                sig@,
                vstd::utf8::encode_utf8(self.hmac@),
            ),
    {
        match decode(sig.as_str().as_bytes()) {
            Some(tag) => tag_matches(
                self.hmac.as_str().as_bytes(),
                data.as_str().as_bytes(),
                tag.as_slice(),
            ),
            None => false,
        }
    }
}

} // verus!
