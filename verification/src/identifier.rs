//! The raw identifier and its digest stage.
//!
//! A `RawIdentifierString` accumulates the hardware attribute values
//! one source tier yielded. The digest stage condenses it into a
//! fixed-format identifier: the 256-bit hash of its bytes, rendered as
//! 64 lowercase hex characters. The stage is pure and total — equal
//! raw identifiers always give byte-identical digests.

use vstd::prelude::*;

use sha2::Digest;

verus! {

/// The 32-byte hash that the 256-bit digest function assigns to
/// `data`; a function of the input bytes alone.
pub uninterp spec fn sha256_of(data: Seq<u8>) -> Seq<u8>;

/// The lowercase hex character for a nibble value.
pub open spec fn hex_digit(n: u8) -> char
    recommends
        n < 16,
{
    if n == 0 {
        '0'
    } else if n == 1 {
        '1'
    } else if n == 2 {
        '2'
    } else if n == 3 {
        '3'
    } else if n == 4 {
        '4'
    } else if n == 5 {
        '5'
    } else if n == 6 {
        '6'
    } else if n == 7 {
        '7'
    } else if n == 8 {
        '8'
    } else if n == 9 {
        '9'
    } else if n == 10 {
        'a'
    } else if n == 11 {
        'b'
    } else if n == 12 {
        'c'
    } else if n == 13 {
        'd'
    } else if n == 14 {
        'e'
    } else {
        'f'
    }
}

/// Lowercase hex rendering: two digits per byte, high nibble first.
pub open spec fn hex_of(bytes: Seq<u8>) -> Seq<char>
    decreases bytes.len(),
{
    if bytes.len() == 0 {
        Seq::<char>::empty()
    } else {
        seq![hex_digit(bytes[0] / 16), hex_digit(bytes[0] % 16)] + hex_of(bytes.drop_first())
    }
}

pub proof fn lemma_hex_of_len(bytes: Seq<u8>)
    ensures
        hex_of(bytes).len() == 2 * bytes.len(),
    decreases bytes.len(),
{
    if bytes.len() > 0 {
        lemma_hex_of_len(bytes.drop_first());
    }
}

/// What the digest stage yields for a raw identifier with the given
/// bytes: the hash, hex-rendered.
pub open spec fn digest_spec(raw: Seq<u8>) -> Seq<char> {
    hex_of(sha256_of(raw))
}

/// Determinism of the digest stage: the digest is a function of the
/// raw identifier bytes alone, so equal raw identifiers yield
/// byte-identical digests.
pub proof fn lemma_digest_deterministic(a: Seq<u8>, b: Seq<u8>)
    requires
        a == b,
    ensures
        digest_spec(a) == digest_spec(b),
{
}

/// Relies on `sha2::Sha256` (through `Digest::digest`): the hash
/// depends on the input bytes alone and is exactly 32 bytes long.
#[verifier::external_body]
fn sha256(data: &Vec<u8>) -> (r: Vec<u8>)
    ensures
        r@ == sha256_of(data@),
        r@.len() == 32,
{
    sha2::Sha256::digest(data.as_slice()).to_vec()
}

/// Relies on `hex::encode`: each input byte becomes two lowercase hex
/// digits, high nibble first.
#[verifier::external_body]
fn encode_hex(data: &Vec<u8>) -> (r: String)
    ensures
        r@ == hex_of(data@),
{
    hex::encode(data.as_slice())
}

/// An accumulator of concatenated hardware attribute values. Built
/// fresh on every probe; the concatenation order is the tier's fixed
/// field order, so the same machine yields the same bytes run after
/// run.
pub struct RawIdentifierString {
    bytes: Vec<u8>,
}

impl View for RawIdentifierString {
    type V = Seq<u8>;

    closed spec fn view(&self) -> Seq<u8> {
        self.bytes@
    }
}

impl RawIdentifierString {
    pub fn from_bytes(bytes: Vec<u8>) -> (r: Self)
        ensures
            r@ == bytes@,
    {
        RawIdentifierString { bytes }
    }

    pub fn as_bytes(&self) -> (r: &Vec<u8>)
        ensures
            r@ == self@,
    {
        &self.bytes
    }

    pub fn is_empty(&self) -> (r: bool)
        ensures
            r == (self@.len() == 0),
    {
        self.bytes.len() == 0
    }

    /// The digest stage: hash the raw bytes and render the result as
    /// 64 lowercase hex characters.
    pub fn digest(&self) -> (r: String)
        ensures
            r@ == digest_spec(self@),
            r@.len() == 64,
    {
        let h = sha256(&self.bytes);
        let r = encode_hex(&h);
        proof {
            lemma_hex_of_len(sha256_of(self@));
        }
        r
    }
}

} // verus!
