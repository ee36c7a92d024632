//! The commitment by which a party binds itself to its nonce before revealing it:
//! a SHA-512 hash over the nonce point's y coordinate and a blinding factor.

use vstd::prelude::*;

use curv::arithmetic::Converter;
use curv::cryptographic_primitives::commitments::hash_commitment::HashCommitment;
use curv::cryptographic_primitives::commitments::traits::Commitment as CommitmentScheme;
use curv::BigInt;
use sha2::Sha512;

use crate::bytes::ct_eq;
use crate::curve::{y_coordinate, Point};

verus! {

/// What `HashCommitment::<Sha512>::create_commitment_with_user_defined_randomness`
/// gives for a message and a blinding factor. All three are numbers, written as
/// big-endian bytes; the result is padded to 64 bytes.
pub uninterp spec fn hash_commitment(message: Seq<u8>, blinding: Seq<u8>) -> Seq<u8>;

/// Calls `HashCommitment::<Sha512>::create_commitment_with_user_defined_randomness`
/// on the numbers that the two byte strings spell.
///
/// Trusted: the commitment is a function of the two numbers. It is a SHA-512 digest
/// read as a number, so it fits in 64 bytes.
#[verifier::external_body]
fn hash_commit(message: &[u8], blinding: &[u8; 64]) -> (commitment: [u8; 64])
    ensures
        commitment@ == hash_commitment(message@, blinding@),
{
    let commitment = HashCommitment::<Sha512>::create_commitment_with_user_defined_randomness(
        &BigInt::from_bytes(message),
        &BigInt::from_bytes(blinding),
    );
    commitment.to_bytes_array::<64>().expect("a SHA-512 digest fits in 64 bytes")
}

/// The commitment to a nonce point (by its canonical encoding) under a blinding factor.
pub open spec fn commitment_to(nonce: Seq<u8>, blind_factor: Seq<u8>) -> Seq<u8> {
    hash_commitment(y_coordinate(nonce), blind_factor)
}

/// Whether the revealed nonce and blinding factor open the commitment: they do when
/// committing to them anew gives the same value.
pub open spec fn opens(commitment: Seq<u8>, nonce: Seq<u8>, blind_factor: Seq<u8>) -> bool {
    commitment == commitment_to(nonce, blind_factor)
}

/// The randomness that hides the nonce inside a commitment: a number below 2^512, as
/// 64 big-endian bytes.
#[derive(Debug, Clone, Copy, PartialEq, Eq)]
pub struct BlindFactor(pub [u8; 64]);

impl View for BlindFactor {
    type V = Seq<u8>;

    open spec fn view(&self) -> Seq<u8> {
        self.0@
    }
}

/// A published commitment: a number below 2^512, as 64 big-endian bytes.
#[derive(Debug, Clone, Copy, PartialEq, Eq)]
pub struct Commitment(pub [u8; 64]);

impl View for Commitment {
    type V = Seq<u8>;

    open spec fn view(&self) -> Seq<u8> {
        self.0@
    }
}

impl Commitment {
    /// Whether two commitments are the same value, found in constant time.
    pub fn same_as(&self, other: &Commitment) -> (same: bool)
        ensures
            same == (self@ == other@),
    {
        ct_eq::<64>(&self.0, &other.0)
    }

    /// Whether the revealed nonce and blinding factor open this commitment.
    pub fn opened_by(&self, nonce: &Point, blind_factor: &BlindFactor) -> (ok: bool)
        ensures
            ok == opens(self@, nonce@, blind_factor@),
    {
        let recomputed = commit(nonce, blind_factor);
        self.same_as(&recomputed)
    }
}

/// Commits to a nonce point under a blinding factor.
pub fn commit(nonce: &Point, blind_factor: &BlindFactor) -> (commitment: Commitment)
    ensures
        commitment@ == commitment_to(nonce@, blind_factor@),
{
    let y = nonce.y_coord();
    Commitment(hash_commit(y.as_slice(), &blind_factor.0))
}

/// A commitment is opened by the very nonce and blinding factor it was made from.
pub proof fn lemma_commitment_opens(nonce: Seq<u8>, blind_factor: Seq<u8>)
    ensures
        opens(commitment_to(nonce, blind_factor), nonce, blind_factor),
{
}

} // verus!
