//! The two values that this library shares with the ledger: the public key that names a
//! participant, and a signature. Both are plain bytes here.

use vstd::prelude::*;

use crate::bytes::take;

verus! {

/// The 32-byte public key of one participant.
#[derive(Debug, Clone, Copy, PartialEq, Eq)]
pub struct Pubkey(pub [u8; 32]);

impl View for Pubkey {
    type V = Seq<u8>;

    open spec fn view(&self) -> Seq<u8> {
        self.0@
    }
}

impl Pubkey {
    /// The key made of exactly these 32 bytes.
    pub fn new(bytes: &[u8]) -> (key: Pubkey)
        requires
            bytes@.len() == 32,
        ensures
            key@ == bytes@,
    {
        let key = Pubkey(take::<32>(bytes, 0));
        assert(bytes@.subrange(0, 32) =~= bytes@);
        key
    }

    pub fn to_bytes(&self) -> (out: [u8; 32])
        ensures
            out@ == self@,
    {
        self.0
    }
}

/// A signature, or one party's share of one, as its 64 bytes: the nonce half, then the
/// scalar half.
#[derive(Debug, Clone, Copy, PartialEq, Eq)]
pub struct Signature(pub [u8; 64]);

impl View for Signature {
    type V = Seq<u8>;

    open spec fn view(&self) -> Seq<u8> {
        self.0@
    }
}

impl Signature {
    /// The signature made of exactly these 64 bytes.
    pub fn new(bytes: &[u8]) -> (signature: Signature)
        requires
            bytes@.len() == 64,
        ensures
            signature@ == bytes@,
    {
        let signature = Signature(take::<64>(bytes, 0));
        assert(bytes@.subrange(0, 64) =~= bytes@);
        signature
    }

    pub fn to_bytes(&self) -> (out: [u8; 64])
        ensures
            out@ == self@,
    {
        self.0
    }
}

} // verus!
