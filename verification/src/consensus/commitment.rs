//! Commitments and reveals: the two messages of a round.

use vstd::prelude::*;
use crate::common::bytes::B256;
use crate::common::error::Error;
use crate::common::signature::Signature;
use crate::consensus::header::Header;

verus! {

/// A binding digest of a header and a nonce that its committer keeps secret
/// until the reveal phase.
#[derive(Clone, Copy, Debug, PartialEq, Eq, Structural)]
pub struct Commitment {
    /// Digest of the committed header followed by the nonce.
    pub digest: B256,
}

impl Commitment {
    /// Reads a commitment from exactly 32 bytes; any other length is refused.
    pub fn decode(bytes: &[u8]) -> (r: Result<Commitment, Error>)
        ensures
            bytes@.len() == 32 ==> r == Ok::<Commitment, Error>(
                Commitment { digest: B256::from_bytes(bytes@) },
            ),
            bytes@.len() != 32 ==> r == Err::<Commitment, Error>(Error::InvalidArgument),
    {
        match B256::from_slice(bytes) {
            Ok(digest) => Ok(Commitment { digest }),
            Err(_) => Err(Error::InvalidArgument),
        }
    }

    /// The 32 bytes of the commitment.
    pub fn encode(&self) -> (v: Vec<u8>)
        ensures
            v@ == self.digest.bytes(),
    {
        self.digest.to_vec()
    }
}

/// The disclosure of a committed header.
#[derive(Clone, Copy, Debug, PartialEq, Eq, Structural)]
pub struct Reveal {
    /// The header that was committed to.
    pub value: Header,
    /// The nonce that was hashed together with the header.
    pub nonce: B256,
    /// The committer's signature over the header.
    pub signature: Signature,
}

impl Reveal {
    /// The party that reveals: the signer of the header.
    pub open spec fn spec_identity(&self) -> B256 {
        self.signature.public_key
    }

    /// The bytes whose digest the commitment must equal: the encoded header
    /// followed by the nonce.
    pub open spec fn preimage(self) -> Seq<u8> {
        self.value.encoding() + self.nonce.bytes()
    }

    /// The bytes that the signature must verify over: the encoded header.
    pub open spec fn signed_message(self) -> Seq<u8> {
        self.value.encoding()
    }

    /// The party that reveals: the signer of the header.
    #[verifier::when_used_as_spec(spec_identity)]
    pub fn identity(&self) -> (identity: B256)
        ensures
            identity == self.signature.public_key,
    {
        self.signature.public_key
    }

    /// The bytes to hash when checking the reveal against its commitment.
    pub fn commitment_preimage(&self) -> (v: Vec<u8>)
        ensures
            v@ == self.preimage(),
    {
        let mut v = self.value.encode();
        let mut nonce = self.nonce.to_vec();
        v.append(&mut nonce);
        v
    }

    /// The bytes to verify the signature over.
    pub fn message(&self) -> (v: Vec<u8>)
        ensures
            v@ == self.signed_message(),
    {
        self.value.encode()
    }
}

} // verus!
