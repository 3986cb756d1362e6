//! Signatures and signed values.
//!
//! Whether a signature verifies is decided by the embedding application's
//! signature scheme; this module only carries the bytes.

use vstd::prelude::*;
use vstd::slice::slice_subrange;
use crate::common::bytes::{B256, B512};
use crate::common::error::Error;

verus! {

/// A signature together with the public key of the party that made it.
#[derive(Clone, Copy, Debug, PartialEq, Eq, Structural)]
pub struct Signature {
    /// Public key of the signer: the signer's identity.
    pub public_key: B256,
    /// The raw signature.
    pub signature: B512,
}

impl Signature {
    /// Number of bytes in an encoded signature.
    pub const LENGTH: usize = 96;

    /// The encoding: the public key, then the raw signature.
    pub open spec fn encoding(self) -> Seq<u8> {
        self.public_key.bytes() + self.signature.bytes()
    }

    /// The signature read from the first 96 bytes of `s`.
    pub open spec fn decoding(s: Seq<u8>) -> Signature
        recommends
            s.len() == 96,
    {
        Signature {
            public_key: B256::from_bytes(s.subrange(0, 32)),
            signature: B512::from_bytes(s.subrange(32, 96)),
        }
    }

    /// An encoding has 96 bytes and decodes to the signature it was made from.
    pub proof fn lemma_encoding_roundtrip(self)
        ensures
            self.encoding().len() == 96,
            Signature::decoding(self.encoding()) == self,
    {
        self.public_key.lemma_bytes_roundtrip();
        self.signature.lemma_bytes_roundtrip();
        let s = self.encoding();
        assert(s.subrange(0, 32) =~= self.public_key.bytes());
        assert(s.subrange(32, 96) =~= self.signature.bytes());
    }

    /// Any 96 bytes are the encoding of the signature decoded from them.
    pub proof fn lemma_decoding_roundtrip(s: Seq<u8>)
        requires
            s.len() == 96,
        ensures
            Signature::decoding(s).encoding() == s,
    {
        B256::lemma_from_bytes_roundtrip(s.subrange(0, 32));
        B512::lemma_from_bytes_roundtrip(s.subrange(32, 96));
        assert(Signature::decoding(s).encoding() =~= s);
    }

    /// Encodes the signature.
    pub fn encode(&self) -> (v: Vec<u8>)
        ensures
            v@ == self.encoding(),
    {
        let mut v = self.public_key.to_vec();
        let mut raw = self.signature.to_vec();
        v.append(&mut raw);
        v
    }

    /// Decodes a signature from exactly 96 bytes; any other length is refused.
    pub fn decode(bytes: &[u8]) -> (r: Result<Signature, Error>)
        ensures
            bytes@.len() == 96 ==> r == Ok::<Signature, Error>(Signature::decoding(bytes@)),
            bytes@.len() != 96 ==> r == Err::<Signature, Error>(Error::InvalidArgument),
    {
        if bytes.len() != 96 {
            return Err(Error::InvalidArgument);
        }
        let public_key = B256::from_slice(slice_subrange(bytes, 0, 32));
        let signature = B512::from_slice(slice_subrange(bytes, 32, 96));
        match (public_key, signature) {
            (Ok(public_key), Ok(signature)) => Ok(Signature { public_key, signature }),
            _ => Err(Error::InvalidArgument),
        }
    }
}

/// A value together with a signature over it.
#[derive(Debug, PartialEq, Eq)]
pub struct Signed<T> {
    /// The signed value.
    pub value: T,
    /// The signature that vouches for `value`.
    pub signature: Signature,
}

impl<T> Signed<T> {
    /// Puts a value and a signature over it together.
    pub fn from_parts(value: T, signature: Signature) -> (signed: Signed<T>)
        ensures
            signed.value == value,
            signed.signature == signature,
    {
        Signed { value, signature }
    }

    /// The identity of the party that signed the value.
    pub open spec fn spec_signer(&self) -> B256 {
        self.signature.public_key
    }

    /// The identity of the party that signed the value.
    #[verifier::when_used_as_spec(spec_signer)]
    pub fn signer(&self) -> (identity: B256)
        ensures
            identity == self.signature.public_key,
    {
        self.signature.public_key
    }
}

} // verus!
