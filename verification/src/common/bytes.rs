//! Fixed-width byte strings: 256-bit identifiers, digests, nonces and keys,
//! and 512-bit signature values.

use vstd::prelude::*;
use vstd::bytes::{
    lemma_auto_spec_u64_to_from_le_bytes, spec_u64_from_le_bytes, spec_u64_to_le_bytes,
    u64_from_le_bytes, u64_to_le_bytes,
};
use vstd::slice::slice_subrange;
use crate::common::error::Error;

verus! {

/// A 256-bit value: a contract identifier, a digest, a nonce or a public key.
///
/// The 32 bytes are held as four 64-bit words so that two values can be
/// compared with `==`. Word `w0` holds the first eight bytes, least
/// significant byte first.
#[derive(Clone, Copy, Debug, PartialEq, Eq, Hash, Structural)]
pub struct B256 {
    /// Bytes 0 to 7.
    pub w0: u64,
    /// Bytes 8 to 15.
    pub w1: u64,
    /// Bytes 16 to 23.
    pub w2: u64,
    /// Bytes 24 to 31.
    pub w3: u64,
}

impl B256 {
    /// Number of bytes in a value.
    pub const LENGTH: usize = 32;

    /// The 32 bytes of the value, in order.
    pub open spec fn bytes(self) -> Seq<u8> {
        spec_u64_to_le_bytes(self.w0) + spec_u64_to_le_bytes(self.w1) + spec_u64_to_le_bytes(
            self.w2,
        ) + spec_u64_to_le_bytes(self.w3)
    }

    /// The value made of the first 32 bytes of `s`.
    pub open spec fn from_bytes(s: Seq<u8>) -> B256
        recommends
            s.len() == 32,
    {
        B256 {
            w0: spec_u64_from_le_bytes(s.subrange(0, 8)),
            w1: spec_u64_from_le_bytes(s.subrange(8, 16)),
            w2: spec_u64_from_le_bytes(s.subrange(16, 24)),
            w3: spec_u64_from_le_bytes(s.subrange(24, 32)),
        }
    }

    /// A value always has 32 bytes, and reading them back gives the value.
    pub proof fn lemma_bytes_roundtrip(self)
        ensures
            self.bytes().len() == 32,
            B256::from_bytes(self.bytes()) == self,
    {
        lemma_auto_spec_u64_to_from_le_bytes();
        let s = self.bytes();
        assert(s.subrange(0, 8) =~= spec_u64_to_le_bytes(self.w0));
        assert(s.subrange(8, 16) =~= spec_u64_to_le_bytes(self.w1));
        assert(s.subrange(16, 24) =~= spec_u64_to_le_bytes(self.w2));
        assert(s.subrange(24, 32) =~= spec_u64_to_le_bytes(self.w3));
    }

    /// Any 32 bytes are the bytes of the value read from them.
    pub proof fn lemma_from_bytes_roundtrip(s: Seq<u8>)
        requires
            s.len() == 32,
        ensures
            B256::from_bytes(s).bytes() == s,
    {
        lemma_auto_spec_u64_to_from_le_bytes();
        assert(spec_u64_to_le_bytes(spec_u64_from_le_bytes(s.subrange(0, 8))) == s.subrange(0, 8));
        assert(spec_u64_to_le_bytes(spec_u64_from_le_bytes(s.subrange(8, 16))) == s.subrange(
            8,
            16,
        ));
        assert(spec_u64_to_le_bytes(spec_u64_from_le_bytes(s.subrange(16, 24))) == s.subrange(
            16,
            24,
        ));
        assert(spec_u64_to_le_bytes(spec_u64_from_le_bytes(s.subrange(24, 32))) == s.subrange(
            24,
            32,
        ));
        assert(B256::from_bytes(s).bytes() =~= s);
    }

    /// Two values with the same bytes are the same value.
    pub proof fn lemma_bytes_injective(a: B256, b: B256)
        requires
            a.bytes() == b.bytes(),
        ensures
            a == b,
    {
        a.lemma_bytes_roundtrip();
        b.lemma_bytes_roundtrip();
    }

    /// The value whose bytes are all zero.
    pub fn zero() -> (z: B256)
        ensures
            z == (B256 { w0: 0, w1: 0, w2: 0, w3: 0 }),
    {
        B256 { w0: 0, w1: 0, w2: 0, w3: 0 }
    }

    /// Reads a value from exactly 32 bytes; any other length is refused.
    pub fn from_slice(bytes: &[u8]) -> (r: Result<B256, Error>)
        ensures
            bytes@.len() == 32 ==> r == Ok::<B256, Error>(B256::from_bytes(bytes@)),
            bytes@.len() != 32 ==> r == Err::<B256, Error>(Error::InvalidArgument),
    {
        if bytes.len() != 32 {
            return Err(Error::InvalidArgument);
        }
        let w0 = u64_from_le_bytes(slice_subrange(bytes, 0, 8));
        let w1 = u64_from_le_bytes(slice_subrange(bytes, 8, 16));
        let w2 = u64_from_le_bytes(slice_subrange(bytes, 16, 24));
        let w3 = u64_from_le_bytes(slice_subrange(bytes, 24, 32));
        Ok(B256 { w0, w1, w2, w3 })
    }

    /// The 32 bytes of the value as a vector.
    pub fn to_vec(&self) -> (v: Vec<u8>)
        ensures
            v@ == self.bytes(),
    {
        let mut v = u64_to_le_bytes(self.w0);
        let mut b1 = u64_to_le_bytes(self.w1);
        let mut b2 = u64_to_le_bytes(self.w2);
        let mut b3 = u64_to_le_bytes(self.w3);
        v.append(&mut b1);
        v.append(&mut b2);
        v.append(&mut b3);
        v
    }
}

/// A 512-bit value: the raw bytes of a signature.
#[derive(Clone, Copy, Debug, PartialEq, Eq, Hash, Structural)]
pub struct B512 {
    /// The first 32 bytes.
    pub head: B256,
    /// The last 32 bytes.
    pub tail: B256,
}

impl B512 {
    /// Number of bytes in a value.
    pub const LENGTH: usize = 64;

    /// The 64 bytes of the value, in order.
    pub open spec fn bytes(self) -> Seq<u8> {
        self.head.bytes() + self.tail.bytes()
    }

    /// The value made of the first 64 bytes of `s`.
    pub open spec fn from_bytes(s: Seq<u8>) -> B512
        recommends
            s.len() == 64,
    {
        B512 { head: B256::from_bytes(s.subrange(0, 32)), tail: B256::from_bytes(s.subrange(32, 64)) }
    }

    /// A value always has 64 bytes, and reading them back gives the value.
    pub proof fn lemma_bytes_roundtrip(self)
        ensures
            self.bytes().len() == 64,
            B512::from_bytes(self.bytes()) == self,
    {
        self.head.lemma_bytes_roundtrip();
        self.tail.lemma_bytes_roundtrip();
        let s = self.bytes();
        assert(s.subrange(0, 32) =~= self.head.bytes());
        assert(s.subrange(32, 64) =~= self.tail.bytes());
    }

    /// Any 64 bytes are the bytes of the value read from them.
    pub proof fn lemma_from_bytes_roundtrip(s: Seq<u8>)
        requires
            s.len() == 64,
        ensures
            B512::from_bytes(s).bytes() == s,
    {
        B256::lemma_from_bytes_roundtrip(s.subrange(0, 32));
        B256::lemma_from_bytes_roundtrip(s.subrange(32, 64));
        assert(B512::from_bytes(s).bytes() =~= s);
    }

    /// Reads a value from exactly 64 bytes; any other length is refused.
    pub fn from_slice(bytes: &[u8]) -> (r: Result<B512, Error>)
        ensures
            bytes@.len() == 64 ==> r == Ok::<B512, Error>(B512::from_bytes(bytes@)),
            bytes@.len() != 64 ==> r == Err::<B512, Error>(Error::InvalidArgument),
    {
        if bytes.len() != 64 {
            return Err(Error::InvalidArgument);
        }
        let head = B256::from_slice(slice_subrange(bytes, 0, 32));
        let tail = B256::from_slice(slice_subrange(bytes, 32, 64));
        match (head, tail) {
            (Ok(head), Ok(tail)) => Ok(B512 { head, tail }),
            _ => Err(Error::InvalidArgument),
        }
    }

    /// The 64 bytes of the value as a vector.
    pub fn to_vec(&self) -> (v: Vec<u8>)
        ensures
            v@ == self.bytes(),
    {
        let mut v = self.head.to_vec();
        let mut tail = self.tail.to_vec();
        v.append(&mut tail);
        v
    }
}

} // verus!
