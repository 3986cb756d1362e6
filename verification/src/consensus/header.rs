//! Block headers.

use vstd::prelude::*;
use vstd::bytes::{
    lemma_auto_spec_u64_to_from_le_bytes, spec_u64_from_le_bytes, spec_u64_to_le_bytes,
    u64_from_le_bytes, u64_to_le_bytes,
};
use vstd::slice::slice_subrange;
use crate::common::bytes::B256;
use crate::common::error::Error;

verus! {

/// The metadata that links a block into its contract's chain.
#[derive(Clone, Copy, Debug, PartialEq, Eq, Structural)]
pub struct Header {
    /// Position of the block in the chain; the first block has round 0.
    pub round: u64,
    /// Time at which the block was proposed.
    pub timestamp: u64,
    /// Reference to the preceding block.
    pub previous_hash: B256,
    /// Digest of the block's content.
    pub content_hash: B256,
}

impl Header {
    /// Number of bytes in an encoded header.
    pub const LENGTH: usize = 80;

    /// The encoding: round and timestamp, each as eight bytes with the least
    /// significant first, then the two digests.
    pub open spec fn encoding(self) -> Seq<u8> {
        spec_u64_to_le_bytes(self.round) + spec_u64_to_le_bytes(self.timestamp)
            + self.previous_hash.bytes() + self.content_hash.bytes()
    }

    /// The header read from the first 80 bytes of `s`.
    pub open spec fn decoding(s: Seq<u8>) -> Header
        recommends
            s.len() == 80,
    {
        Header {
            round: spec_u64_from_le_bytes(s.subrange(0, 8)),
            timestamp: spec_u64_from_le_bytes(s.subrange(8, 16)),
            previous_hash: B256::from_bytes(s.subrange(16, 48)),
            content_hash: B256::from_bytes(s.subrange(48, 80)),
        }
    }

    /// An encoding has 80 bytes and decodes to the header it was made from.
    pub proof fn lemma_encoding_roundtrip(self)
        ensures
            self.encoding().len() == 80,
            Header::decoding(self.encoding()) == self,
    {
        lemma_auto_spec_u64_to_from_le_bytes();
        self.previous_hash.lemma_bytes_roundtrip();
        self.content_hash.lemma_bytes_roundtrip();
        let s = self.encoding();
        assert(s.subrange(0, 8) =~= spec_u64_to_le_bytes(self.round));
        assert(s.subrange(8, 16) =~= spec_u64_to_le_bytes(self.timestamp));
        assert(s.subrange(16, 48) =~= self.previous_hash.bytes());
        assert(s.subrange(48, 80) =~= self.content_hash.bytes());
    }

    /// Any 80 bytes are the encoding of the header decoded from them.
    pub proof fn lemma_decoding_roundtrip(s: Seq<u8>)
        requires
            s.len() == 80,
        ensures
            Header::decoding(s).encoding() == s,
    {
        lemma_auto_spec_u64_to_from_le_bytes();
        B256::lemma_from_bytes_roundtrip(s.subrange(16, 48));
        B256::lemma_from_bytes_roundtrip(s.subrange(48, 80));
        assert(spec_u64_to_le_bytes(spec_u64_from_le_bytes(s.subrange(0, 8))) == s.subrange(0, 8));
        assert(spec_u64_to_le_bytes(spec_u64_from_le_bytes(s.subrange(8, 16))) == s.subrange(
            8,
            16,
        ));
        assert(Header::decoding(s).encoding() =~= s);
    }

    /// Encodes the header.
    pub fn encode(&self) -> (v: Vec<u8>)
        ensures
            v@ == self.encoding(),
    {
        let mut v = u64_to_le_bytes(self.round);
        let mut timestamp = u64_to_le_bytes(self.timestamp);
        let mut previous_hash = self.previous_hash.to_vec();
        let mut content_hash = self.content_hash.to_vec();
        v.append(&mut timestamp);
        v.append(&mut previous_hash);
        v.append(&mut content_hash);
        v
    }

    /// Decodes a header from exactly 80 bytes; any other length is refused.
    pub fn decode(bytes: &[u8]) -> (r: Result<Header, Error>)
        ensures
            bytes@.len() == 80 ==> r == Ok::<Header, Error>(Header::decoding(bytes@)),
            bytes@.len() != 80 ==> r == Err::<Header, Error>(Error::InvalidArgument),
    {
        if bytes.len() != 80 {
            return Err(Error::InvalidArgument);
        }
        let round = u64_from_le_bytes(slice_subrange(bytes, 0, 8));
        let timestamp = u64_from_le_bytes(slice_subrange(bytes, 8, 16));
        let previous_hash = B256::from_slice(slice_subrange(bytes, 16, 48));
        let content_hash = B256::from_slice(slice_subrange(bytes, 48, 80));
        match (previous_hash, content_hash) {
            (Ok(previous_hash), Ok(content_hash)) => Ok(
                Header { round, timestamp, previous_hash, content_hash },
            ),
            _ => Err(Error::InvalidArgument),
        }
    }
}

} // verus!
