//! Blocks of a contract's chain.

use vstd::prelude::*;
use vstd::slice::slice_subrange;
use crate::common::bytes::B256;
use crate::common::error::Error;
use crate::consensus::header::Header;

verus! {

/// One element of a contract's chain.
#[derive(Clone, Copy, Debug, PartialEq, Eq, Structural)]
pub struct Block {
    /// The metadata that links the block into the chain.
    pub header: Header,
    /// Reference to the contract state that the block stands for. The engine
    /// never looks inside it.
    pub payload: B256,
}

impl Block {
    /// Number of bytes in an encoded block.
    pub const LENGTH: usize = 112;

    /// The block that a round builds from the header its reveals agree on:
    /// the payload refers to the content that the header names.
    pub open spec fn from_header(header: Header) -> Block {
        Block { header, payload: header.content_hash }
    }

    /// The encoding: the header, then the payload.
    pub open spec fn encoding(self) -> Seq<u8> {
        self.header.encoding() + self.payload.bytes()
    }

    /// The block read from the first 112 bytes of `s`.
    pub open spec fn decoding(s: Seq<u8>) -> Block
        recommends
            s.len() == 112,
    {
        Block {
            header: Header::decoding(s.subrange(0, 80)),
            payload: B256::from_bytes(s.subrange(80, 112)),
        }
    }

    /// An encoding has 112 bytes and decodes to the block it was made from.
    pub proof fn lemma_encoding_roundtrip(self)
        ensures
            self.encoding().len() == 112,
            Block::decoding(self.encoding()) == self,
    {
        self.header.lemma_encoding_roundtrip();
        self.payload.lemma_bytes_roundtrip();
        let s = self.encoding();
        assert(s.subrange(0, 80) =~= self.header.encoding());
        assert(s.subrange(80, 112) =~= self.payload.bytes());
    }

    /// Any 112 bytes are the encoding of the block decoded from them.
    pub proof fn lemma_decoding_roundtrip(s: Seq<u8>)
        requires
            s.len() == 112,
        ensures
            Block::decoding(s).encoding() == s,
    {
        Header::lemma_decoding_roundtrip(s.subrange(0, 80));
        B256::lemma_from_bytes_roundtrip(s.subrange(80, 112));
        assert(Block::decoding(s).encoding() =~= s);
    }

    /// Builds the block for an agreed header.
    pub fn new(header: Header) -> (block: Block)
        ensures
            block == Block::from_header(header),
    {
        Block { header, payload: header.content_hash }
    }

    /// Encodes the block.
    pub fn encode(&self) -> (v: Vec<u8>)
        ensures
            v@ == self.encoding(),
    {
        let mut v = self.header.encode();
        let mut payload = self.payload.to_vec();
        v.append(&mut payload);
        v
    }

    /// Decodes a block from exactly 112 bytes; any other length is refused.
    pub fn decode(bytes: &[u8]) -> (r: Result<Block, Error>)
        ensures
            bytes@.len() == 112 ==> r == Ok::<Block, Error>(Block::decoding(bytes@)),
            bytes@.len() != 112 ==> r == Err::<Block, Error>(Error::InvalidArgument),
    {
        if bytes.len() != 112 {
            return Err(Error::InvalidArgument);
        }
        let header = Header::decode(slice_subrange(bytes, 0, 80));
        let payload = B256::from_slice(slice_subrange(bytes, 80, 112));
        match (header, payload) {
            (Ok(header), Ok(payload)) => Ok(Block { header, payload }),
            _ => Err(Error::InvalidArgument),
        }
    }
}

} // verus!
