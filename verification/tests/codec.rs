use ekiden_consensus::common::bytes::{B256, B512};
use ekiden_consensus::common::error::Error;
use ekiden_consensus::common::signature::{Signature, Signed};
use ekiden_consensus::consensus::block::Block;
use ekiden_consensus::consensus::commitment::{Commitment, Reveal};
use ekiden_consensus::consensus::header::Header;

fn counting(len: usize, start: u8) -> Vec<u8> {
    (0..len).map(|i| start.wrapping_add(i as u8)).collect()
}

#[test]
fn b256_reads_its_bytes_back() {
    let bytes = counting(32, 1);
    let value = B256::from_slice(&bytes).unwrap();
    assert_eq!(value.to_vec(), bytes);
}

#[test]
fn b256_words_hold_the_bytes_least_significant_first() {
    let mut bytes = vec![0u8; 32];
    bytes[0] = 0x01;
    bytes[1] = 0x02;
    bytes[8] = 0xff;
    bytes[31] = 0x80;
    let value = B256::from_slice(&bytes).unwrap();
    assert_eq!(value.w0, 0x0201);
    assert_eq!(value.w1, 0xff);
    assert_eq!(value.w2, 0);
    assert_eq!(value.w3, 0x8000_0000_0000_0000);
}

#[test]
fn b256_refuses_other_lengths() {
    assert_eq!(B256::from_slice(&[0u8; 31]), Err(Error::InvalidArgument));
    assert_eq!(B256::from_slice(&[0u8; 33]), Err(Error::InvalidArgument));
    assert_eq!(B256::from_slice(&[]), Err(Error::InvalidArgument));
}

#[test]
fn b256_zero_is_all_zero_bytes() {
    assert_eq!(B256::zero().to_vec(), vec![0u8; 32]);
    assert_eq!(B256::from_slice(&[0u8; 32]), Ok(B256::zero()));
}

#[test]
fn b256_equal_bytes_equal_values() {
    let a = B256::from_slice(&counting(32, 7)).unwrap();
    let b = B256::from_slice(&counting(32, 7)).unwrap();
    let c = B256::from_slice(&counting(32, 8)).unwrap();
    assert_eq!(a, b);
    assert_ne!(a, c);
}

#[test]
fn b512_reads_its_bytes_back() {
    let bytes = counting(64, 100);
    let value = B512::from_slice(&bytes).unwrap();
    assert_eq!(value.to_vec(), bytes);
    assert_eq!(value.head.to_vec(), bytes[..32].to_vec());
    assert_eq!(value.tail.to_vec(), bytes[32..].to_vec());
}

#[test]
fn b512_refuses_other_lengths() {
    assert_eq!(B512::from_slice(&[0u8; 32]), Err(Error::InvalidArgument));
    assert_eq!(B512::from_slice(&[0u8; 65]), Err(Error::InvalidArgument));
}

#[test]
fn header_encoding_is_round_timestamp_and_the_two_digests() {
    let header = Header {
        round: 0x0102,
        timestamp: 3,
        previous_hash: B256::from_slice(&[0xaa; 32]).unwrap(),
        content_hash: B256::from_slice(&[0xbb; 32]).unwrap(),
    };
    let mut expected = vec![0x02, 0x01, 0, 0, 0, 0, 0, 0];
    expected.extend_from_slice(&[3, 0, 0, 0, 0, 0, 0, 0]);
    expected.extend_from_slice(&[0xaa; 32]);
    expected.extend_from_slice(&[0xbb; 32]);
    assert_eq!(header.encode(), expected);
    assert_eq!(expected.len(), Header::LENGTH);
    assert_eq!(Header::decode(&expected), Ok(header));
}

#[test]
fn header_decode_then_encode_gives_the_bytes_back() {
    let bytes = counting(80, 9);
    let header = Header::decode(&bytes).unwrap();
    assert_eq!(header.encode(), bytes);
}

#[test]
fn header_refuses_other_lengths() {
    assert_eq!(Header::decode(&[0u8; 79]), Err(Error::InvalidArgument));
    assert_eq!(Header::decode(&[0u8; 81]), Err(Error::InvalidArgument));
}

#[test]
fn block_encoding_is_header_then_payload() {
    let header = Header::decode(&counting(80, 1)).unwrap();
    let block = Block { header, payload: B256::from_slice(&[0xcc; 32]).unwrap() };
    let mut expected = counting(80, 1);
    expected.extend_from_slice(&[0xcc; 32]);
    assert_eq!(block.encode(), expected);
    assert_eq!(expected.len(), Block::LENGTH);
    assert_eq!(Block::decode(&expected), Ok(block));
}

#[test]
fn block_refuses_other_lengths() {
    assert_eq!(Block::decode(&[0u8; 80]), Err(Error::InvalidArgument));
    assert_eq!(Block::decode(&[0u8; 113]), Err(Error::InvalidArgument));
}

#[test]
fn block_built_from_a_header_refers_to_its_content() {
    let header = Header::decode(&counting(80, 1)).unwrap();
    let block = Block::new(header);
    assert_eq!(block.header, header);
    assert_eq!(block.payload, header.content_hash);
}

#[test]
fn signature_encoding_is_key_then_raw_signature() {
    let bytes = counting(96, 50);
    let signature = Signature::decode(&bytes).unwrap();
    assert_eq!(signature.public_key.to_vec(), bytes[..32].to_vec());
    assert_eq!(signature.signature.to_vec(), bytes[32..].to_vec());
    assert_eq!(signature.encode(), bytes);
    assert_eq!(bytes.len(), Signature::LENGTH);
}

#[test]
fn signature_refuses_other_lengths() {
    assert_eq!(Signature::decode(&[0u8; 64]), Err(Error::InvalidArgument));
    assert_eq!(Signature::decode(&[0u8; 97]), Err(Error::InvalidArgument));
}

#[test]
fn commitment_is_its_32_bytes() {
    let bytes = counting(32, 3);
    let commitment = Commitment::decode(&bytes).unwrap();
    assert_eq!(commitment.digest, B256::from_slice(&bytes).unwrap());
    assert_eq!(commitment.encode(), bytes);
    assert_eq!(Commitment::decode(&[0u8; 16]), Err(Error::InvalidArgument));
}

#[test]
fn reveal_preimage_is_header_then_nonce() {
    let reveal = Reveal {
        value: Header::decode(&counting(80, 1)).unwrap(),
        nonce: B256::from_slice(&[0x11; 32]).unwrap(),
        signature: Signature::decode(&counting(96, 5)).unwrap(),
    };
    let mut expected = counting(80, 1);
    expected.extend_from_slice(&[0x11; 32]);
    assert_eq!(reveal.commitment_preimage(), expected);
    assert_eq!(reveal.message(), counting(80, 1));
    assert_eq!(reveal.identity().to_vec(), counting(32, 5));
}

#[test]
fn signed_value_keeps_its_parts() {
    let signature = Signature::decode(&counting(96, 5)).unwrap();
    let signed = Signed::from_parts(7u64, signature);
    assert_eq!(signed.value, 7);
    assert_eq!(signed.signature, signature);
    assert_eq!(signed.signer(), signature.public_key);
}

#[test]
fn error_descriptions() {
    assert_eq!(Error::InvalidArgument.description(), "invalid argument");
    assert_eq!(Error::Internal.description(), "internal error");
    assert_eq!(Error::NotFound.description(), "not found");
    assert_eq!(Error::Timeout.description(), "round timed out");
}
