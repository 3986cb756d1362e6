use ekiden_consensus::common::bytes::{B256, B512};
use ekiden_consensus::common::error::Error;
use ekiden_consensus::common::signature::Signature;
use ekiden_consensus::consensus::backend::ConsensusBackend;
use ekiden_consensus::consensus::block::Block;
use ekiden_consensus::consensus::commitment::Commitment;
use ekiden_consensus::consensus::config::Config;
use ekiden_consensus::consensus::event::Event;
use ekiden_consensus::consensus::header::Header;
use ekiden_consensus::consensus::model::Phase;
use ekiden_consensus::consensus::service::{
    event_response, status_of, BlockRequest, CommitRequest, CommitResponse, ConsensusService,
    EventKind, EventRequest, LatestBlockRequest, RevealRequest, RevealResponse, RpcStatus,
    RpcStatusCode, SubmitRequest, SubmitResponse,
};

const SUBMITTER: u8 = 0x99;

fn id(n: u8) -> B256 {
    B256::from_slice(&[n; 32]).unwrap()
}

fn service(quorum: usize) -> ConsensusService {
    let config = Config::new(quorum, 100, 8, vec![id(SUBMITTER)]).unwrap();
    ConsensusService::new(ConsensusBackend::new(config))
}

fn header(round: u64, content: u8) -> Header {
    Header { round, timestamp: 7, previous_hash: id(0), content_hash: id(content) }
}

fn signature_of(identity: B256) -> Signature {
    Signature { public_key: identity, signature: B512 { head: id(0xe0), tail: id(0xe1) } }
}

fn invalid_argument() -> RpcStatus {
    RpcStatus { code: RpcStatusCode::InvalidArgument, details: Some("invalid argument".to_string()) }
}

fn commit_request(contract: u8, digest: u8) -> CommitRequest {
    CommitRequest { contract_id: vec![contract; 32], commitment: vec![digest; 32] }
}

fn reveal_request(contract: u8, identity: u8, value: Header, nonce: u8) -> RevealRequest {
    RevealRequest {
        contract_id: vec![contract; 32],
        header: value.encode(),
        nonce: vec![nonce; 32],
        signature: signature_of(id(identity)).encode(),
    }
}

fn submit_request(contract: u8, signer: u8, block: &Block) -> SubmitRequest {
    SubmitRequest {
        contract_id: vec![contract; 32],
        block: block.encode(),
        signature: signature_of(id(signer)).encode(),
    }
}

#[test]
fn new_service_serves_the_engine_it_was_given() {
    let config = Config::new(3, 100, 8, vec![]).unwrap();
    let mut backend = ConsensusBackend::new(config);
    backend.commit(id(1), id(0xa), Commitment { digest: id(2) }, 0).unwrap();
    let service = ConsensusService::new(backend);
    assert_eq!(service.inner().commitment_count(&id(1)), 1);
    assert_eq!(service.inner().config().quorum(), 3);
}

#[test]
fn statuses_carry_code_and_description() {
    assert_eq!(status_of(Error::InvalidArgument), invalid_argument());
    assert_eq!(
        status_of(Error::NotFound),
        RpcStatus { code: RpcStatusCode::NotFound, details: Some("not found".to_string()) }
    );
    assert_eq!(
        status_of(Error::Internal),
        RpcStatus { code: RpcStatusCode::Internal, details: Some("internal error".to_string()) }
    );
    assert_eq!(
        status_of(Error::Timeout),
        RpcStatus { code: RpcStatusCode::Internal, details: Some("round timed out".to_string()) }
    );
}

#[test]
fn event_frames_tell_the_two_kinds_apart() {
    assert_eq!(event_response(Event::CommitmentsReceived).event, EventKind::CommitmentsReceived);
    assert_eq!(event_response(Event::RoundFailed(Error::Timeout)).event, EventKind::RoundFailed);
    assert_eq!(event_response(Event::RoundFailed(Error::InvalidArgument)).event, EventKind::RoundFailed);
}

#[test]
fn latest_block_of_an_empty_chain_is_not_found() {
    let service = service(2);
    let r = service.get_latest_block(&LatestBlockRequest { contract_id: vec![1; 32] });
    assert_eq!(
        r,
        Err(RpcStatus { code: RpcStatusCode::NotFound, details: Some("not found".to_string()) })
    );
}

#[test]
fn malformed_contract_id_is_invalid_argument() {
    let mut service = service(2);
    assert_eq!(
        service.get_latest_block(&LatestBlockRequest { contract_id: vec![1; 31] }),
        Err(invalid_argument())
    );
    assert_eq!(service.get_blocks(&BlockRequest { contract_id: vec![] }), Err(invalid_argument()));
    assert_eq!(service.get_events(&EventRequest { contract_id: vec![1; 33] }), Err(invalid_argument()));
    let mut req = commit_request(1, 2);
    req.contract_id.pop();
    assert_eq!(service.commit(id(0xa), &req, 0), Err(invalid_argument()));
    assert_eq!(service.inner().commitment_count(&id(1)), 0);
}

#[test]
fn malformed_fields_are_invalid_argument_and_change_nothing() {
    let mut service = service(1);
    let mut req = commit_request(1, 2);
    req.commitment.push(0);
    assert_eq!(service.commit(id(0xa), &req, 0), Err(invalid_argument()));
    assert_eq!(service.inner().commitment_count(&id(1)), 0);

    assert_eq!(service.commit(id(0xa), &commit_request(1, 2), 0), Ok(CommitResponse {}));
    let good = reveal_request(1, 0xa, header(0, 5), 3);
    let mut bad = good.clone();
    bad.header.pop();
    assert_eq!(service.reveal_commitment(&bad, id(2), true), Err(invalid_argument()));
    let mut bad = good.clone();
    bad.nonce.push(1);
    assert_eq!(service.reveal_commitment(&bad, id(2), true), Err(invalid_argument()));
    let mut bad = good.clone();
    bad.signature.truncate(64);
    assert_eq!(service.reveal_commitment(&bad, id(2), true), Err(invalid_argument()));
    assert_eq!(service.inner().reveal_count(&id(1)), 0);
    assert_eq!(service.inner().phase(&id(1)), Phase::AwaitingReveals);

    let block = Block::new(header(0, 5));
    let mut bad = submit_request(2, SUBMITTER, &block);
    bad.block.push(0);
    assert_eq!(service.submit(&bad, true), Err(invalid_argument()));
    let mut bad = submit_request(2, SUBMITTER, &block);
    bad.signature.clear();
    assert_eq!(service.submit(&bad, true), Err(invalid_argument()));
    assert_eq!(service.inner().round_number(&id(2)), 0);
}

#[test]
fn requests_decode_to_the_values_they_carry() {
    let req = commit_request(1, 2);
    assert_eq!(req.decode(), Ok((id(1), Commitment { digest: id(2) })));
    let value = header(4, 5);
    let req = reveal_request(1, 0xa, value, 3);
    let (contract, reveal) = req.decode().unwrap();
    assert_eq!(contract, id(1));
    assert_eq!(reveal.value, value);
    assert_eq!(reveal.nonce, id(3));
    assert_eq!(reveal.signature, signature_of(id(0xa)));
    let block = Block { header: value, payload: id(6) };
    let (contract, signed) = submit_request(7, SUBMITTER, &block).decode().unwrap();
    assert_eq!(contract, id(7));
    assert_eq!(signed.value, block);
    assert_eq!(signed.signature, signature_of(id(SUBMITTER)));
}

#[test]
fn round_through_the_service() {
    let mut service = service(2);
    let events = service.get_events(&EventRequest { contract_id: vec![1; 32] }).unwrap();
    let mut blocks = service.get_blocks(&BlockRequest { contract_id: vec![1; 32] }).unwrap();
    assert_eq!(service.next_block(&mut blocks), None);

    assert_eq!(service.commit(id(0xa), &commit_request(1, 0xd1), 0), Ok(CommitResponse {}));
    assert_eq!(service.next_event(&events), None);
    assert_eq!(service.commit(id(0xb), &commit_request(1, 0xd2), 0), Ok(CommitResponse {}));
    assert_eq!(service.next_event(&events).unwrap().event, EventKind::CommitmentsReceived);
    assert_eq!(service.next_event(&events), None);
    assert_eq!(service.commit(id(0xc), &commit_request(1, 0xd3), 0), Err(invalid_argument()));

    let h = header(0, 0x55);
    assert_eq!(
        service.reveal_commitment(&reveal_request(1, 0xa, h, 1), id(0xd1), true),
        Ok(RevealResponse {})
    );
    assert_eq!(
        service.reveal_commitment(&reveal_request(1, 0xb, h, 1), id(0xd1), true),
        Err(invalid_argument())
    );
    assert_eq!(
        service.reveal_commitment(&reveal_request(1, 0xb, h, 1), id(0xd2), true),
        Ok(RevealResponse {})
    );

    let latest = service.get_latest_block(&LatestBlockRequest { contract_id: vec![1; 32] }).unwrap();
    assert_eq!(latest.block, Block::new(h).encode());
    assert_eq!(service.next_block(&mut blocks).unwrap().block, Block::new(h).encode());
    assert_eq!(service.next_block(&mut blocks), None);
}

#[test]
fn submit_through_the_service() {
    let mut service = service(2);
    let block = Block { header: header(0, 1), payload: id(9) };
    assert_eq!(service.submit(&submit_request(1, SUBMITTER, &block), false), Err(invalid_argument()));
    assert_eq!(service.submit(&submit_request(1, 0x11, &block), true), Err(invalid_argument()));
    assert_eq!(service.submit(&submit_request(1, SUBMITTER, &block), true), Ok(SubmitResponse {}));
    assert_eq!(service.submit(&submit_request(1, SUBMITTER, &block), true), Err(invalid_argument()));
    let latest = service.get_latest_block(&LatestBlockRequest { contract_id: vec![1; 32] }).unwrap();
    assert_eq!(latest.block, block.encode());
}

#[test]
fn timeout_through_the_service() {
    let mut service = service(2);
    let events = service.get_events(&EventRequest { contract_id: vec![1; 32] }).unwrap();
    service.commit(id(0xa), &commit_request(1, 0xd1), 10).unwrap();
    assert!(!service.expire(id(1), 109));
    assert!(service.expire(id(1), 110));
    assert_eq!(service.next_event(&events).unwrap().event, EventKind::RoundFailed);
    service.cancel_events(events);
    service.commit(id(0xa), &commit_request(1, 0xd1), 200).unwrap();
    assert!(service.expire(id(1), 300));
    assert_eq!(service.next_event(&events), None);
}
