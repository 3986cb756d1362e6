use ekiden_consensus::common::bytes::{B256, B512};
use ekiden_consensus::common::error::Error;
use ekiden_consensus::common::signature::{Signature, Signed};
use ekiden_consensus::consensus::backend::ConsensusBackend;
use ekiden_consensus::consensus::block::Block;
use ekiden_consensus::consensus::commitment::{Commitment, Reveal};
use ekiden_consensus::consensus::config::Config;
use ekiden_consensus::consensus::contract::{agreed, deadline, ContractState};
use ekiden_consensus::consensus::event::Event;
use ekiden_consensus::consensus::header::Header;
use ekiden_consensus::consensus::identity_map::IdentityMap;
use ekiden_consensus::consensus::model::Phase;

const TIMEOUT: u64 = 100;
const SUBMITTER: u8 = 0x99;

fn id(n: u8) -> B256 {
    B256::from_slice(&[n; 32]).unwrap()
}

fn engine(quorum: usize) -> ConsensusBackend {
    let config = Config::new(quorum, TIMEOUT, 8, vec![id(SUBMITTER)]).unwrap();
    ConsensusBackend::new(config)
}

fn header(round: u64, content: u8) -> Header {
    Header { round, timestamp: 1_000 + round, previous_hash: id(0), content_hash: id(content) }
}

fn signature_of(identity: B256) -> Signature {
    Signature { public_key: identity, signature: B512 { head: id(0xe0), tail: id(0xe1) } }
}

fn reveal_of(identity: B256, value: Header, nonce: u8) -> Reveal {
    Reveal { value, nonce: id(nonce), signature: signature_of(identity) }
}

fn signed_block(signer: B256, round: u64, content: u8) -> Signed<Block> {
    let block = Block { header: header(round, content), payload: id(content) };
    Signed::from_parts(block, signature_of(signer))
}

#[test]
fn config_refuses_zero_quorum_and_zero_capacity() {
    assert!(matches!(Config::new(0, 1, 1, vec![]), Err(Error::InvalidArgument)));
    assert!(matches!(Config::new(1, 1, 0, vec![]), Err(Error::InvalidArgument)));
    let config = Config::new(3, 7, 5, vec![id(1)]).unwrap();
    assert_eq!(config.quorum(), 3);
    assert_eq!(config.phase_timeout(), 7);
    assert_eq!(config.event_capacity(), 5);
    assert!(config.may_submit(&id(1)));
    assert!(!config.may_submit(&id(2)));
}

#[test]
fn untouched_contract_is_in_its_initial_state() {
    let backend = engine(2);
    let c = id(1);
    assert_eq!(backend.phase(&c), Phase::AwaitingCommitments);
    assert_eq!(backend.round_number(&c), 0);
    assert_eq!(backend.deadline(&c), None);
    assert_eq!(backend.commitment_count(&c), 0);
    assert_eq!(backend.reveal_count(&c), 0);
    assert_eq!(backend.get_latest_block(&c), Err(Error::NotFound));
}

#[test]
fn commit_reveal_round_finalizes_a_block() {
    let mut backend = engine(2);
    let c1 = id(1);
    let (a, b) = (id(0xa), id(0xb));
    let events = backend.get_events(c1);

    assert_eq!(backend.commit(c1, a, Commitment { digest: id(0xd1) }, 10), Ok(Phase::AwaitingCommitments));
    assert_eq!(backend.phase(&c1), Phase::AwaitingCommitments);
    assert_eq!(backend.next_event(&events), None);
    assert_eq!(backend.commit(c1, b, Commitment { digest: id(0xd2) }, 11), Ok(Phase::AwaitingReveals));
    assert_eq!(backend.phase(&c1), Phase::AwaitingReveals);
    assert_eq!(backend.next_event(&events), Some(Event::CommitmentsReceived));
    assert_eq!(backend.next_event(&events), None);

    let h = header(0, 0x55);
    assert_eq!(backend.reveal_commitment(c1, reveal_of(a, h, 0x77), id(0xd1), true), Ok(Phase::AwaitingReveals));
    assert_eq!(backend.get_latest_block(&c1), Err(Error::NotFound));
    assert_eq!(backend.reveal_commitment(c1, reveal_of(b, h, 0x77), id(0xd2), true), Ok(Phase::Finalized));

    let block = backend.get_latest_block(&c1).unwrap();
    assert_eq!(block.header, h);
    assert_eq!(block, Block::new(h));
    assert_eq!(backend.phase(&c1), Phase::AwaitingCommitments);
    assert_eq!(backend.round_number(&c1), 1);
    assert_eq!(backend.commitment_count(&c1), 0);
    assert_eq!(backend.reveal_count(&c1), 0);
    assert_eq!(backend.deadline(&c1), None);
    assert_eq!(backend.next_event(&events), None);
}

#[test]
fn reveal_without_commitment_is_refused() {
    let mut backend = engine(2);
    let c1 = id(1);
    let a = id(0xa);
    let r = backend.reveal_commitment(c1, reveal_of(a, header(0, 1), 2), id(0xd1), true);
    assert_eq!(r, Err(Error::InvalidArgument));
    assert_eq!(backend.phase(&c1), Phase::AwaitingCommitments);
    assert_eq!(backend.reveal_count(&c1), 0);
}

#[test]
fn reveal_of_a_stranger_in_the_reveal_phase_is_refused() {
    let mut backend = engine(1);
    let c1 = id(1);
    assert_eq!(backend.commit(c1, id(0xa), Commitment { digest: id(0xd1) }, 0), Ok(Phase::AwaitingReveals));
    let r = backend.reveal_commitment(c1, reveal_of(id(0xb), header(0, 1), 2), id(0xd1), true);
    assert_eq!(r, Err(Error::InvalidArgument));
    assert_eq!(backend.phase(&c1), Phase::AwaitingReveals);
    assert_eq!(backend.reveal_count(&c1), 0);
}

#[test]
fn reveal_is_taken_only_with_matching_digest_and_good_signature() {
    let mut backend = engine(2);
    let c1 = id(1);
    let (a, b) = (id(0xa), id(0xb));
    backend.commit(c1, a, Commitment { digest: id(0xd1) }, 0).unwrap();
    backend.commit(c1, b, Commitment { digest: id(0xd2) }, 0).unwrap();
    let h = header(0, 5);
    assert_eq!(backend.reveal_commitment(c1, reveal_of(a, h, 1), id(0xd2), true), Err(Error::InvalidArgument));
    assert_eq!(backend.reveal_commitment(c1, reveal_of(a, h, 1), id(0xd1), false), Err(Error::InvalidArgument));
    assert_eq!(backend.reveal_count(&c1), 0);
    assert_eq!(backend.phase(&c1), Phase::AwaitingReveals);
    assert_eq!(backend.reveal_commitment(c1, reveal_of(a, h, 1), id(0xd1), true), Ok(Phase::AwaitingReveals));
    assert_eq!(backend.reveal_count(&c1), 1);
}

#[test]
fn commit_is_refused_in_the_reveal_phase() {
    let mut backend = engine(1);
    let c1 = id(1);
    assert_eq!(backend.commit(c1, id(0xa), Commitment { digest: id(0xd1) }, 0), Ok(Phase::AwaitingReveals));
    assert_eq!(backend.commit(c1, id(0xb), Commitment { digest: id(0xd2) }, 0), Err(Error::InvalidArgument));
    assert_eq!(backend.commitment_count(&c1), 1);
    assert_eq!(backend.commitment_of(&c1, &id(0xb)), None);
}

#[test]
fn second_commit_of_an_identity_replaces_the_first() {
    let mut backend = engine(2);
    let c1 = id(1);
    let a = id(0xa);
    assert_eq!(backend.commit(c1, a, Commitment { digest: id(0xd1) }, 5), Ok(Phase::AwaitingCommitments));
    assert_eq!(backend.commit(c1, a, Commitment { digest: id(0xd1) }, 6), Ok(Phase::AwaitingCommitments));
    assert_eq!(backend.commitment_count(&c1), 1);
    assert_eq!(backend.deadline(&c1), Some(105));
    assert_eq!(backend.commit(c1, a, Commitment { digest: id(0xd3) }, 7), Ok(Phase::AwaitingCommitments));
    assert_eq!(backend.commitment_count(&c1), 1);
    assert_eq!(backend.commitment_of(&c1, &a), Some(Commitment { digest: id(0xd3) }));
    assert_eq!(backend.phase(&c1), Phase::AwaitingCommitments);
}

#[test]
fn deadlines_start_with_the_first_commit_and_again_at_quorum() {
    let mut backend = engine(2);
    let c1 = id(1);
    backend.commit(c1, id(0xa), Commitment { digest: id(1) }, 10).unwrap();
    assert_eq!(backend.deadline(&c1), Some(110));
    backend.commit(c1, id(0xb), Commitment { digest: id(2) }, 50).unwrap();
    assert_eq!(backend.deadline(&c1), Some(150));
}

#[test]
fn deadline_stops_at_the_end_of_time() {
    assert_eq!(deadline(10, 100), 110);
    assert_eq!(deadline(u64::MAX - 5, 100), u64::MAX);
    assert_eq!(deadline(u64::MAX, 0), u64::MAX);
}

#[test]
fn timeout_in_the_reveal_phase_fails_the_round_once() {
    let mut backend = engine(2);
    let c1 = id(1);
    let events = backend.get_events(c1);
    backend.commit(c1, id(0xa), Commitment { digest: id(1) }, 0).unwrap();
    backend.commit(c1, id(0xb), Commitment { digest: id(2) }, 20).unwrap();
    backend.reveal_commitment(c1, reveal_of(id(0xa), header(0, 1), 1), id(1), true).unwrap();
    assert_eq!(backend.next_event(&events), Some(Event::CommitmentsReceived));

    assert!(!backend.expire(c1, 119));
    assert_eq!(backend.phase(&c1), Phase::AwaitingReveals);
    assert_eq!(backend.next_event(&events), None);

    assert!(backend.expire(c1, 120));
    assert_eq!(backend.next_event(&events), Some(Event::RoundFailed(Error::Timeout)));
    assert_eq!(backend.next_event(&events), None);
    assert_eq!(backend.phase(&c1), Phase::AwaitingCommitments);
    assert_eq!(backend.round_number(&c1), 0);
    assert_eq!(backend.commitment_count(&c1), 0);
    assert_eq!(backend.reveal_count(&c1), 0);
    assert_eq!(backend.get_latest_block(&c1), Err(Error::NotFound));

    assert!(!backend.expire(c1, 1_000));
    assert_eq!(backend.next_event(&events), None);
}

#[test]
fn timeout_in_the_commit_phase_fails_the_round() {
    let mut backend = engine(2);
    let c1 = id(1);
    let events = backend.get_events(c1);
    assert!(!backend.expire(c1, u64::MAX));
    backend.commit(c1, id(0xa), Commitment { digest: id(1) }, 0).unwrap();
    assert!(backend.expire(c1, 100));
    assert_eq!(backend.next_event(&events), Some(Event::RoundFailed(Error::Timeout)));
    assert_eq!(backend.commitment_count(&c1), 0);
    assert_eq!(backend.deadline(&c1), None);
}

#[test]
fn reveals_that_disagree_fail_the_round() {
    let mut backend = engine(2);
    let c1 = id(1);
    let events = backend.get_events(c1);
    backend.commit(c1, id(0xa), Commitment { digest: id(1) }, 0).unwrap();
    backend.commit(c1, id(0xb), Commitment { digest: id(2) }, 0).unwrap();
    backend.reveal_commitment(c1, reveal_of(id(0xa), header(0, 1), 1), id(1), true).unwrap();
    let r = backend.reveal_commitment(c1, reveal_of(id(0xb), header(0, 2), 1), id(2), true);
    assert_eq!(r, Ok(Phase::Failed));
    assert_eq!(backend.next_event(&events), Some(Event::CommitmentsReceived));
    assert_eq!(backend.next_event(&events), Some(Event::RoundFailed(Error::InvalidArgument)));
    assert_eq!(backend.get_latest_block(&c1), Err(Error::NotFound));
    assert_eq!(backend.phase(&c1), Phase::AwaitingCommitments);
    assert_eq!(backend.round_number(&c1), 0);
}

#[test]
fn agreed_header_for_another_round_fails_the_round() {
    let mut backend = engine(1);
    let c1 = id(1);
    backend.commit(c1, id(0xa), Commitment { digest: id(1) }, 0).unwrap();
    let r = backend.reveal_commitment(c1, reveal_of(id(0xa), header(3, 1), 1), id(1), true);
    assert_eq!(r, Ok(Phase::Failed));
    assert_eq!(backend.get_latest_block(&c1), Err(Error::NotFound));
    assert_eq!(backend.round_number(&c1), 0);
}

#[test]
fn second_reveal_of_an_identity_replaces_the_first() {
    let mut backend = engine(2);
    let c1 = id(1);
    backend.commit(c1, id(0xa), Commitment { digest: id(1) }, 0).unwrap();
    backend.commit(c1, id(0xb), Commitment { digest: id(2) }, 0).unwrap();
    backend.reveal_commitment(c1, reveal_of(id(0xa), header(0, 9), 1), id(1), true).unwrap();
    backend.reveal_commitment(c1, reveal_of(id(0xa), header(0, 5), 1), id(1), true).unwrap();
    assert_eq!(backend.reveal_count(&c1), 1);
    let r = backend.reveal_commitment(c1, reveal_of(id(0xb), header(0, 5), 1), id(2), true);
    assert_eq!(r, Ok(Phase::Finalized));
    assert_eq!(backend.get_latest_block(&c1).unwrap().header, header(0, 5));
}

#[test]
fn agreed_is_the_common_header_or_none() {
    let mut reveals: IdentityMap<Reveal> = IdentityMap::new();
    assert_eq!(agreed(&reveals), None);
    reveals.insert(id(1), reveal_of(id(1), header(0, 7), 1));
    assert_eq!(agreed(&reveals), Some(header(0, 7)));
    reveals.insert(id(2), reveal_of(id(2), header(0, 7), 2));
    assert_eq!(agreed(&reveals), Some(header(0, 7)));
    reveals.insert(id(3), reveal_of(id(3), header(0, 8), 3));
    assert_eq!(agreed(&reveals), None);
}

#[test]
fn submit_finalizes_the_expected_block() {
    let mut backend = engine(2);
    let c1 = id(1);
    let signed = signed_block(id(SUBMITTER), 0, 0x42);
    assert_eq!(backend.submit(c1, &signed, true), Ok(Phase::Finalized));
    assert_eq!(backend.get_latest_block(&c1), Ok(signed.value));
    assert_eq!(backend.round_number(&c1), 1);
}

#[test]
fn submit_refuses_round_mismatch_bad_signature_and_strangers() {
    let mut backend = engine(2);
    let c1 = id(1);
    assert_eq!(backend.submit(c1, &signed_block(id(SUBMITTER), 1, 1), true), Err(Error::InvalidArgument));
    assert_eq!(backend.submit(c1, &signed_block(id(SUBMITTER), 0, 1), false), Err(Error::InvalidArgument));
    assert_eq!(backend.submit(c1, &signed_block(id(0x11), 0, 1), true), Err(Error::InvalidArgument));
    assert_eq!(backend.get_latest_block(&c1), Err(Error::NotFound));
    assert_eq!(backend.round_number(&c1), 0);
}

#[test]
fn submit_ends_the_round_in_progress() {
    let mut backend = engine(2);
    let c1 = id(1);
    backend.commit(c1, id(0xa), Commitment { digest: id(1) }, 0).unwrap();
    assert_eq!(backend.submit(c1, &signed_block(id(SUBMITTER), 0, 1), true), Ok(Phase::Finalized));
    assert_eq!(backend.commitment_count(&c1), 0);
    assert_eq!(backend.phase(&c1), Phase::AwaitingCommitments);
    assert_eq!(backend.deadline(&c1), None);
}

#[test]
fn block_stream_starts_at_the_latest_block_and_has_no_gaps() {
    let mut backend = engine(2);
    let c1 = id(1);
    for round in 0..3u64 {
        backend.submit(c1, &signed_block(id(SUBMITTER), round, round as u8), true).unwrap();
    }
    let mut cursor = backend.get_blocks(c1);
    assert_eq!(cursor.next, 2);
    assert_eq!(backend.next_block(&mut cursor).unwrap().header.round, 2);
    assert_eq!(backend.next_block(&mut cursor), None);
    assert_eq!(cursor.next, 3);
    backend.submit(c1, &signed_block(id(SUBMITTER), 3, 3), true).unwrap();
    backend.submit(c1, &signed_block(id(SUBMITTER), 4, 4), true).unwrap();
    assert_eq!(backend.next_block(&mut cursor).unwrap().header.round, 3);
    assert_eq!(backend.next_block(&mut cursor).unwrap().header.round, 4);
    assert_eq!(backend.next_block(&mut cursor), None);
}

#[test]
fn block_stream_of_an_empty_chain_starts_with_the_first_block() {
    let mut backend = engine(2);
    let c1 = id(1);
    let mut cursor = backend.get_blocks(c1);
    assert_eq!(cursor.next, 0);
    assert_eq!(backend.next_block(&mut cursor), None);
    let signed = signed_block(id(SUBMITTER), 0, 1);
    backend.submit(c1, &signed, true).unwrap();
    assert_eq!(backend.next_block(&mut cursor), Some(signed.value));
}

#[test]
fn contracts_do_not_touch_each_other() {
    let mut backend = engine(1);
    let (c1, c2) = (id(1), id(2));
    let events2 = backend.get_events(c2);
    backend.commit(c1, id(0xa), Commitment { digest: id(1) }, 0).unwrap();
    assert_eq!(backend.phase(&c1), Phase::AwaitingReveals);
    assert_eq!(backend.phase(&c2), Phase::AwaitingCommitments);
    assert_eq!(backend.commitment_count(&c2), 0);
    assert_eq!(backend.next_event(&events2), None);
    backend.submit(c2, &signed_block(id(SUBMITTER), 0, 1), true).unwrap();
    assert_eq!(backend.round_number(&c2), 1);
    assert_eq!(backend.round_number(&c1), 0);
    assert_eq!(backend.phase(&c1), Phase::AwaitingReveals);
}

#[test]
fn cancelled_event_stream_gets_nothing() {
    let mut backend = engine(1);
    let c1 = id(1);
    let events = backend.get_events(c1);
    let other = backend.get_events(c1);
    backend.cancel_events(events);
    backend.commit(c1, id(0xa), Commitment { digest: id(1) }, 0).unwrap();
    assert_eq!(backend.next_event(&events), None);
    assert_eq!(backend.next_event(&other), Some(Event::CommitmentsReceived));
    assert_eq!(backend.phase(&c1), Phase::AwaitingReveals);
}

#[test]
fn contract_state_can_be_driven_directly() {
    let config = Config::new(1, TIMEOUT, 2, vec![]).unwrap();
    let mut state = ContractState::new(&config);
    assert_eq!(state.chain_len(), 0);
    assert_eq!(state.block_at(0), None);
    assert_eq!(state.latest_block(), Err(Error::NotFound));
    let sub = state.subscribe(&config);
    assert_eq!(state.commit(&config, id(0xa), Commitment { digest: id(1) }, 7), Ok(Phase::AwaitingReveals));
    {
        let round = state.round(&config);
        assert_eq!(round.phase(), Phase::AwaitingReveals);
        assert_eq!(round.round_number(), 0);
        assert_eq!(round.deadline(), Some(107));
        assert_eq!(round.commitment_count(), 1);
        assert_eq!(round.reveal_count(), 0);
        assert_eq!(round.commitment_of(&id(0xa)), Some(Commitment { digest: id(1) }));
        assert_eq!(round.commitment_of(&id(0xb)), None);
    }
    assert_eq!(state.next_event(&config, sub), Some(Event::CommitmentsReceived));
    let h = header(0, 3);
    assert_eq!(state.reveal_commitment(&config, reveal_of(id(0xa), h, 1), id(1), true), Ok(Phase::Finalized));
    assert_eq!(state.chain_len(), 1);
    assert_eq!(state.block_at(0), Some(Block::new(h)));
    assert_eq!(state.block_at(1), None);
    assert_eq!(state.latest_block(), Ok(Block::new(h)));
    assert!(!state.expire(&config, u64::MAX));
    state.unsubscribe(&config, sub);
    assert_eq!(state.next_event(&config, sub), None);
    assert_eq!(state.submit(&config, &signed_block(id(SUBMITTER), 1, 1), true), Err(Error::InvalidArgument));
}
