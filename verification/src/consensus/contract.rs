//! The consensus state of one contract: its chain, its round in progress and
//! its event stream.

use vstd::prelude::*;
use crate::common::bytes::B256;
use crate::common::error::Error;
use crate::common::signature::Signed;
use crate::consensus::block::Block;
use crate::consensus::commitment::{Commitment, Reveal};
use crate::consensus::config::Config;
use crate::consensus::event::{Event, EventStream};
use crate::consensus::header::Header;
use crate::consensus::identity_map::{lemma_map_of_entries, position_of, IdentityMap};
use crate::consensus::model::{
    agreed_header, deadline_after, unanimous, ContractView, Parameters, Phase, RoundView,
};

verus! {

/// The header that the reveals settle on: the one that all of them disclose,
/// if there is a reveal and all disclose the same header.
pub fn agreed(reveals: &IdentityMap<Reveal>) -> (r: Option<Header>)
    requires
        reveals.wf(),
    ensures
        r == agreed_header(reveals@),
{
    proof {
        lemma_map_of_entries(reveals.entries());
    }
    let n: usize = reveals.len();
    if n == 0 {
        proof {
            assert forall|header: Header| !unanimous(reveals@, header) by {
                if unanimous(reveals@, header) {
                    let id = choose|id: B256| #[trigger] reveals@.contains_key(id);
                    assert(0 <= position_of(reveals.entries(), id) < reveals.entries().len());
                }
            }
        }
        return None;
    }
    let first: Header = reveals.entry(0).1.value;
    let mut i: usize = 1;
    while i < n
        invariant
            1 <= i <= n,
            n == reveals.entries().len(),
            first == reveals.entries()[0].1.value,
            forall|j: int| 0 <= j < i ==> (#[trigger] reveals.entries()[j]).1.value == first,
            forall|j: int|
                0 <= j < reveals.entries().len() ==> reveals@.contains_key(
                    (#[trigger] reveals.entries()[j]).0,
                ) && reveals@[reveals.entries()[j].0] == reveals.entries()[j].1,
        decreases n - i,
    {
        let other: Header = reveals.entry(i).1.value;
        if !(other == first) {
            proof {
                let a = reveals.entries()[0];
                let b = reveals.entries()[i as int];
                assert forall|header: Header| !unanimous(reveals@, header) by {
                    if unanimous(reveals@, header) {
                        assert(reveals@[a.0].value == header);
                        assert(reveals@[b.0].value == header);
                    }
                }
            }
            return None;
        }
        i = i + 1;
    }
    proof {
        let a = reveals.entries()[0];
        assert(unanimous(reveals@, first)) by {
            assert(reveals@.contains_key(a.0));
            assert forall|id: B256| reveals@.contains_key(id) implies (
            #[trigger] reveals@[id]).value == first by {
                let entries = reveals.entries();
                let p = position_of(entries, id);
                assert(entries[p].0 == id);
                assert(entries[p].1.value == first);
            }
        }
        let chosen = choose|header: Header| unanimous(reveals@, header);
        assert(reveals@[a.0].value == chosen);
    }
    Some(first)
}

/// The deadline of a phase that starts at `now`: `timeout` later, or the end
/// of time if that is sooner.
pub fn deadline(now: u64, timeout: u64) -> (d: u64)
    ensures
        d == deadline_after(now, timeout),
{
    now.saturating_add(timeout)
}

/// The round that a contract is currently running.
#[derive(Debug)]
pub struct Round {
    round_number: u64,
    phase: Phase,
    deadline: Option<u64>,
    commitments: IdentityMap<Commitment>,
    reveals: IdentityMap<Reveal>,
}

impl Round {
    /// The round as the model sees it.
    pub closed spec fn view(&self) -> RoundView {
        RoundView {
            round_number: self.round_number as nat,
            phase: self.phase,
            deadline: self.deadline,
            commitments: self.commitments@,
            reveals: self.reveals@,
        }
    }

    /// The invariant of the representation: no identity is recorded twice.
    pub closed spec fn wf(&self) -> bool {
        self.commitments.wf() && self.reveals.wf()
    }

    /// A round that has just opened.
    pub fn fresh(round_number: u64) -> (round: Round)
        ensures
            round.wf(),
            round@ == RoundView::fresh(round_number as nat),
    {
        Round {
            round_number,
            phase: Phase::AwaitingCommitments,
            deadline: None,
            commitments: IdentityMap::new(),
            reveals: IdentityMap::new(),
        }
    }

    /// The position in the chain of the block that the round decides on.
    pub fn round_number(&self) -> (n: u64)
        ensures
            n == self@.round_number,
    {
        self.round_number
    }

    /// Where the round stands.
    pub fn phase(&self) -> (phase: Phase)
        ensures
            phase == self@.phase,
    {
        self.phase
    }

    /// When the current phase runs out.
    pub fn deadline(&self) -> (deadline: Option<u64>)
        ensures
            deadline == self@.deadline,
    {
        self.deadline
    }

    /// The commitment of `identity` in this round, if it has committed.
    pub fn commitment_of(&self, identity: &B256) -> (r: Option<Commitment>)
        requires
            self.wf(),
        ensures
            r == (if self@.commitments.contains_key(*identity) {
                Some(self@.commitments[*identity])
            } else {
                None
            }),
    {
        self.commitments.get(identity)
    }

    /// How many identities have committed in this round.
    pub fn commitment_count(&self) -> (n: usize)
        requires
            self.wf(),
        ensures
            n == self@.commitments.dom().len(),
    {
        self.commitments.len()
    }

    /// How many identities have revealed in this round.
    pub fn reveal_count(&self) -> (n: usize)
        requires
            self.wf(),
        ensures
            n == self@.reveals.dom().len(),
    {
        self.reveals.len()
    }
}

/// Everything the engine keeps for one contract.
#[derive(Debug)]
pub struct ContractState {
    blocks: Vec<Block>,
    round: Round,
    events: EventStream,
}

impl ContractState {
    /// The state as the model sees it.
    pub closed spec fn view(&self) -> ContractView {
        ContractView { blocks: self.blocks@, round: self.round@, events: self.events.pending() }
    }

    /// The invariant of the state under the settings `p`.
    pub closed spec fn wf(&self, p: Parameters) -> bool {
        &&& self.round.wf()
        &&& self.events.wf()
        &&& self.events.capacity() == p.event_capacity
        &&& self@.wf(p)
    }

    /// A well-formed state is well-formed in the model.
    pub proof fn lemma_view_wf(&self, p: Parameters)
        requires
            self.wf(p),
        ensures
            self@.wf(p),
    {
    }

    /// The state of a contract that nothing has happened to yet.
    pub fn new(config: &Config) -> (state: ContractState)
        requires
            config.wf(),
        ensures
            state.wf(config@),
            state@ == ContractView::initial(),
    {
        let events = EventStream::new(config.event_capacity()).unwrap();
        ContractState { blocks: Vec::new(), round: Round::fresh(0), events }
    }

    /// The round in progress.
    pub fn round(&self, config: &Config) -> (round: &Round)
        requires
            self.wf(config@),
        ensures
            round@ == self@.round,
            round.wf(),
    {
        &self.round
    }

    /// The most recently finalized block; `NotFound` while there is none.
    pub fn latest_block(&self) -> (r: Result<Block, Error>)
        ensures
            r == self@.latest_block(),
    {
        let n: usize = self.blocks.len();
        if n == 0 {
            Err(Error::NotFound)
        } else {
            Ok(self.blocks[n - 1])
        }
    }

    /// The number of finalized blocks.
    pub fn chain_len(&self) -> (n: usize)
        ensures
            n == self@.blocks.len(),
    {
        self.blocks.len()
    }

    /// The finalized block at position `index` of the chain, if the chain is
    /// that long. In a well-formed state its round number is `index`.
    pub fn block_at(&self, index: usize) -> (r: Option<Block>)
        ensures
            index < self@.blocks.len() ==> r == Some(self@.blocks[index as int]),
            index >= self@.blocks.len() ==> r is None,
    {
        if index < self.blocks.len() {
            Some(self.blocks[index])
        } else {
            None
        }
    }

    /// Closes the round in progress with `block` and opens the next one.
    fn finalize(&mut self, block: Block)
        requires
            old(self)@.round.round_number == old(self)@.blocks.len(),
        ensures
            final(self)@ == old(self)@.finalize(block),
            final(self).round.wf(),
            final(self).events == old(self).events,
    {
        self.blocks.push(block);
        let n: usize = self.blocks.len();
        self.round = Round::fresh(n as u64);
    }

    /// Abandons the round in progress for `reason` and opens a new one.
    fn fail(&mut self, config: &Config, reason: Error)
        requires
            old(self).events.wf(),
            old(self).events.capacity() == config@.event_capacity,
        ensures
            final(self)@ == old(self)@.fail(config@, reason),
            final(self).round.wf(),
            final(self).events.wf(),
            final(self).events.capacity() == config@.event_capacity,
    {
        self.round = Round::fresh(self.round.round_number);
        self.events.publish(Event::RoundFailed(reason));
    }

    /// Records the commitment of `identity` at time `now`.
    ///
    /// Fails as `InvalidArgument`, and changes nothing, unless the round takes
    /// commitments. Otherwise returns the phase that the round is in after the
    /// commitment: see [`ContractView::commit`].
    pub fn commit(&mut self, config: &Config, identity: B256, commitment: Commitment, now: u64) -> (r:
        Result<Phase, Error>)
        requires
            config.wf(),
            old(self).wf(config@),
        ensures
            final(self).wf(config@),
            (final(self)@, r) == old(self)@.commit(config@, identity, commitment, now),
    {
        proof {
            old(self)@.lemma_commit_wf(config@, identity, commitment, now);
        }
        if !(self.round.phase == Phase::AwaitingCommitments) {
            return Err(Error::InvalidArgument);
        }
        self.round.commitments.insert(identity, commitment);
        if self.round.commitments.len() >= config.quorum() {
            self.round.phase = Phase::AwaitingReveals;
            self.round.deadline = Some(deadline(now, config.phase_timeout()));
            self.events.publish(Event::CommitmentsReceived);
            Ok(Phase::AwaitingReveals)
        } else {
            if self.round.deadline.is_none() {
                self.round.deadline = Some(deadline(now, config.phase_timeout()));
            }
            Ok(Phase::AwaitingCommitments)
        }
    }

    /// Records a reveal of the identity that signed it.
    ///
    /// `digest` is the hash of the reveal's preimage and `signature_valid`
    /// says whether the reveal's signature verifies over its header under the
    /// signer's key; the caller computes both. Fails as `InvalidArgument`, and
    /// changes nothing, unless the reveal is taken. Otherwise returns the
    /// phase that the round is in after the reveal: `AwaitingReveals` while
    /// the quorum is short, `Finalized` or `Failed` once it is full. See
    /// [`ContractView::reveal_commitment`].
    pub fn reveal_commitment(
        &mut self,
        config: &Config,
        reveal: Reveal,
        digest: B256,
        signature_valid: bool,
    ) -> (r: Result<Phase, Error>)
        requires
            config.wf(),
            old(self).wf(config@),
        ensures
            final(self).wf(config@),
            (final(self)@, r) == old(self)@.reveal_commitment(
                config@,
                reveal,
                digest,
                signature_valid,
            ),
    {
        proof {
            old(self)@.lemma_reveal_wf(config@, reveal, digest, signature_valid);
        }
        let identity = reveal.identity();
        if !(self.round.phase == Phase::AwaitingReveals) || !signature_valid {
            return Err(Error::InvalidArgument);
        }
        match self.round.commitments.get(&identity) {
            None => {
                return Err(Error::InvalidArgument);
            },
            Some(commitment) => {
                if !(commitment.digest == digest) {
                    return Err(Error::InvalidArgument);
                }
            },
        }
        self.round.reveals.insert(identity, reveal);
        if self.round.reveals.len() < config.quorum() {
            return Ok(Phase::AwaitingReveals);
        }
        match agreed(&self.round.reveals) {
            Some(header) => {
                if header.round == self.round.round_number {
                    self.finalize(Block::new(header));
                    Ok(Phase::Finalized)
                } else {
                    self.fail(config, Error::InvalidArgument);
                    Ok(Phase::Failed)
                }
            },
            None => {
                self.fail(config, Error::InvalidArgument);
                Ok(Phase::Failed)
            },
        }
    }

    /// Takes a directly submitted block.
    ///
    /// `signature_valid` says whether the signature verifies over the block
    /// under the signer's key; the caller computes it. Fails as
    /// `InvalidArgument`, and changes nothing, unless the signature is good,
    /// the signer may submit and the block's round number is the one that the
    /// contract expects next. See [`ContractView::submit`].
    pub fn submit(&mut self, config: &Config, signed: &Signed<Block>, signature_valid: bool) -> (r:
        Result<Phase, Error>)
        requires
            config.wf(),
            old(self).wf(config@),
        ensures
            final(self).wf(config@),
            (final(self)@, r) == old(self)@.submit(config@, *signed, signature_valid),
    {
        proof {
            old(self)@.lemma_submit_wf(config@, *signed, signature_valid);
        }
        let signer = signed.signer();
        if signature_valid && config.may_submit(&signer) && signed.value.header.round
            == self.round.round_number {
            self.finalize(signed.value);
            Ok(Phase::Finalized)
        } else {
            Err(Error::InvalidArgument)
        }
    }

    /// Tells the state that time has come to `now`.
    ///
    /// If the phase in progress has run out, the round fails as `Timeout`, a
    /// new round opens and the result is `true`; otherwise nothing changes
    /// and the result is `false`. See [`ContractView::expire`].
    pub fn expire(&mut self, config: &Config, now: u64) -> (timed_out: bool)
        requires
            config.wf(),
            old(self).wf(config@),
        ensures
            final(self).wf(config@),
            (final(self)@, timed_out) == old(self)@.expire(config@, now),
    {
        proof {
            old(self)@.lemma_expire_wf(config@, now);
        }
        match self.round.deadline {
            Some(d) => {
                if now >= d {
                    self.fail(config, Error::Timeout);
                    true
                } else {
                    false
                }
            },
            None => false,
        }
    }

    /// Adds a subscriber to the contract's events and returns the number that
    /// names it, which named no subscriber before. The subscriber sees the
    /// events published from now on.
    pub fn subscribe(&mut self, config: &Config) -> (id: usize)
        requires
            config.wf(),
            old(self).wf(config@),
        ensures
            final(self).wf(config@),
            !old(self)@.events.contains_key(id),
            final(self)@ == old(self)@.subscribe(id),
    {
        self.events.subscribe()
    }

    /// Removes a subscriber to the contract's events. Nothing else changes,
    /// and removing a number that names no subscriber changes nothing at all.
    pub fn unsubscribe(&mut self, config: &Config, id: usize)
        requires
            config.wf(),
            old(self).wf(config@),
        ensures
            final(self).wf(config@),
            final(self)@ == old(self)@.unsubscribe(id),
    {
        self.events.unsubscribe(id)
    }

    /// Hands subscriber `id` its oldest unread event, if it has one.
    pub fn next_event(&mut self, config: &Config, id: usize) -> (r: Option<Event>)
        requires
            config.wf(),
            old(self).wf(config@),
        ensures
            final(self).wf(config@),
            r == old(self)@.unread(id),
            final(self)@ == old(self)@.poll(id),
    {
        self.events.poll(id)
    }
}

} // verus!
