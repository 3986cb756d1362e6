//! The mathematical model of one contract's consensus state: what the state
//! is, and what each operation makes of it.
//!
//! The executable engine is proved to follow these definitions step by step;
//! the laws at the end of this file are proved of the definitions themselves.

use vstd::prelude::*;
use crate::common::bytes::B256;
use crate::common::error::Error;
use crate::common::signature::Signed;
use crate::consensus::block::Block;
use crate::consensus::commitment::{Commitment, Reveal};
use crate::consensus::event::{enqueue, publish_to_all, Event};
use crate::consensus::header::Header;

verus! {

/// Where a round stands.
#[derive(Clone, Copy, Debug, PartialEq, Eq, Structural)]
pub enum Phase {
    /// The round takes commitments.
    AwaitingCommitments,
    /// A quorum has committed; the round takes reveals.
    AwaitingReveals,
    /// The round produced a block and is over.
    Finalized,
    /// The round was abandoned and is over.
    Failed,
}

/// The settings that all contracts of an engine share.
pub struct Parameters {
    /// How many distinct identities must commit, and then reveal, for a round
    /// to move on.
    pub quorum: nat,
    /// How long a phase may last, counted from the first commitment of a
    /// round and again from the moment that a quorum has committed.
    pub phase_timeout: u64,
    /// How many unread events a subscriber may have waiting.
    pub event_capacity: nat,
    /// The identities that may submit a block directly.
    pub submitters: Set<B256>,
}

impl Parameters {
    /// A quorum and an event capacity of zero make no sense.
    pub open spec fn valid(self) -> bool {
        self.quorum >= 1 && self.event_capacity >= 1
    }
}

/// The deadline of a phase that starts at `now`: `timeout` later, or the end
/// of time if that is sooner.
pub open spec fn deadline_after(now: u64, timeout: u64) -> u64 {
    if now + timeout <= u64::MAX {
        (now + timeout) as u64
    } else {
        u64::MAX
    }
}

/// Somebody has revealed, and every reveal discloses `header`.
pub open spec fn unanimous(reveals: Map<B256, Reveal>, header: Header) -> bool {
    &&& exists|id: B256| #[trigger] reveals.contains_key(id)
    &&& forall|id: B256| reveals.contains_key(id) ==> (#[trigger] reveals[id]).value == header
}

/// The header that a set of reveals settles on: the one that all of them
/// disclose, if there is a reveal and all disclose the same header. Who
/// revealed, and in which order, plays no part.
pub open spec fn agreed_header(reveals: Map<B256, Reveal>) -> Option<Header> {
    if exists|header: Header| unanimous(reveals, header) {
        Some(choose|header: Header| unanimous(reveals, header))
    } else {
        None
    }
}

/// The round that a contract is currently running.
pub struct RoundView {
    /// The position in the chain of the block that the round decides on.
    pub round_number: nat,
    /// Where the round stands.
    pub phase: Phase,
    /// When the current phase runs out; `None` while nobody has committed.
    pub deadline: Option<u64>,
    /// The commitment of each identity that has committed.
    pub commitments: Map<B256, Commitment>,
    /// The reveal of each identity that has revealed.
    pub reveals: Map<B256, Reveal>,
}

impl RoundView {
    /// A round that has just opened.
    pub open spec fn fresh(round_number: nat) -> RoundView {
        RoundView {
            round_number,
            phase: Phase::AwaitingCommitments,
            deadline: None,
            commitments: Map::empty(),
            reveals: Map::empty(),
        }
    }
}

/// Everything the engine knows about one contract.
pub struct ContractView {
    /// The finalized blocks, oldest first.
    pub blocks: Seq<Block>,
    /// The round in progress.
    pub round: RoundView,
    /// For each subscriber to the contract's events, the events it has not
    /// read yet.
    pub events: Map<usize, Seq<Event>>,
}

impl ContractView {
    /// A contract that nothing has happened to yet.
    pub open spec fn initial() -> ContractView {
        ContractView { blocks: Seq::empty(), round: RoundView::fresh(0), events: Map::empty() }
    }

    /// What holds of a contract's chain and event queues at all times: the
    /// round in progress decides on the block after the last one, block `i`
    /// of the chain has round number `i`, and no subscriber has more unread
    /// events than the capacity allows.
    pub open spec fn chain_wf(self, p: Parameters) -> bool {
        &&& self.round.round_number == self.blocks.len()
        &&& forall|i: int|
            0 <= i < self.blocks.len() ==> (#[trigger] self.blocks[i]).header.round == i
        &&& forall|id: usize|
            self.events.contains_key(id) ==> (#[trigger] self.events[id]).len() <= p.event_capacity
    }

    /// What holds of the round in progress between any two operations: it is
    /// open, it is short of a quorum in its phase, only identities that have
    /// committed have revealed, and its clock runs if and only if somebody has
    /// committed.
    pub open spec fn round_wf(self, p: Parameters) -> bool {
        &&& self.round.commitments.dom().finite()
        &&& self.round.reveals.dom().finite()
        &&& match self.round.phase {
            Phase::AwaitingCommitments => {
                &&& self.round.commitments.dom().len() < p.quorum
                &&& self.round.reveals == Map::<B256, Reveal>::empty()
                &&& (self.round.deadline is Some <==> self.round.commitments.dom().len() > 0)
            },
            Phase::AwaitingReveals => {
                &&& self.round.commitments.dom().len() >= p.quorum
                &&& self.round.reveals.dom().len() < p.quorum
                &&& self.round.reveals.dom().subset_of(self.round.commitments.dom())
                &&& self.round.deadline is Some
            },
            _ => false,
        }
    }

    /// What holds of a contract's state between any two operations.
    pub open spec fn wf(self, p: Parameters) -> bool {
        self.chain_wf(p) && self.round_wf(p)
    }

    /// The most recently finalized block.
    pub open spec fn latest_block(self) -> Result<Block, Error> {
        if self.blocks.len() > 0 {
            Ok(self.blocks.last())
        } else {
            Err(Error::NotFound)
        }
    }

    /// The state after `event` was published to the contract's subscribers.
    pub open spec fn publish(self, p: Parameters, event: Event) -> ContractView {
        ContractView {
            blocks: self.blocks,
            round: self.round,
            events: publish_to_all(self.events, p.event_capacity, event),
        }
    }

    /// The state after the round in progress was closed with `block`, and the
    /// round for the next block was opened.
    pub open spec fn finalize(self, block: Block) -> ContractView {
        ContractView {
            blocks: self.blocks.push(block),
            round: RoundView::fresh(self.round.round_number + 1),
            events: self.events,
        }
    }

    /// The state after the round in progress was abandoned for `reason`, and
    /// a new round for the same block was opened.
    pub open spec fn fail(self, p: Parameters, reason: Error) -> ContractView {
        ContractView {
            blocks: self.blocks,
            round: RoundView::fresh(self.round.round_number),
            events: publish_to_all(self.events, p.event_capacity, Event::RoundFailed(reason)),
        }
    }

    /// `identity` commits to `commitment` at time `now`.
    ///
    /// Refused unless the round takes commitments. A second commitment of an
    /// identity takes the place of its first. The first commitment of a round
    /// starts the clock. With the commitment that makes the quorum full, the
    /// round moves on to its reveal phase, the clock starts anew, and the
    /// subscribers are told.
    pub open spec fn commit(
        self,
        p: Parameters,
        identity: B256,
        commitment: Commitment,
        now: u64,
    ) -> (ContractView, Result<Phase, Error>) {
        if self.round.phase != Phase::AwaitingCommitments {
            (self, Err(Error::InvalidArgument))
        } else {
            let commitments = self.round.commitments.insert(identity, commitment);
            if commitments.dom().len() >= p.quorum {
                (
                    ContractView {
                        blocks: self.blocks,
                        round: RoundView {
                            round_number: self.round.round_number,
                            phase: Phase::AwaitingReveals,
                            deadline: Some(deadline_after(now, p.phase_timeout)),
                            commitments,
                            reveals: self.round.reveals,
                        },
                        events: publish_to_all(
                            self.events,
                            p.event_capacity,
                            Event::CommitmentsReceived,
                        ),
                    },
                    Ok(Phase::AwaitingReveals),
                )
            } else {
                (
                    ContractView {
                        blocks: self.blocks,
                        round: RoundView {
                            round_number: self.round.round_number,
                            phase: Phase::AwaitingCommitments,
                            deadline: if self.round.deadline is Some {
                                self.round.deadline
                            } else {
                                Some(deadline_after(now, p.phase_timeout))
                            },
                            commitments,
                            reveals: self.round.reveals,
                        },
                        events: self.events,
                    },
                    Ok(Phase::AwaitingCommitments),
                )
            }
        }
    }

    /// Whether a reveal is taken: the round takes reveals, the revealing
    /// identity has committed, its commitment equals `digest`, and its
    /// signature is good.
    ///
    /// `digest` is the hash of the reveal's preimage and `signature_valid` the
    /// outcome of verifying the reveal's signature over its header under the
    /// revealing identity's key, both as the caller computed them.
    pub open spec fn reveal_accepted(
        self,
        reveal: Reveal,
        digest: B256,
        signature_valid: bool,
    ) -> bool {
        &&& self.round.phase == Phase::AwaitingReveals
        &&& self.round.commitments.contains_key(reveal.spec_identity())
        &&& self.round.commitments[reveal.spec_identity()].digest == digest
        &&& signature_valid
    }

    /// The state after a quorum of reveals is in.
    ///
    /// If all reveals disclose the same header, and that header is for the
    /// block that the round decides on, the block built from it is appended to
    /// the chain. Otherwise the round fails as `InvalidArgument`.
    pub open spec fn settle(self, p: Parameters) -> (ContractView, Result<Phase, Error>) {
        match agreed_header(self.round.reveals) {
            Some(header) => {
                if header.round == self.round.round_number {
                    (self.finalize(Block::from_header(header)), Ok(Phase::Finalized))
                } else {
                    (self.fail(p, Error::InvalidArgument), Ok(Phase::Failed))
                }
            },
            None => (self.fail(p, Error::InvalidArgument), Ok(Phase::Failed)),
        }
    }

    /// The signer of `reveal` reveals.
    ///
    /// A reveal that is not taken leaves the state as it was. A second reveal
    /// of an identity takes the place of its first. With the reveal that makes
    /// the quorum full, the round is settled and the next round opens.
    pub open spec fn reveal_commitment(
        self,
        p: Parameters,
        reveal: Reveal,
        digest: B256,
        signature_valid: bool,
    ) -> (ContractView, Result<Phase, Error>) {
        if !self.reveal_accepted(reveal, digest, signature_valid) {
            (self, Err(Error::InvalidArgument))
        } else {
            let recorded = ContractView {
                blocks: self.blocks,
                round: RoundView {
                    round_number: self.round.round_number,
                    phase: self.round.phase,
                    deadline: self.round.deadline,
                    commitments: self.round.commitments,
                    reveals: self.round.reveals.insert(reveal.spec_identity(), reveal),
                },
                events: self.events,
            };
            if recorded.round.reveals.dom().len() >= p.quorum {
                recorded.settle(p)
            } else {
                (recorded, Ok(Phase::AwaitingReveals))
            }
        }
    }

    /// Whether a directly submitted block is taken: its signature is good,
    /// its signer may submit, and it is the block that the contract expects
    /// next.
    pub open spec fn submit_accepted(
        self,
        p: Parameters,
        signed: Signed<Block>,
        signature_valid: bool,
    ) -> bool {
        &&& signature_valid
        &&& p.submitters.contains(signed.spec_signer())
        &&& signed.value.header.round == self.round.round_number
    }

    /// A block is submitted directly.
    ///
    /// A block that is taken is appended to the chain; the round in progress
    /// is over, whatever it had gathered, and the next round opens.
    pub open spec fn submit(self, p: Parameters, signed: Signed<Block>, signature_valid: bool) -> (
        ContractView,
        Result<Phase, Error>,
    ) {
        if self.submit_accepted(p, signed, signature_valid) {
            (self.finalize(signed.value), Ok(Phase::Finalized))
        } else {
            (self, Err(Error::InvalidArgument))
        }
    }

    /// Whether the phase in progress has run out at time `now`.
    pub open spec fn expired(self, now: u64) -> bool {
        self.round.deadline is Some && now >= self.round.deadline->Some_0
    }

    /// Time has come to `now`.
    ///
    /// If the phase in progress has run out, the round fails as `Timeout` and
    /// a new round opens; otherwise nothing changes. The flag says which.
    pub open spec fn expire(self, p: Parameters, now: u64) -> (ContractView, bool) {
        if self.expired(now) {
            (self.fail(p, Error::Timeout), true)
        } else {
            (self, false)
        }
    }
}

/// A queue within its capacity stays within it when an event is added.
pub proof fn lemma_enqueue_bounded(pending: Seq<Event>, capacity: nat, event: Event)
    requires
        capacity >= 1,
        pending.len() <= capacity,
    ensures
        enqueue(pending, capacity, event).len() <= capacity,
        enqueue(pending, capacity, event).len() >= 1,
        enqueue(pending, capacity, event).last() == event,
{
}

impl ContractView {
    /// The state of an untouched contract is well-formed.
    pub proof fn lemma_initial_wf(p: Parameters)
        requires
            p.valid(),
        ensures
            ContractView::initial().wf(p),
    {
    }

    /// Publishing an event keeps every subscriber within the capacity.
    pub proof fn lemma_publish_wf(self, p: Parameters, event: Event)
        requires
            self.chain_wf(p),
            p.valid(),
        ensures
            self.publish(p, event).chain_wf(p),
    {
        assert forall|id: usize| self.publish(p, event).events.contains_key(id) implies (
        #[trigger] self.publish(p, event).events[id]).len() <= p.event_capacity by {
            lemma_enqueue_bounded(self.events[id], p.event_capacity, event);
        }
    }

    /// Appending the expected block and opening the next round gives a
    /// well-formed state, whatever the round before had gathered.
    pub proof fn lemma_finalize_wf(self, p: Parameters, block: Block)
        requires
            self.chain_wf(p),
            p.valid(),
            block.header.round == self.round.round_number,
        ensures
            self.finalize(block).wf(p),
    {
        let next = self.finalize(block);
        assert forall|i: int| 0 <= i < next.blocks.len() implies (
        #[trigger] next.blocks[i]).header.round == i by {
            if i < self.blocks.len() {
                assert(next.blocks[i] == self.blocks[i]);
            }
        }
    }

    /// Abandoning the round and opening a new one gives a well-formed state,
    /// whatever the abandoned round had gathered.
    pub proof fn lemma_fail_wf(self, p: Parameters, reason: Error)
        requires
            self.chain_wf(p),
            p.valid(),
        ensures
            self.fail(p, reason).wf(p),
    {
        self.lemma_publish_wf(p, Event::RoundFailed(reason));
        assert(self.fail(p, reason).events == self.publish(p, Event::RoundFailed(reason)).events);
    }

    /// A commitment keeps a state well-formed.
    pub proof fn lemma_commit_wf(
        self,
        p: Parameters,
        identity: B256,
        commitment: Commitment,
        now: u64,
    )
        requires
            self.wf(p),
            p.valid(),
        ensures
            self.commit(p, identity, commitment, now).0.wf(p),
    {
        if self.round.phase == Phase::AwaitingCommitments {
            self.lemma_publish_wf(p, Event::CommitmentsReceived);
            assert(self.round.reveals.dom() =~= Set::<B256>::empty());
        }
    }

    /// A reveal keeps a state well-formed.
    pub proof fn lemma_reveal_wf(
        self,
        p: Parameters,
        reveal: Reveal,
        digest: B256,
        signature_valid: bool,
    )
        requires
            self.wf(p),
            p.valid(),
        ensures
            self.reveal_commitment(p, reveal, digest, signature_valid).0.wf(p),
    {
        if self.reveal_accepted(reveal, digest, signature_valid) {
            let recorded = ContractView {
                blocks: self.blocks,
                round: RoundView {
                    round_number: self.round.round_number,
                    phase: self.round.phase,
                    deadline: self.round.deadline,
                    commitments: self.round.commitments,
                    reveals: self.round.reveals.insert(reveal.spec_identity(), reveal),
                },
                events: self.events,
            };
            if recorded.round.reveals.dom().len() >= p.quorum {
                recorded.lemma_fail_wf(p, Error::InvalidArgument);
                match agreed_header(recorded.round.reveals) {
                    Some(header) => {
                        if header.round == recorded.round.round_number {
                            recorded.lemma_finalize_wf(p, Block::from_header(header));
                        }
                    },
                    None => {},
                }
            } else {
                assert(recorded.round.reveals.dom().subset_of(recorded.round.commitments.dom()));
            }
        }
    }

    /// A direct submission keeps a state well-formed.
    pub proof fn lemma_submit_wf(self, p: Parameters, signed: Signed<Block>, signature_valid: bool)
        requires
            self.wf(p),
            p.valid(),
        ensures
            self.submit(p, signed, signature_valid).0.wf(p),
    {
        if self.submit_accepted(p, signed, signature_valid) {
            self.lemma_finalize_wf(p, signed.value);
        }
    }

    /// The passing of time keeps a state well-formed.
    pub proof fn lemma_expire_wf(self, p: Parameters, now: u64)
        requires
            self.wf(p),
            p.valid(),
        ensures
            self.expire(p, now).0.wf(p),
    {
        if self.expired(now) {
            self.lemma_fail_wf(p, Error::Timeout);
        }
    }

    /// The commitment that makes the quorum full opens the reveal phase, and
    /// every subscriber is told so exactly once. A commitment that leaves the
    /// quorum short tells nobody anything.
    pub proof fn lemma_commit_reaching_quorum(
        self,
        p: Parameters,
        identity: B256,
        commitment: Commitment,
        now: u64,
    )
        requires
            self.wf(p),
            p.valid(),
            self.round.phase == Phase::AwaitingCommitments,
        ensures
            ({
                let (next, result) = self.commit(p, identity, commitment, now);
                let full = self.round.commitments.insert(identity, commitment).dom().len()
                    >= p.quorum;
                &&& full ==> {
                    &&& result == Ok::<Phase, Error>(Phase::AwaitingReveals)
                    &&& next.round.phase == Phase::AwaitingReveals
                    &&& next.events == publish_to_all(
                        self.events,
                        p.event_capacity,
                        Event::CommitmentsReceived,
                    )
                    &&& forall|id: usize| #[trigger]
                        self.events.contains_key(id) ==> next.events.contains_key(id)
                            && next.events[id].last() == Event::CommitmentsReceived
                            && next.events[id].drop_last() == (if self.events[id].len()
                            < p.event_capacity {
                            self.events[id]
                        } else {
                            self.events[id].skip(1)
                        })
                }
                &&& !full ==> {
                    &&& result == Ok::<Phase, Error>(Phase::AwaitingCommitments)
                    &&& next.round.phase == Phase::AwaitingCommitments
                    &&& next.events == self.events
                }
            }),
    {
        let (next, result) = self.commit(p, identity, commitment, now);
        if self.round.commitments.insert(identity, commitment).dom().len() >= p.quorum {
            assert forall|id: usize| #[trigger] self.events.contains_key(id) implies next.events.contains_key(id)
                && next.events[id].last() == Event::CommitmentsReceived
                && next.events[id].drop_last() == (if self.events[id].len() < p.event_capacity {
                self.events[id]
            } else {
                self.events[id].skip(1)
            }) by {
                let before = self.events[id];
                if before.len() < p.event_capacity {
                    assert(before.push(Event::CommitmentsReceived).drop_last() =~= before);
                } else {
                    assert(before.skip(1).push(Event::CommitmentsReceived).drop_last()
                        =~= before.skip(1));
                }
            }
        }
    }

    /// While the round takes reveals, the reveal of an identity that has
    /// committed is taken if and only if the digest of its preimage equals the
    /// commitment and its signature is good. Otherwise the call fails as
    /// `InvalidArgument` and the state stays as it was.
    pub proof fn lemma_reveal_taken_iff(
        self,
        p: Parameters,
        reveal: Reveal,
        digest: B256,
        signature_valid: bool,
    )
        requires
            self.round.phase == Phase::AwaitingReveals,
            self.round.commitments.contains_key(reveal.spec_identity()),
        ensures
            ({
                let (next, result) = self.reveal_commitment(p, reveal, digest, signature_valid);
                let matching = self.round.commitments[reveal.spec_identity()].digest == digest
                    && signature_valid;
                &&& result is Ok <==> matching
                &&& !matching ==> result == Err::<Phase, Error>(Error::InvalidArgument) && next
                    == self
            }),
    {
    }

    /// A reveal of an identity that has not committed in the round is refused
    /// as `InvalidArgument`, in every phase, and changes nothing.
    pub proof fn lemma_reveal_without_commitment(
        self,
        p: Parameters,
        reveal: Reveal,
        digest: B256,
        signature_valid: bool,
    )
        requires
            !self.round.commitments.contains_key(reveal.spec_identity()),
        ensures
            self.reveal_commitment(p, reveal, digest, signature_valid) == (
                self,
                Err::<Phase, Error>(Error::InvalidArgument),
            ),
    {
    }

    /// A second commitment of an identity takes the place of its first and
    /// does not bring the quorum any nearer; the same commitment sent twice
    /// leaves the state exactly as it was.
    pub proof fn lemma_commit_again(
        self,
        p: Parameters,
        identity: B256,
        commitment: Commitment,
        now: u64,
    )
        requires
            self.wf(p),
            p.valid(),
            self.round.phase == Phase::AwaitingCommitments,
            self.round.commitments.contains_key(identity),
        ensures
            ({
                let (next, result) = self.commit(p, identity, commitment, now);
                &&& result == Ok::<Phase, Error>(Phase::AwaitingCommitments)
                &&& next.round.commitments.dom() == self.round.commitments.dom()
                &&& next.round.commitments.dom().len() == self.round.commitments.dom().len()
                &&& next.round.commitments[identity] == commitment
                &&& self.round.commitments[identity] == commitment ==> next == self
            }),
    {
        let (next, result) = self.commit(p, identity, commitment, now);
        assert(self.round.commitments.insert(identity, commitment).dom()
            =~= self.round.commitments.dom());
        if self.round.commitments[identity] == commitment {
            assert(self.round.commitments.insert(identity, commitment) =~= self.round.commitments);
        }
    }

    /// Along the chain the round numbers go up by one from block to block,
    /// starting at 0: none is missing and none occurs twice.
    pub proof fn lemma_chain_rounds(self, p: Parameters)
        requires
            self.wf(p),
        ensures
            forall|i: int|
                0 <= i && i + 1 < self.blocks.len() ==> (#[trigger] self.blocks[i + 1]).header.round
                    == self.blocks[i].header.round + 1,
            forall|i: int, j: int|
                0 <= i < j < self.blocks.len() ==> (#[trigger] self.blocks[i]).header.round < (
                #[trigger] self.blocks[j]).header.round,
    {
    }

    /// When a phase runs out, exactly one `RoundFailed(Timeout)` is
    /// published, the chain stays as it is, and a new round for the same block
    /// opens and takes commitments. While no phase has run out, the passing of
    /// time changes nothing.
    pub proof fn lemma_timeout_reopens_round(self, p: Parameters, now: u64)
        ensures
            ({
                let (next, timed_out) = self.expire(p, now);
                &&& timed_out == self.expired(now)
                &&& timed_out ==> {
                    &&& next.events == publish_to_all(
                        self.events,
                        p.event_capacity,
                        Event::RoundFailed(Error::Timeout),
                    )
                    &&& next.round == RoundView::fresh(self.round.round_number)
                    &&& next.round.phase == Phase::AwaitingCommitments
                    &&& next.blocks == self.blocks
                }
                &&& !timed_out ==> next == self
            }),
    {
    }
}

/// One thing that can happen to a contract.
pub enum Step {
    /// An identity commits.
    Commit { identity: B256, commitment: Commitment, now: u64 },
    /// An identity reveals.
    Reveal { reveal: Reveal, digest: B256, signature_valid: bool },
    /// A block is submitted directly.
    Submit { signed: Signed<Block>, signature_valid: bool },
    /// Time passes.
    Expire { now: u64 },
    /// A subscriber to the events arrives.
    Subscribe { id: usize },
    /// A subscriber to the events leaves.
    Unsubscribe { id: usize },
    /// A subscriber reads its oldest unread event.
    Poll { id: usize },
}

impl ContractView {
    /// The state after a subscriber arrived under a number that was free.
    pub open spec fn subscribe(self, id: usize) -> ContractView {
        if self.events.contains_key(id) {
            self
        } else {
            ContractView {
                blocks: self.blocks,
                round: self.round,
                events: self.events.insert(id, Seq::empty()),
            }
        }
    }

    /// The state after a subscriber left.
    pub open spec fn unsubscribe(self, id: usize) -> ContractView {
        ContractView { blocks: self.blocks, round: self.round, events: self.events.remove(id) }
    }

    /// The oldest event that a subscriber has not read yet, if there is one.
    pub open spec fn unread(self, id: usize) -> Option<Event> {
        if self.events.contains_key(id) && self.events[id].len() > 0 {
            Some(self.events[id][0])
        } else {
            None
        }
    }

    /// The state after a subscriber read its oldest unread event, if it had
    /// one.
    pub open spec fn poll(self, id: usize) -> ContractView {
        if self.events.contains_key(id) && self.events[id].len() > 0 {
            ContractView {
                blocks: self.blocks,
                round: self.round,
                events: self.events.insert(id, self.events[id].skip(1)),
            }
        } else {
            self
        }
    }

    /// The state after one step.
    pub open spec fn step(self, p: Parameters, step: Step) -> ContractView {
        match step {
            Step::Commit { identity, commitment, now } => self.commit(
                p,
                identity,
                commitment,
                now,
            ).0,
            Step::Reveal { reveal, digest, signature_valid } => self.reveal_commitment(
                p,
                reveal,
                digest,
                signature_valid,
            ).0,
            Step::Submit { signed, signature_valid } => self.submit(p, signed, signature_valid).0,
            Step::Expire { now } => self.expire(p, now).0,
            Step::Subscribe { id } => self.subscribe(id),
            Step::Unsubscribe { id } => self.unsubscribe(id),
            Step::Poll { id } => self.poll(id),
        }
    }

    /// The state after a sequence of steps, the first step first.
    pub open spec fn run(self, p: Parameters, steps: Seq<Step>) -> ContractView
        decreases steps.len(),
    {
        if steps.len() == 0 {
            self
        } else {
            self.run(p, steps.drop_last()).step(p, steps.last())
        }
    }

    /// Every step keeps a state well-formed and leaves the chain as it was or
    /// longer by one block.
    pub proof fn lemma_step(self, p: Parameters, step: Step)
        requires
            self.wf(p),
            p.valid(),
        ensures
            self.step(p, step).wf(p),
            self.blocks.is_prefix_of(self.step(p, step).blocks),
            self.step(p, step).blocks.len() <= self.blocks.len() + 1,
    {
        match step {
            Step::Commit { identity, commitment, now } => {
                self.lemma_commit_wf(p, identity, commitment, now);
            },
            Step::Reveal { reveal, digest, signature_valid } => {
                self.lemma_reveal_wf(p, reveal, digest, signature_valid);
            },
            Step::Submit { signed, signature_valid } => {
                self.lemma_submit_wf(p, signed, signature_valid);
            },
            Step::Expire { now } => {
                self.lemma_expire_wf(p, now);
            },
            Step::Subscribe { id } => {},
            Step::Unsubscribe { id } => {},
            Step::Poll { id } => {},
        }
    }

    /// Whatever happens to a contract, and in whatever order, its state stays
    /// well-formed and its chain only grows at the end.
    pub proof fn lemma_run(self, p: Parameters, steps: Seq<Step>)
        requires
            self.wf(p),
            p.valid(),
        ensures
            self.run(p, steps).wf(p),
            self.blocks.is_prefix_of(self.run(p, steps).blocks),
        decreases steps.len(),
    {
        if steps.len() > 0 {
            self.lemma_run(p, steps.drop_last());
            self.run(p, steps.drop_last()).lemma_step(p, steps.last());
        }
    }

    /// In every state that a contract can reach from its initial state, the
    /// round numbers along the chain are 0, 1, 2 and so on without a gap, and
    /// a block that was once at position `i` of the chain stays there for
    /// good. A stream of blocks, which hands out the chain position by
    /// position, therefore has strictly increasing round numbers without gaps.
    pub proof fn lemma_streams_have_no_gaps(p: Parameters, earlier: Seq<Step>, later: Seq<Step>)
        requires
            p.valid(),
        ensures
            ({
                let then = ContractView::initial().run(p, earlier);
                let now = then.run(p, later);
                &&& then.blocks.len() <= now.blocks.len()
                &&& forall|i: int|
                    0 <= i < then.blocks.len() ==> now.blocks[i] == #[trigger] then.blocks[i]
                &&& forall|i: int|
                    0 <= i < now.blocks.len() ==> (#[trigger] now.blocks[i]).header.round == i
                &&& forall|i: int|
                    0 <= i && i + 1 < now.blocks.len() ==> (
                    #[trigger] now.blocks[i + 1]).header.round == now.blocks[i].header.round + 1
            }),
    {
        ContractView::lemma_initial_wf(p);
        ContractView::initial().lemma_run(p, earlier);
        let then = ContractView::initial().run(p, earlier);
        then.lemma_run(p, later);
    }
}


} // verus!
