//! The round engine: the consensus state of every contract, each running its
//! rounds independently of the others.

use vstd::prelude::*;
use crate::common::bytes::B256;
use crate::common::error::Error;
use crate::common::signature::Signed;
use crate::consensus::block::Block;
use crate::consensus::commitment::{Commitment, Reveal};
use crate::consensus::config::Config;
use crate::consensus::contract::ContractState;
use crate::consensus::event::Event;
use crate::consensus::model::{ContractView, Parameters, Phase};

verus! {

/// The state of one contract, filed under the contract's identifier.
#[derive(Debug)]
struct ContractEntry {
    id: B256,
    state: ContractState,
}

/// Whether some entry is filed under `id`.
spec fn holds(entries: Seq<ContractEntry>, id: B256) -> bool {
    exists|i: int| 0 <= i < entries.len() && (#[trigger] entries[i]).id == id
}

/// The position of an entry filed under `id`.
spec fn slot_of(entries: Seq<ContractEntry>, id: B256) -> int {
    choose|i: int| 0 <= i < entries.len() && (#[trigger] entries[i]).id == id
}

/// No contract has two entries.
spec fn distinct(entries: Seq<ContractEntry>) -> bool {
    forall|i: int, j: int|
        0 <= i < entries.len() && 0 <= j < entries.len() && i != j ==> (#[trigger] entries[i]).id != (
        #[trigger] entries[j]).id
}

/// The state of contract `id`: the one on file, or the initial state if the
/// contract has no entry yet.
spec fn state_of(entries: Seq<ContractEntry>, id: B256) -> ContractView {
    if holds(entries, id) {
        entries[slot_of(entries, id)].state@
    } else {
        ContractView::initial()
    }
}

/// The entry at position `i` holds the state of the contract it is filed under.
proof fn lemma_state_of(entries: Seq<ContractEntry>, i: int)
    requires
        distinct(entries),
        0 <= i < entries.len(),
    ensures
        holds(entries, entries[i].id),
        slot_of(entries, entries[i].id) == i,
        state_of(entries, entries[i].id) == entries[i].state@,
{
    let id = entries[i].id;
    assert(holds(entries, id));
    let p = slot_of(entries, id);
    assert(0 <= p < entries.len() && entries[p].id == id);
}

/// Changing the state in one entry changes the state of that contract only.
proof fn lemma_update_one(before: Seq<ContractEntry>, after: Seq<ContractEntry>, idx: int)
    requires
        distinct(before),
        0 <= idx < before.len(),
        after.len() == before.len(),
        after[idx].id == before[idx].id,
        forall|j: int| 0 <= j < before.len() && j != idx ==> after[j] == before[j],
    ensures
        distinct(after),
        state_of(after, before[idx].id) == after[idx].state@,
        forall|other: B256|
            other != before[idx].id ==> state_of(after, other) == state_of(before, other),
{
    assert forall|i: int, j: int|
        0 <= i < after.len() && 0 <= j < after.len() && i != j implies (#[trigger] after[i]).id != (
    #[trigger] after[j]).id by {
        assert(after[i].id == before[i].id);
        assert(after[j].id == before[j].id);
    }
    lemma_state_of(after, idx);
    assert forall|other: B256| other != before[idx].id implies state_of(after, other) == state_of(
        before,
        other,
    ) by {
        if holds(before, other) {
            let p = slot_of(before, other);
            assert(after[p].id == other);
            lemma_state_of(after, p);
            lemma_state_of(before, p);
        } else if holds(after, other) {
            let p = slot_of(after, other);
            assert(before[p].id == other);
        }
    }
}

/// Filing the initial state under a contract that had no entry changes no
/// contract's state.
proof fn lemma_append_initial(before: Seq<ContractEntry>, entry: ContractEntry)
    requires
        distinct(before),
        !holds(before, entry.id),
        entry.state@ == ContractView::initial(),
    ensures
        distinct(before.push(entry)),
        forall|id: B256| state_of(before.push(entry), id) == state_of(before, id),
{
    let after = before.push(entry);
    assert forall|i: int, j: int|
        0 <= i < after.len() && 0 <= j < after.len() && i != j implies (#[trigger] after[i]).id != (
    #[trigger] after[j]).id by {
        if i < before.len() {
            assert(after[i] == before[i]);
        }
        if j < before.len() {
            assert(after[j] == before[j]);
        }
    }
    assert forall|id: B256| state_of(after, id) == state_of(before, id) by {
        if holds(before, id) {
            let p = slot_of(before, id);
            assert(after[p] == before[p]);
            lemma_state_of(after, p);
            lemma_state_of(before, p);
        } else if id == entry.id {
            lemma_state_of(after, before.len() as int);
        } else if holds(after, id) {
            let p = slot_of(after, id);
            assert(after[p] == before[p]);
        }
    }
}

/// A subscriber's place in the stream of a contract's finalized blocks.
#[derive(Clone, Copy, Debug, PartialEq, Eq, Structural)]
pub struct BlockCursor {
    /// The contract whose blocks the subscriber follows.
    pub contract_id: B256,
    /// The position in the chain, and so the round number, of the block that
    /// the subscriber gets next.
    pub next: usize,
}

/// A subscriber's handle on the stream of a contract's round events.
#[derive(Clone, Copy, Debug, PartialEq, Eq, Structural)]
pub struct EventSubscription {
    /// The contract whose events the subscriber follows.
    pub contract_id: B256,
    /// The number that names the subscriber within the contract.
    pub id: usize,
}

/// The commit-reveal round engine.
///
/// Every contract has a state of its own. A contract that the engine has not
/// heard of is in its initial state: an empty chain and a round for block 0
/// that takes commitments. An operation on one contract never touches the
/// state of another.
#[derive(Debug)]
pub struct ConsensusBackend {
    config: Config,
    contracts: Vec<ContractEntry>,
}

impl ConsensusBackend {
    /// The settings of the engine.
    pub closed spec fn parameters(&self) -> Parameters {
        self.config@
    }

    /// The state of contract `id`.
    pub closed spec fn contract(&self, id: B256) -> ContractView {
        state_of(self.contracts@, id)
    }

    /// The invariant of the engine: no contract is on file twice, and every
    /// state on file is well-formed.
    pub closed spec fn wf(&self) -> bool {
        &&& self.config.wf()
        &&& distinct(self.contracts@)
        &&& forall|i: int|
            0 <= i < self.contracts@.len() ==> (#[trigger] self.contracts@[i]).state.wf(self.config@)
    }

    /// In a well-formed engine the settings are valid and the state of every
    /// contract is well-formed.
    pub proof fn lemma_contract_wf(&self, id: B256)
        requires
            self.wf(),
        ensures
            self.parameters().valid(),
            self.contract(id).wf(self.parameters()),
    {
        if holds(self.contracts@, id) {
            let p = slot_of(self.contracts@, id);
            self.contracts@[p].state.lemma_view_wf(self.config@);
        } else {
            ContractView::lemma_initial_wf(self.config@);
        }
    }

    /// An engine with the given settings in which nothing has happened yet.
    pub fn new(config: Config) -> (backend: ConsensusBackend)
        requires
            config.wf(),
        ensures
            backend.wf(),
            backend.parameters() == config@,
            forall|id: B256| backend.contract(id) == ContractView::initial(),
    {
        ConsensusBackend { config, contracts: Vec::new() }
    }

    /// The settings of the engine.
    pub fn config(&self) -> (config: &Config)
        requires
            self.wf(),
        ensures
            config@ == self.parameters(),
            config.wf(),
    {
        &self.config
    }

    /// The position of the entry of contract `id`, if it has one.
    fn find(&self, id: &B256) -> (r: Option<usize>)
        requires
            self.wf(),
        ensures
            match r {
                Some(idx) => idx < self.contracts@.len() && self.contracts@[idx as int].id == *id,
                None => !holds(self.contracts@, *id),
            },
    {
        let mut i: usize = 0;
        while i < self.contracts.len()
            invariant
                i <= self.contracts@.len(),
                forall|j: int| 0 <= j < i ==> (#[trigger] self.contracts@[j]).id != *id,
            decreases self.contracts@.len() - i,
        {
            if self.contracts[i].id == *id {
                return Some(i);
            }
            i = i + 1;
        }
        None
    }

    /// The position of the entry of contract `id`, which is made if the
    /// contract has none. No contract's state changes.
    fn slot(&mut self, id: B256) -> (idx: usize)
        requires
            old(self).wf(),
        ensures
            final(self).wf(),
            final(self).config == old(self).config,
            idx < final(self).contracts@.len(),
            final(self).contracts@[idx as int].id == id,
            forall|k: B256| final(self).contract(k) == old(self).contract(k),
    {
        match self.find(&id) {
            Some(idx) => idx,
            None => {
                let entry = ContractEntry { id, state: ContractState::new(&self.config) };
                proof {
                    lemma_append_initial(self.contracts@, entry);
                }
                self.contracts.push(entry);
                self.contracts.len() - 1
            },
        }
    }

    /// Where the contract's round in progress stands.
    pub fn phase(&self, contract_id: &B256) -> (phase: Phase)
        requires
            self.wf(),
        ensures
            phase == self.contract(*contract_id).round.phase,
    {
        match self.find(contract_id) {
            Some(idx) => {
                proof {
                    lemma_state_of(self.contracts@, idx as int);
                }
                self.contracts[idx].state.round(&self.config).phase()
            },
            None => Phase::AwaitingCommitments,
        }
    }

    /// The round number of the block that the contract decides on next.
    pub fn round_number(&self, contract_id: &B256) -> (n: u64)
        requires
            self.wf(),
        ensures
            n == self.contract(*contract_id).round.round_number,
    {
        match self.find(contract_id) {
            Some(idx) => {
                proof {
                    lemma_state_of(self.contracts@, idx as int);
                }
                self.contracts[idx].state.round(&self.config).round_number()
            },
            None => 0,
        }
    }

    /// When the phase in progress of the contract's round runs out.
    pub fn deadline(&self, contract_id: &B256) -> (deadline: Option<u64>)
        requires
            self.wf(),
        ensures
            deadline == self.contract(*contract_id).round.deadline,
    {
        match self.find(contract_id) {
            Some(idx) => {
                proof {
                    lemma_state_of(self.contracts@, idx as int);
                }
                self.contracts[idx].state.round(&self.config).deadline()
            },
            None => None,
        }
    }

    /// How many identities have committed in the contract's round in
    /// progress.
    pub fn commitment_count(&self, contract_id: &B256) -> (n: usize)
        requires
            self.wf(),
        ensures
            n == self.contract(*contract_id).round.commitments.dom().len(),
    {
        match self.find(contract_id) {
            Some(idx) => {
                proof {
                    lemma_state_of(self.contracts@, idx as int);
                }
                self.contracts[idx].state.round(&self.config).commitment_count()
            },
            None => 0,
        }
    }

    /// How many identities have revealed in the contract's round in progress.
    pub fn reveal_count(&self, contract_id: &B256) -> (n: usize)
        requires
            self.wf(),
        ensures
            n == self.contract(*contract_id).round.reveals.dom().len(),
    {
        match self.find(contract_id) {
            Some(idx) => {
                proof {
                    lemma_state_of(self.contracts@, idx as int);
                }
                self.contracts[idx].state.round(&self.config).reveal_count()
            },
            None => 0,
        }
    }

    /// The commitment of `identity` in the contract's round in progress, if
    /// it has committed.
    pub fn commitment_of(&self, contract_id: &B256, identity: &B256) -> (r: Option<Commitment>)
        requires
            self.wf(),
        ensures
            r == (if self.contract(*contract_id).round.commitments.contains_key(*identity) {
                Some(self.contract(*contract_id).round.commitments[*identity])
            } else {
                None
            }),
    {
        match self.find(contract_id) {
            Some(idx) => {
                proof {
                    lemma_state_of(self.contracts@, idx as int);
                }
                self.contracts[idx].state.round(&self.config).commitment_of(identity)
            },
            None => None,
        }
    }

    /// The most recently finalized block of the contract; `NotFound` if the
    /// contract has no finalized block yet.
    pub fn get_latest_block(&self, contract_id: &B256) -> (r: Result<Block, Error>)
        requires
            self.wf(),
        ensures
            r == self.contract(*contract_id).latest_block(),
    {
        match self.find(contract_id) {
            Some(idx) => {
                proof {
                    lemma_state_of(self.contracts@, idx as int);
                }
                self.contracts[idx].state.latest_block()
            },
            None => Err(Error::NotFound),
        }
    }

    /// Records the commitment of `identity` in the contract's round in
    /// progress, at time `now`.
    ///
    /// What becomes of the contract's state, and what is returned, is
    /// [`ContractView::commit`]. No other contract changes.
    pub fn commit(&mut self, contract_id: B256, identity: B256, commitment: Commitment, now: u64) -> (r:
        Result<Phase, Error>)
        requires
            old(self).wf(),
        ensures
            final(self).wf(),
            final(self).parameters() == old(self).parameters(),
            (final(self).contract(contract_id), r) == old(self).contract(contract_id).commit(
                old(self).parameters(),
                identity,
                commitment,
                now,
            ),
            forall|other: B256|
                other != contract_id ==> final(self).contract(other) == old(self).contract(other),
    {
        let idx = self.slot(contract_id);
        let ghost before = self.contracts@;
        proof {
            lemma_state_of(before, idx as int);
        }
        let r = self.contracts[idx].state.commit(&self.config, identity, commitment, now);
        proof {
            lemma_update_one(before, self.contracts@, idx as int);
        }
        r
    }

    /// Records a reveal in the contract's round in progress.
    ///
    /// `digest` is the hash of the reveal's preimage and `signature_valid`
    /// says whether the reveal's signature verifies; the caller computes
    /// both. What becomes of the contract's state, and what is returned, is
    /// [`ContractView::reveal_commitment`]. No other contract changes.
    pub fn reveal_commitment(
        &mut self,
        contract_id: B256,
        reveal: Reveal,
        digest: B256,
        signature_valid: bool,
    ) -> (r: Result<Phase, Error>)
        requires
            old(self).wf(),
        ensures
            final(self).wf(),
            final(self).parameters() == old(self).parameters(),
            (final(self).contract(contract_id), r) == old(self).contract(
                contract_id,
            ).reveal_commitment(old(self).parameters(), reveal, digest, signature_valid),
            forall|other: B256|
                other != contract_id ==> final(self).contract(other) == old(self).contract(other),
    {
        match self.find(&contract_id) {
            None => Err(Error::InvalidArgument),
            Some(idx) => {
                let ghost before = self.contracts@;
                proof {
                    lemma_state_of(before, idx as int);
                }
                let r = self.contracts[idx].state.reveal_commitment(
                    &self.config,
                    reveal,
                    digest,
                    signature_valid,
                );
                proof {
                    lemma_update_one(before, self.contracts@, idx as int);
                }
                r
            },
        }
    }

    /// Takes a block that is submitted directly, without a round.
    ///
    /// `signature_valid` says whether the signature verifies over the block;
    /// the caller computes it. What becomes of the contract's state, and what
    /// is returned, is [`ContractView::submit`]. No other contract changes.
    pub fn submit(&mut self, contract_id: B256, signed: &Signed<Block>, signature_valid: bool) -> (r:
        Result<Phase, Error>)
        requires
            old(self).wf(),
        ensures
            final(self).wf(),
            final(self).parameters() == old(self).parameters(),
            (final(self).contract(contract_id), r) == old(self).contract(contract_id).submit(
                old(self).parameters(),
                *signed,
                signature_valid,
            ),
            forall|other: B256|
                other != contract_id ==> final(self).contract(other) == old(self).contract(other),
    {
        let idx = self.slot(contract_id);
        let ghost before = self.contracts@;
        proof {
            lemma_state_of(before, idx as int);
        }
        let r = self.contracts[idx].state.submit(&self.config, signed, signature_valid);
        proof {
            lemma_update_one(before, self.contracts@, idx as int);
        }
        r
    }

    /// Tells the contract that time has come to `now`.
    ///
    /// What becomes of the contract's state, and what is returned, is
    /// [`ContractView::expire`]. No other contract changes.
    pub fn expire(&mut self, contract_id: B256, now: u64) -> (timed_out: bool)
        requires
            old(self).wf(),
        ensures
            final(self).wf(),
            final(self).parameters() == old(self).parameters(),
            (final(self).contract(contract_id), timed_out) == old(self).contract(contract_id).expire(
                old(self).parameters(),
                now,
            ),
            forall|other: B256|
                other != contract_id ==> final(self).contract(other) == old(self).contract(other),
    {
        match self.find(&contract_id) {
            None => false,
            Some(idx) => {
                let ghost before = self.contracts@;
                proof {
                    lemma_state_of(before, idx as int);
                }
                let timed_out = self.contracts[idx].state.expire(&self.config, now);
                proof {
                    lemma_update_one(before, self.contracts@, idx as int);
                }
                timed_out
            },
        }
    }

    /// Starts a stream of the contract's finalized blocks: the latest block,
    /// if there is one, and after it every block that is finalized later.
    pub fn get_blocks(&self, contract_id: B256) -> (cursor: BlockCursor)
        requires
            self.wf(),
        ensures
            cursor.contract_id == contract_id,
            cursor.next == (if self.contract(contract_id).blocks.len() == 0 {
                0
            } else {
                self.contract(contract_id).blocks.len() - 1
            }),
    {
        let next: usize = match self.find(&contract_id) {
            Some(idx) => {
                proof {
                    lemma_state_of(self.contracts@, idx as int);
                }
                let n: usize = self.contracts[idx].state.chain_len();
                if n == 0 {
                    0
                } else {
                    n - 1
                }
            },
            None => 0,
        };
        BlockCursor { contract_id, next }
    }

    /// Hands the subscriber the next block of its stream, if that block has
    /// been finalized, and moves the cursor past it. The block handed out at
    /// cursor position `n` is block `n` of the chain, whose round number is
    /// `n`: a stream has no gaps and never goes back.
    pub fn next_block(&self, cursor: &mut BlockCursor) -> (r: Option<Block>)
        requires
            self.wf(),
        ensures
            final(cursor).contract_id == old(cursor).contract_id,
            match r {
                Some(block) => {
                    &&& old(cursor).next < self.contract(old(cursor).contract_id).blocks.len()
                    &&& block == self.contract(old(cursor).contract_id).blocks[old(cursor).next as int]
                    &&& block.header.round == old(cursor).next
                    &&& final(cursor).next == old(cursor).next + 1
                },
                None => {
                    &&& old(cursor).next >= self.contract(old(cursor).contract_id).blocks.len()
                    &&& final(cursor).next == old(cursor).next
                },
            },
    {
        proof {
            self.lemma_contract_wf(cursor.contract_id);
        }
        match self.find(&cursor.contract_id) {
            Some(idx) => {
                proof {
                    lemma_state_of(self.contracts@, idx as int);
                }
                let n: usize = self.contracts[idx].state.chain_len();
                if cursor.next < n {
                    let r = self.contracts[idx].state.block_at(cursor.next);
                    cursor.next = cursor.next + 1;
                    r
                } else {
                    None
                }
            },
            None => None,
        }
    }

    /// Starts a stream of the contract's round events: every event that is
    /// published from now on.
    pub fn get_events(&mut self, contract_id: B256) -> (subscription: EventSubscription)
        requires
            old(self).wf(),
        ensures
            final(self).wf(),
            final(self).parameters() == old(self).parameters(),
            subscription.contract_id == contract_id,
            !old(self).contract(contract_id).events.contains_key(subscription.id),
            final(self).contract(contract_id) == old(self).contract(contract_id).subscribe(
                subscription.id,
            ),
            forall|other: B256|
                other != contract_id ==> final(self).contract(other) == old(self).contract(other),
    {
        let idx = self.slot(contract_id);
        let ghost before = self.contracts@;
        proof {
            lemma_state_of(before, idx as int);
        }
        let id = self.contracts[idx].state.subscribe(&self.config);
        proof {
            lemma_update_one(before, self.contracts@, idx as int);
        }
        EventSubscription { contract_id, id }
    }

    /// Hands the subscriber its oldest unread event, if it has one.
    pub fn next_event(&mut self, subscription: &EventSubscription) -> (r: Option<Event>)
        requires
            old(self).wf(),
        ensures
            final(self).wf(),
            final(self).parameters() == old(self).parameters(),
            r == old(self).contract(subscription.contract_id).unread(subscription.id),
            final(self).contract(subscription.contract_id) == old(self).contract(
                subscription.contract_id,
            ).poll(subscription.id),
            forall|other: B256|
                other != subscription.contract_id ==> final(self).contract(other) == old(self).contract(other),
    {
        match self.find(&subscription.contract_id) {
            None => None,
            Some(idx) => {
                let ghost before = self.contracts@;
                proof {
                    lemma_state_of(before, idx as int);
                }
                let r = self.contracts[idx].state.next_event(&self.config, subscription.id);
                proof {
                    lemma_update_one(before, self.contracts@, idx as int);
                }
                r
            },
        }
    }

    /// Ends a stream of round events. The subscriber's unread events are
    /// forgotten; nothing else changes.
    pub fn cancel_events(&mut self, subscription: EventSubscription)
        requires
            old(self).wf(),
        ensures
            final(self).wf(),
            final(self).parameters() == old(self).parameters(),
            final(self).contract(subscription.contract_id) == old(self).contract(
                subscription.contract_id,
            ).unsubscribe(subscription.id),
            forall|other: B256|
                other != subscription.contract_id ==> final(self).contract(other) == old(self).contract(other),
    {
        match self.find(&subscription.contract_id) {
            None => {
                assert(ContractView::initial().events.remove(subscription.id)
                    =~= ContractView::initial().events);
            },
            Some(idx) => {
                let ghost before = self.contracts@;
                proof {
                    lemma_state_of(before, idx as int);
                }
                self.contracts[idx].state.unsubscribe(&self.config, subscription.id);
                proof {
                    lemma_update_one(before, self.contracts@, idx as int);
                }
            },
        }
    }
}

} // verus!
