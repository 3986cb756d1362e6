//! The service in front of the engine: it decodes the fields of a request,
//! hands the call to the engine and turns the outcome into a response or a
//! status. Moving requests and responses over the wire is the transport's
//! business.

use vstd::prelude::*;
use crate::common::bytes::B256;
use crate::common::error::Error;
use crate::common::signature::{Signature, Signed};
use crate::consensus::backend::{BlockCursor, ConsensusBackend, EventSubscription};
use crate::consensus::block::Block;
use crate::consensus::commitment::{Commitment, Reveal};
use crate::consensus::event::Event;
use crate::consensus::header::Header;

verus! {

/// The codes with which a call can fail.
#[derive(Clone, Copy, Debug, PartialEq, Eq, Structural)]
pub enum RpcStatusCode {
    /// A field of the request is malformed, or the engine refused the call.
    InvalidArgument,
    /// The engine failed for a reason that the request did not cause.
    Internal,
    /// What the request asks for does not exist.
    NotFound,
}

/// The status of a failed call: a code and a description for people.
#[derive(Clone, Debug, PartialEq, Eq)]
pub struct RpcStatus {
    /// What kind of failure it was.
    pub code: RpcStatusCode,
    /// A description of the failure.
    pub details: Option<String>,
}

/// The code under which a failure of the given kind is reported.
pub open spec fn status_code_of(error: Error) -> RpcStatusCode {
    match error {
        Error::InvalidArgument => RpcStatusCode::InvalidArgument,
        Error::NotFound => RpcStatusCode::NotFound,
        Error::Internal => RpcStatusCode::Internal,
        Error::Timeout => RpcStatusCode::Internal,
    }
}

/// `status` reports a failure of the given kind: it carries the kind's code
/// and the kind's description.
pub open spec fn reports(status: RpcStatus, error: Error) -> bool {
    &&& status.code == status_code_of(error)
    &&& status.details matches Some(text)
    &&& text@ == error.description_text()
}

/// The call failed with a status that reports `error`.
pub open spec fn refused<T>(r: Result<T, RpcStatus>, error: Error) -> bool {
    r matches Err(status) && reports(status, error)
}

/// The status that reports a failure of the given kind.
pub fn status_of(error: Error) -> (status: RpcStatus)
    ensures
        reports(status, error),
{
    let code = match error {
        Error::InvalidArgument => RpcStatusCode::InvalidArgument,
        Error::NotFound => RpcStatusCode::NotFound,
        Error::Internal => RpcStatusCode::Internal,
        Error::Timeout => RpcStatusCode::Internal,
    };
    RpcStatus { code, details: Some(error.description()) }
}

/// Asks for the latest block of a contract.
#[derive(Clone, Debug, PartialEq, Eq)]
pub struct LatestBlockRequest {
    /// The contract's identifier: 32 bytes.
    pub contract_id: Vec<u8>,
}

/// Carries the latest block of a contract.
#[derive(Clone, Debug, PartialEq, Eq)]
pub struct LatestBlockResponse {
    /// The encoded block.
    pub block: Vec<u8>,
}

/// Asks for the stream of a contract's blocks.
#[derive(Clone, Debug, PartialEq, Eq)]
pub struct BlockRequest {
    /// The contract's identifier: 32 bytes.
    pub contract_id: Vec<u8>,
}

/// One frame of a stream of blocks.
#[derive(Clone, Debug, PartialEq, Eq)]
pub struct BlockResponse {
    /// The encoded block.
    pub block: Vec<u8>,
}

/// Asks for the stream of a contract's round events.
#[derive(Clone, Debug, PartialEq, Eq)]
pub struct EventRequest {
    /// The contract's identifier: 32 bytes.
    pub contract_id: Vec<u8>,
}

/// The kinds of round event that a stream of events tells apart.
#[derive(Clone, Copy, Debug, PartialEq, Eq, Structural)]
pub enum EventKind {
    /// A quorum of commitments is in.
    CommitmentsReceived,
    /// The round was abandoned.
    RoundFailed,
}

/// One frame of a stream of round events.
#[derive(Clone, Copy, Debug, PartialEq, Eq, Structural)]
pub struct EventResponse {
    /// What happened.
    pub event: EventKind,
}

/// Hands in a commitment.
#[derive(Clone, Debug, PartialEq, Eq)]
pub struct CommitRequest {
    /// The contract's identifier: 32 bytes.
    pub contract_id: Vec<u8>,
    /// The commitment: 32 bytes.
    pub commitment: Vec<u8>,
}

/// Says that a commitment was recorded.
#[derive(Clone, Copy, Debug, PartialEq, Eq, Structural)]
pub struct CommitResponse {}

/// Hands in a reveal.
#[derive(Clone, Debug, PartialEq, Eq)]
pub struct RevealRequest {
    /// The contract's identifier: 32 bytes.
    pub contract_id: Vec<u8>,
    /// The encoded header that was committed to: 80 bytes.
    pub header: Vec<u8>,
    /// The nonce that was hashed with the header: 32 bytes.
    pub nonce: Vec<u8>,
    /// The encoded signature over the header: 96 bytes.
    pub signature: Vec<u8>,
}

/// Says that a reveal was recorded.
#[derive(Clone, Copy, Debug, PartialEq, Eq, Structural)]
pub struct RevealResponse {}

/// Hands in a block for direct submission.
#[derive(Clone, Debug, PartialEq, Eq)]
pub struct SubmitRequest {
    /// The contract's identifier: 32 bytes.
    pub contract_id: Vec<u8>,
    /// The encoded block: 112 bytes.
    pub block: Vec<u8>,
    /// The encoded signature over the block: 96 bytes.
    pub signature: Vec<u8>,
}

/// Says that a submitted block was finalized.
#[derive(Clone, Copy, Debug, PartialEq, Eq, Structural)]
pub struct SubmitResponse {}

impl CommitRequest {
    /// Whether every field has the width of the value it carries.
    pub open spec fn well_formed(&self) -> bool {
        self.contract_id@.len() == 32 && self.commitment@.len() == 32
    }

    /// The contract that the request names.
    pub open spec fn contract(&self) -> B256 {
        B256::from_bytes(self.contract_id@)
    }

    /// The commitment that the request carries.
    pub open spec fn decoded(&self) -> Commitment {
        Commitment { digest: B256::from_bytes(self.commitment@) }
    }

    /// Decodes the fields of the request; a field of the wrong width is
    /// `InvalidArgument`.
    pub fn decode(&self) -> (r: Result<(B256, Commitment), Error>)
        ensures
            self.well_formed() ==> r == Ok::<(B256, Commitment), Error>(
                (self.contract(), self.decoded()),
            ),
            !self.well_formed() ==> r == Err::<(B256, Commitment), Error>(Error::InvalidArgument),
    {
        let contract_id = B256::from_slice(self.contract_id.as_slice());
        let commitment = Commitment::decode(self.commitment.as_slice());
        match (contract_id, commitment) {
            (Ok(contract_id), Ok(commitment)) => Ok((contract_id, commitment)),
            _ => Err(Error::InvalidArgument),
        }
    }
}

impl RevealRequest {
    /// Whether every field has the width of the value it carries.
    pub open spec fn well_formed(&self) -> bool {
        &&& self.contract_id@.len() == 32
        &&& self.header@.len() == 80
        &&& self.nonce@.len() == 32
        &&& self.signature@.len() == 96
    }

    /// The contract that the request names.
    pub open spec fn contract(&self) -> B256 {
        B256::from_bytes(self.contract_id@)
    }

    /// The reveal that the request carries.
    pub open spec fn decoded(&self) -> Reveal {
        Reveal {
            value: Header::decoding(self.header@),
            nonce: B256::from_bytes(self.nonce@),
            signature: Signature::decoding(self.signature@),
        }
    }

    /// Decodes the fields of the request; a field of the wrong width is
    /// `InvalidArgument`.
    ///
    /// The caller needs the decoded reveal to compute what the engine cannot:
    /// the hash of [`Reveal::commitment_preimage`] and whether the signature
    /// verifies over [`Reveal::message`].
    pub fn decode(&self) -> (r: Result<(B256, Reveal), Error>)
        ensures
            self.well_formed() ==> r == Ok::<(B256, Reveal), Error>(
                (self.contract(), self.decoded()),
            ),
            !self.well_formed() ==> r == Err::<(B256, Reveal), Error>(Error::InvalidArgument),
    {
        let contract_id = B256::from_slice(self.contract_id.as_slice());
        let header = Header::decode(self.header.as_slice());
        let nonce = B256::from_slice(self.nonce.as_slice());
        let signature = Signature::decode(self.signature.as_slice());
        match (contract_id, header, nonce, signature) {
            (Ok(contract_id), Ok(value), Ok(nonce), Ok(signature)) => Ok(
                (contract_id, Reveal { value, nonce, signature }),
            ),
            _ => Err(Error::InvalidArgument),
        }
    }
}

impl SubmitRequest {
    /// Whether every field has the width of the value it carries.
    pub open spec fn well_formed(&self) -> bool {
        &&& self.contract_id@.len() == 32
        &&& self.block@.len() == 112
        &&& self.signature@.len() == 96
    }

    /// The contract that the request names.
    pub open spec fn contract(&self) -> B256 {
        B256::from_bytes(self.contract_id@)
    }

    /// The signed block that the request carries.
    pub open spec fn decoded(&self) -> Signed<Block> {
        Signed {
            value: Block::decoding(self.block@),
            signature: Signature::decoding(self.signature@),
        }
    }

    /// Decodes the fields of the request; a field of the wrong width is
    /// `InvalidArgument`.
    ///
    /// The caller needs the decoded block to compute what the engine cannot:
    /// whether the signature verifies over the encoded block.
    pub fn decode(&self) -> (r: Result<(B256, Signed<Block>), Error>)
        ensures
            self.well_formed() ==> r == Ok::<(B256, Signed<Block>), Error>(
                (self.contract(), self.decoded()),
            ),
            !self.well_formed() ==> r == Err::<(B256, Signed<Block>), Error>(
                Error::InvalidArgument,
            ),
    {
        let contract_id = B256::from_slice(self.contract_id.as_slice());
        let block = Block::decode(self.block.as_slice());
        let signature = Signature::decode(self.signature.as_slice());
        match (contract_id, block, signature) {
            (Ok(contract_id), Ok(block), Ok(signature)) => Ok(
                (contract_id, Signed::from_parts(block, signature)),
            ),
            _ => Err(Error::InvalidArgument),
        }
    }
}

/// The frame that tells a subscriber of `event`.
pub open spec fn event_kind_of(event: Event) -> EventKind {
    match event {
        Event::CommitmentsReceived => EventKind::CommitmentsReceived,
        Event::RoundFailed(_) => EventKind::RoundFailed,
    }
}

/// Builds the frame that tells a subscriber of `event`.
pub fn event_response(event: Event) -> (response: EventResponse)
    ensures
        response.event == event_kind_of(event),
{
    match event {
        Event::CommitmentsReceived => EventResponse { event: EventKind::CommitmentsReceived },
        Event::RoundFailed(_) => EventResponse { event: EventKind::RoundFailed },
    }
}

/// The consensus service: the engine behind the decoding of requests and the
/// reporting of failures.
#[derive(Debug)]
pub struct ConsensusService {
    inner: ConsensusBackend,
}

impl ConsensusService {
    /// The engine behind the service.
    pub closed spec fn backend(&self) -> ConsensusBackend {
        self.inner
    }

    /// The invariant of the service: its engine is well-formed.
    pub open spec fn wf(&self) -> bool {
        self.backend().wf()
    }

    /// A service in front of the given engine.
    pub fn new(backend: ConsensusBackend) -> (service: ConsensusService)
        ensures
            service.backend() == backend,
    {
        ConsensusService { inner: backend }
    }

    /// The engine behind the service, for reading.
    pub fn inner(&self) -> (backend: &ConsensusBackend)
        ensures
            *backend == self.backend(),
    {
        &self.inner
    }

    /// Answers a request for the latest block of a contract.
    ///
    /// A contract identifier of the wrong width is `InvalidArgument`; a
    /// contract without a finalized block is `NotFound`.
    pub fn get_latest_block(&self, req: &LatestBlockRequest) -> (r: Result<
        LatestBlockResponse,
        RpcStatus,
    >)
        requires
            self.wf(),
        ensures
            req.contract_id@.len() != 32 ==> refused(r, Error::InvalidArgument),
            req.contract_id@.len() == 32 ==> match self.backend().contract(
                B256::from_bytes(req.contract_id@),
            ).latest_block() {
                Ok(block) => r matches Ok(response) && response.block@ == block.encoding(),
                Err(error) => refused(r, error),
            },
    {
        let contract_id = match B256::from_slice(req.contract_id.as_slice()) {
            Ok(contract_id) => contract_id,
            Err(error) => {
                return Err(status_of(error));
            },
        };
        match self.inner.get_latest_block(&contract_id) {
            Ok(block) => Ok(LatestBlockResponse { block: block.encode() }),
            Err(error) => Err(status_of(error)),
        }
    }

    /// Answers a request for the stream of a contract's blocks with the
    /// stream's cursor. A contract identifier of the wrong width is
    /// `InvalidArgument`.
    pub fn get_blocks(&self, req: &BlockRequest) -> (r: Result<BlockCursor, RpcStatus>)
        requires
            self.wf(),
        ensures
            req.contract_id@.len() != 32 ==> refused(r, Error::InvalidArgument),
            req.contract_id@.len() == 32 ==> {
                let contract_id = B256::from_bytes(req.contract_id@);
                let chain = self.backend().contract(contract_id).blocks;
                &&& r matches Ok(cursor)
                &&& cursor.contract_id == contract_id
                &&& cursor.next == (if chain.len() == 0 {
                    0
                } else {
                    chain.len() - 1
                })
            },
    {
        match B256::from_slice(req.contract_id.as_slice()) {
            Ok(contract_id) => Ok(self.inner.get_blocks(contract_id)),
            Err(error) => Err(status_of(error)),
        }
    }

    /// The next frame of a stream of blocks, if the block has been finalized.
    /// The frame at cursor position `n` carries block `n` of the chain, whose
    /// round number is `n`.
    pub fn next_block(&self, cursor: &mut BlockCursor) -> (r: Option<BlockResponse>)
        requires
            self.wf(),
        ensures
            final(cursor).contract_id == old(cursor).contract_id,
            ({
                let chain = self.backend().contract(old(cursor).contract_id).blocks;
                match r {
                    Some(response) => {
                        &&& old(cursor).next < chain.len()
                        &&& response.block@ == chain[old(cursor).next as int].encoding()
                        &&& chain[old(cursor).next as int].header.round == old(cursor).next
                        &&& final(cursor).next == old(cursor).next + 1
                    },
                    None => {
                        &&& old(cursor).next >= chain.len()
                        &&& final(cursor).next == old(cursor).next
                    },
                }
            }),
    {
        match self.inner.next_block(cursor) {
            Some(block) => Some(BlockResponse { block: block.encode() }),
            None => None,
        }
    }

    /// Answers a request for the stream of a contract's round events with
    /// the new subscriber's handle. A contract identifier of the wrong width
    /// is `InvalidArgument` and changes nothing.
    pub fn get_events(&mut self, req: &EventRequest) -> (r: Result<EventSubscription, RpcStatus>)
        requires
            old(self).wf(),
        ensures
            final(self).wf(),
            final(self).backend().parameters() == old(self).backend().parameters(),
            req.contract_id@.len() != 32 ==> refused(r, Error::InvalidArgument) && final(self).backend() == old(self).backend(),
            req.contract_id@.len() == 32 ==> {
                let contract_id = B256::from_bytes(req.contract_id@);
                let before = old(self).backend().contract(contract_id);
                &&& r matches Ok(subscription)
                &&& subscription.contract_id == contract_id
                &&& !before.events.contains_key(subscription.id)
                &&& final(self).backend().contract(contract_id) == before.subscribe(subscription.id)
                &&& forall|other: B256|
                    other != contract_id ==> final(self).backend().contract(other) == old(self).backend().contract(other)
            },
    {
        match B256::from_slice(req.contract_id.as_slice()) {
            Ok(contract_id) => Ok(self.inner.get_events(contract_id)),
            Err(error) => Err(status_of(error)),
        }
    }

    /// The next frame of a stream of round events, if the subscriber has an
    /// unread event.
    pub fn next_event(&mut self, subscription: &EventSubscription) -> (r: Option<EventResponse>)
        requires
            old(self).wf(),
        ensures
            final(self).wf(),
            final(self).backend().parameters() == old(self).backend().parameters(),
            r == (match old(self).backend().contract(subscription.contract_id).unread(
                subscription.id,
            ) {
                Some(event) => Some(EventResponse { event: event_kind_of(event) }),
                None => None,
            }),
            final(self).backend().contract(subscription.contract_id) == old(self).backend().contract(subscription.contract_id).poll(subscription.id),
            forall|other: B256|
                other != subscription.contract_id ==> final(self).backend().contract(other) == old(self).backend().contract(other),
    {
        match self.inner.next_event(subscription) {
            Some(event) => Some(event_response(event)),
            None => None,
        }
    }

    /// Ends a stream of round events when its subscriber has gone away.
    pub fn cancel_events(&mut self, subscription: EventSubscription)
        requires
            old(self).wf(),
        ensures
            final(self).wf(),
            final(self).backend().parameters() == old(self).backend().parameters(),
            final(self).backend().contract(subscription.contract_id) == old(self).backend().contract(subscription.contract_id).unsubscribe(subscription.id),
            forall|other: B256|
                other != subscription.contract_id ==> final(self).backend().contract(other) == old(self).backend().contract(other),
    {
        self.inner.cancel_events(subscription)
    }

    /// Answers a commit request of the identity `caller` at time `now`.
    ///
    /// A field of the wrong width is `InvalidArgument` and changes nothing.
    /// Otherwise the engine decides: see `ContractView::commit`.
    pub fn commit(&mut self, caller: B256, req: &CommitRequest, now: u64) -> (r: Result<
        CommitResponse,
        RpcStatus,
    >)
        requires
            old(self).wf(),
        ensures
            final(self).wf(),
            final(self).backend().parameters() == old(self).backend().parameters(),
            !req.well_formed() ==> refused(r, Error::InvalidArgument) && final(self).backend()
                == old(self).backend(),
            req.well_formed() ==> {
                let (next, outcome) = old(self).backend().contract(req.contract()).commit(
                    old(self).backend().parameters(),
                    caller,
                    req.decoded(),
                    now,
                );
                &&& final(self).backend().contract(req.contract()) == next
                &&& forall|other: B256|
                    other != req.contract() ==> final(self).backend().contract(other) == old(self).backend().contract(other)
                &&& match outcome {
                    Ok(_) => r is Ok,
                    Err(error) => refused(r, error),
                }
            },
    {
        let (contract_id, commitment) = match req.decode() {
            Ok(decoded) => decoded,
            Err(error) => {
                return Err(status_of(error));
            },
        };
        match self.inner.commit(contract_id, caller, commitment, now) {
            Ok(_) => Ok(CommitResponse {  }),
            Err(error) => Err(status_of(error)),
        }
    }

    /// Answers a reveal request.
    ///
    /// `digest` is the hash of the decoded reveal's preimage and
    /// `signature_valid` says whether its signature verifies; the caller
    /// computes both from [`RevealRequest::decode`]. A field of the wrong
    /// width is `InvalidArgument` and changes nothing. Otherwise the engine
    /// decides: see `ContractView::reveal_commitment`.
    pub fn reveal_commitment(&mut self, req: &RevealRequest, digest: B256, signature_valid: bool) -> (r:
        Result<RevealResponse, RpcStatus>)
        requires
            old(self).wf(),
        ensures
            final(self).wf(),
            final(self).backend().parameters() == old(self).backend().parameters(),
            !req.well_formed() ==> refused(r, Error::InvalidArgument) && final(self).backend()
                == old(self).backend(),
            req.well_formed() ==> {
                let (next, outcome) = old(self).backend().contract(
                    req.contract(),
                ).reveal_commitment(
                    old(self).backend().parameters(),
                    req.decoded(),
                    digest,
                    signature_valid,
                );
                &&& final(self).backend().contract(req.contract()) == next
                &&& forall|other: B256|
                    other != req.contract() ==> final(self).backend().contract(other) == old(self).backend().contract(other)
                &&& match outcome {
                    Ok(_) => r is Ok,
                    Err(error) => refused(r, error),
                }
            },
    {
        let (contract_id, reveal) = match req.decode() {
            Ok(decoded) => decoded,
            Err(error) => {
                return Err(status_of(error));
            },
        };
        match self.inner.reveal_commitment(contract_id, reveal, digest, signature_valid) {
            Ok(_) => Ok(RevealResponse {  }),
            Err(error) => Err(status_of(error)),
        }
    }

    /// Answers a request to submit a block directly.
    ///
    /// `signature_valid` says whether the signature verifies over the decoded
    /// block; the caller computes it from [`SubmitRequest::decode`]. A field
    /// of the wrong width is `InvalidArgument` and changes nothing. Otherwise
    /// the engine decides: see `ContractView::submit`.
    pub fn submit(&mut self, req: &SubmitRequest, signature_valid: bool) -> (r: Result<
        SubmitResponse,
        RpcStatus,
    >)
        requires
            old(self).wf(),
        ensures
            final(self).wf(),
            final(self).backend().parameters() == old(self).backend().parameters(),
            !req.well_formed() ==> refused(r, Error::InvalidArgument) && final(self).backend()
                == old(self).backend(),
            req.well_formed() ==> {
                let (next, outcome) = old(self).backend().contract(req.contract()).submit(
                    old(self).backend().parameters(),
                    req.decoded(),
                    signature_valid,
                );
                &&& final(self).backend().contract(req.contract()) == next
                &&& forall|other: B256|
                    other != req.contract() ==> final(self).backend().contract(other) == old(self).backend().contract(other)
                &&& match outcome {
                    Ok(_) => r is Ok,
                    Err(error) => refused(r, error),
                }
            },
    {
        let (contract_id, signed) = match req.decode() {
            Ok(decoded) => decoded,
            Err(error) => {
                return Err(status_of(error));
            },
        };
        match self.inner.submit(contract_id, &signed, signature_valid) {
            Ok(_) => Ok(SubmitResponse {  }),
            Err(error) => Err(status_of(error)),
        }
    }

    /// Tells the engine that time has come to `now` for the given contract:
    /// see `ContractView::expire`.
    pub fn expire(&mut self, contract_id: B256, now: u64) -> (timed_out: bool)
        requires
            old(self).wf(),
        ensures
            final(self).wf(),
            final(self).backend().parameters() == old(self).backend().parameters(),
            (final(self).backend().contract(contract_id), timed_out) == old(self).backend().contract(
                contract_id,
            ).expire(old(self).backend().parameters(), now),
            forall|other: B256|
                other != contract_id ==> final(self).backend().contract(other) == old(self).backend().contract(other),
    {
        self.inner.expire(contract_id, now)
    }
}

} // verus!
