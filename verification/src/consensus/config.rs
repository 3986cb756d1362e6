//! The settings of an engine.

use vstd::prelude::*;
use crate::common::bytes::B256;
use crate::common::error::Error;
use crate::consensus::model::Parameters;

verus! {

/// The settings that all contracts of an engine share.
#[derive(Debug)]
pub struct Config {
    quorum: usize,
    phase_timeout: u64,
    event_capacity: usize,
    submitters: Vec<B256>,
}

impl Config {
    /// The settings as the model sees them.
    pub closed spec fn view(&self) -> Parameters {
        Parameters {
            quorum: self.quorum as nat,
            phase_timeout: self.phase_timeout,
            event_capacity: self.event_capacity as nat,
            submitters: self.submitters@.to_set(),
        }
    }

    /// The invariant of the settings: quorum and event capacity are at least 1.
    pub open spec fn wf(&self) -> bool {
        self@.valid()
    }

    /// Settings with the given quorum, phase timeout, event capacity and
    /// direct submitters. A quorum or an event capacity of zero is refused.
    pub fn new(
        quorum: usize,
        phase_timeout: u64,
        event_capacity: usize,
        submitters: Vec<B256>,
    ) -> (r: Result<Config, Error>)
        ensures
            quorum == 0 || event_capacity == 0 ==> r is Err && r->Err_0 == Error::InvalidArgument,
            quorum >= 1 && event_capacity >= 1 ==> r is Ok && r->Ok_0.wf() && r->Ok_0@ == (
                Parameters {
                    quorum: quorum as nat,
                    phase_timeout,
                    event_capacity: event_capacity as nat,
                    submitters: submitters@.to_set(),
                }),
    {
        if quorum == 0 || event_capacity == 0 {
            return Err(Error::InvalidArgument);
        }
        Ok(Config { quorum, phase_timeout, event_capacity, submitters })
    }

    /// How many distinct identities make a quorum.
    pub fn quorum(&self) -> (n: usize)
        ensures
            n == self@.quorum,
    {
        self.quorum
    }

    /// How long a phase may last.
    pub fn phase_timeout(&self) -> (t: u64)
        ensures
            t == self@.phase_timeout,
    {
        self.phase_timeout
    }

    /// How many unread events a subscriber may have waiting.
    pub fn event_capacity(&self) -> (n: usize)
        ensures
            n == self@.event_capacity,
    {
        self.event_capacity
    }

    /// Whether `identity` may submit blocks directly.
    pub fn may_submit(&self, identity: &B256) -> (allowed: bool)
        ensures
            allowed == self@.submitters.contains(*identity),
    {
        let mut i: usize = 0;
        while i < self.submitters.len()
            invariant
                i <= self.submitters@.len(),
                forall|j: int| 0 <= j < i ==> self.submitters@[j] != *identity,
            decreases self.submitters@.len() - i,
        {
            if self.submitters[i] == *identity {
                return true;
            }
            i = i + 1;
        }
        false
    }
}

} // verus!
