//! Retry policy of outbound calls against a list of candidate addresses.
use vstd::prelude::*;

verus! {

/// Number of retries after the first attempt of a call.
pub fn retry_times() -> (r: usize)
    ensures
        r == 3,
{
    3
}

/// Seconds to sleep after the failed attempt number `times`.
pub fn retry_sleep_time(times: usize) -> (r: u64)
    requires
        times * 2 <= u64::MAX,
    ensures
        r == times * 2,
{
    (times as u64) * 2
}

/// The remote service family that a call addresses.
#[derive(Clone, Copy, Debug, PartialEq, Eq, Structural)]
pub enum PlacementCenterService {
    Kv,
    OpenRaft,
}

/// The interface of a service that a call invokes.
#[derive(Clone, Copy, Debug, PartialEq, Eq, Hash, Structural)]
pub enum PlacementCenterInterface {
    KvSet,
    KvGet,
    KvDelete,
    KvExists,
    Vote,
    Append,
    Snapshot,
}

/// What the caller does after an attempt failed.
#[derive(Clone, Copy, Debug, PartialEq, Eq, Structural)]
pub enum RetryAction {
    /// Sleep this many seconds, then make the next attempt.
    Sleep(u64),
    /// The retries are spent: surface the last error.
    GiveUp,
}

/// Progress of one logical call; `times` is the number of the attempt in
/// flight, counted from 1.
#[derive(Clone, Copy, Debug, PartialEq, Eq, Structural)]
pub struct RetryState {
    pub times: usize,
    pub addr_count: usize,
}

impl RetryState {
    pub open spec fn wf(self) -> bool {
        &&& 1 <= self.times <= 4
        &&& self.addr_count > 0
    }

    /// The attempts that one call makes at most: the first and the retries.
    pub open spec fn max_attempts() -> nat {
        4
    }

    /// State before the first attempt against `addr_count` candidates.
    pub fn new(addr_count: usize) -> (r: RetryState)
        requires
            addr_count > 0,
        ensures
            r.wf(),
            r.times == 1,
            r.addr_count == addr_count,
    {
        RetryState { times: 1, addr_count }
    }

    /// Index of the candidate address for the attempt in flight.
    pub fn address_index(&self) -> (r: usize)
        requires
            self.wf(),
        ensures
            r == self.times % self.addr_count,
            r < self.addr_count,
    {
        self.times % self.addr_count
    }

    /// Decides what follows the failure of the attempt in flight: after the
    /// last retry the call gives up, otherwise it sleeps `2 * times` seconds
    /// and moves on to the next attempt.
    pub fn on_failure(&mut self) -> (r: RetryAction)
        requires
            old(self).wf(),
        ensures
            old(self).times > 3 ==> r == RetryAction::GiveUp && *final(self) == *old(self),
            old(self).times <= 3 ==> r == RetryAction::Sleep((2 * old(self).times) as u64)
                && final(self).times == old(self).times + 1
                && final(self).addr_count == old(self).addr_count,
            final(self).wf(),
    {
        if self.times > retry_times() {
            RetryAction::GiveUp
        } else {
            let secs = retry_sleep_time(self.times);
            self.times = self.times + 1;
            RetryAction::Sleep(secs)
        }
    }
}

} // verus!
