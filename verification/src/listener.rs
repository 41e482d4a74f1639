//! What the acceptor decides: identity numbering per service type, queue
//! depths, the accept backoff, and the global connection-count limit whose
//! permits every connection holds from accept to teardown.

use vstd::prelude::*;
use crate::service::ServiceType;

verus! {

/// The most live connections one listener admits.
pub const MAX_CONNECTIONS: u64 = 10000;

/// Where each numbering space starts: player connections high, peer RPC at
/// zero, so the two never collide below the player base.
pub fn base_counter(serv_type: ServiceType) -> (r: u64)
    ensures
        serv_type == ServiceType::Tcp ==> r == 10000,
        serv_type == ServiceType::Rpc ==> r == 0,
{
    match serv_type {
        ServiceType::Tcp => 10000,
        ServiceType::Rpc => 0,
    }
}

/// How deep one connection's outbound queue is: player traffic tolerates
/// loss and gets a short queue; RPC traffic does not and gets a long one.
pub fn conn_channel_bound(serv_type: ServiceType) -> (r: usize)
    ensures
        serv_type == ServiceType::Tcp ==> r == 100,
        serv_type == ServiceType::Rpc ==> r == 2000,
{
    match serv_type {
        ServiceType::Tcp => 100,
        ServiceType::Rpc => 2000,
    }
}

/// One accept-retry step: the wait doubles each failure, and past 64 seconds
/// the listener gives up.
pub fn backoff_step(backoff: u64) -> (r: Option<u64>)
    requires
        1 <= backoff <= 128,
    ensures
        r is None <==> backoff > 64,
        r matches Some(b) ==> b == 2 * backoff,
{
    if backoff > 64 {
        None
    } else {
        Some(backoff * 2)
    }
}

/// The listener's identity counter: one fresh number per accepted
/// connection, never reused while the listener lives.
#[derive(Debug)]
pub struct Listener {
    pub counter: u64,
    pub serv_type: ServiceType,
}

impl Listener {
    pub fn new(serv_type: ServiceType) -> (r: Listener)
        ensures
            r.serv_type == serv_type,
            serv_type == ServiceType::Tcp ==> r.counter == 10000,
            serv_type == ServiceType::Rpc ==> r.counter == 0,
    {
        let counter = base_counter(serv_type);
        Listener { counter, serv_type }
    }

    /// The identity the next accepted connection gets.
    pub fn next_identity(&mut self) -> (r: u64)
        requires
            old(self).counter < u64::MAX,
        ensures
            final(self).counter == old(self).counter + 1,
            r == final(self).counter,
            final(self).serv_type == old(self).serv_type,
    {
        self.counter = self.counter + 1;
        self.counter
    }
}

/// The global connection-count limit: a counting semaphore. A permit is
/// taken on accept and comes back when the connection's tasks tear down.
#[derive(Debug)]
pub struct ConnLimit {
    pub max: u64,
    pub outstanding: u64,
}

impl ConnLimit {
    pub open spec fn wf(&self) -> bool {
        self.outstanding <= self.max
    }

    pub open spec fn spec_available(&self) -> int {
        self.max - self.outstanding
    }

    pub fn new(max: u64) -> (r: ConnLimit)
        ensures
            r.wf(),
            r.max == max,
            r.outstanding == 0,
    {
        ConnLimit { max, outstanding: 0 }
    }

    /// Takes one permit when one is free.
    pub fn try_acquire(&mut self) -> (r: bool)
        requires
            old(self).wf(),
        ensures
            final(self).wf(),
            final(self).max == old(self).max,
            r <==> old(self).outstanding < old(self).max,
            r ==> final(self).outstanding == old(self).outstanding + 1,
            !r ==> final(self).outstanding == old(self).outstanding,
    {
        if self.outstanding < self.max {
            self.outstanding = self.outstanding + 1;
            true
        } else {
            false
        }
    }

    /// Returns one permit; teardown of a connection always runs this once.
    pub fn release(&mut self)
        requires
            old(self).wf(),
            old(self).outstanding >= 1,
        ensures
            final(self).wf(),
            final(self).max == old(self).max,
            final(self).outstanding == old(self).outstanding - 1,
    {
        self.outstanding = self.outstanding - 1;
    }

    pub fn available(&self) -> (r: u64)
        requires
            self.wf(),
        ensures
            r == self.spec_available(),
    {
        self.max - self.outstanding
    }
}

/// What shutdown waits for: every long-lived task holds one clone of the
/// completion handle; the initiator's wait ends only once all are gone.
#[derive(Debug)]
pub struct ShutdownTracker {
    pub active: u64,
}

impl ShutdownTracker {
    pub fn new() -> (r: ShutdownTracker)
        ensures
            r.active == 0,
    {
        ShutdownTracker { active: 0 }
    }

    /// One more task now holds a completion handle.
    pub fn task_spawned(&mut self)
        requires
            old(self).active < u64::MAX,
        ensures
            final(self).active == old(self).active + 1,
    {
        self.active = self.active + 1;
    }

    /// One task exited: its completion handle is dropped and its
    /// connection's permit goes back.
    pub fn task_exited(&mut self, limit: &mut ConnLimit)
        requires
            old(self).active >= 1,
            old(limit).wf(),
            old(limit).outstanding >= 1,
        ensures
            final(self).active == old(self).active - 1,
            final(limit).wf(),
            final(limit).max == old(limit).max,
            final(limit).outstanding == old(limit).outstanding - 1,
    {
        self.active = self.active - 1;
        limit.release();
    }

    /// Whether the shutdown-initiator's final receive would complete now.
    pub fn wait_complete(&self) -> (r: bool)
        ensures
            r <==> self.active == 0,
    {
        self.active == 0
    }
}

/// Shutdown completeness: while every live task holds one permit, the
/// initiator's wait can only complete once every task has exited — and then
/// every permit is back at the limit.
pub proof fn law_shutdown_completeness(limit: ConnLimit, tracker: ShutdownTracker)
    requires
        limit.wf(),
        limit.outstanding == tracker.active,
        tracker.active == 0,
    ensures
        limit.spec_available() == limit.max,
{
}

} // verus!
