use vstd::prelude::*;
use crate::subdomain_set::SubdomainSet;

verus! {

/// The fixed maximum number of root domains worked on at one time.
pub const MAX_ACTIVE_HOSTS: usize = 200;

/// Admission control for the host batch: hands hosts out one at a time while
/// fewer than `limit` are in flight, and collects one result set per finished
/// host, in whatever order hosts finish. The driver that performs the actual
/// per-host work asks `try_start` for the next host and reports each finished
/// host back through `on_complete`.
pub struct Scheduler {
    /// The full input batch, fixed at construction.
    pub hosts: Vec<String>,
    /// How many hosts have been handed out so far.
    pub started: usize,
    /// One result set per finished host, in completion order.
    pub collected: Vec<SubdomainSet>,
    /// The maximum number of hosts in flight at once.
    pub limit: usize,
}

impl Scheduler {
    /// Hosts handed out and not yet reported back.
    pub open spec fn spec_in_flight(self) -> int {
        self.started - self.collected@.len()
    }

    pub open spec fn wf(self) -> bool {
        &&& self.limit >= 1
        &&& self.started <= self.hosts@.len()
        &&& self.collected@.len() <= self.started
        &&& self.spec_in_flight() <= self.limit
    }

    /// Every host has been handed out and reported back.
    pub open spec fn spec_done(self) -> bool {
        self.started == self.hosts@.len() && self.collected@.len() == self.hosts@.len()
    }

    pub fn new(hosts: Vec<String>, limit: usize) -> (r: Scheduler)
        requires
            limit >= 1,
        ensures
            r.wf(),
            r.hosts@ == hosts@,
            r.started == 0,
            r.collected@.len() == 0,
            r.limit == limit,
            r.spec_in_flight() == 0,
    {
        Scheduler { hosts, started: 0, collected: Vec::new(), limit }
    }

    pub fn in_flight(&self) -> (r: usize)
        requires
            self.wf(),
        ensures
            r == self.spec_in_flight(),
    {
        self.started - self.collected.len()
    }

    /// The next host to work on, if one remains and a slot is free; None
    /// otherwise. Handing a host out never pushes the number in flight past
    /// the limit.
    pub fn try_start(&mut self) -> (r: Option<String>)
        requires
            old(self).wf(),
        ensures
            final(self).wf(),
            final(self).spec_in_flight() <= final(self).limit,
            final(self).hosts@ == old(self).hosts@,
            final(self).limit == old(self).limit,
            final(self).collected@ == old(self).collected@,
            if old(self).started < old(self).hosts@.len() && old(self).spec_in_flight() < old(
                self,
            ).limit {
                r == Some(old(self).hosts@[old(self).started as int]) && final(self).started == old(
                    self,
                ).started + 1
            } else {
                r == None::<String> && final(self).started == old(self).started
            },
    {
        if self.started < self.hosts.len() && self.in_flight() < self.limit {
            let host = self.hosts[self.started].clone();
            self.started += 1;
            Some(host)
        } else {
            None
        }
    }

    /// Records one finished host's result set and frees its slot.
    pub fn on_complete(&mut self, set: SubdomainSet)
        requires
            old(self).wf(),
            old(self).spec_in_flight() > 0,
        ensures
            final(self).wf(),
            final(self).hosts@ == old(self).hosts@,
            final(self).limit == old(self).limit,
            final(self).started == old(self).started,
            final(self).collected@ == old(self).collected@.push(set),
            final(self).spec_in_flight() == old(self).spec_in_flight() - 1,
    {
        self.collected.push(set);
    }

    pub fn is_done(&self) -> (r: bool)
        requires
            self.wf(),
        ensures
            r == self.spec_done(),
    {
        self.started == self.hosts.len() && self.collected.len() == self.hosts.len()
    }

    /// The per-host result sets, one per input host, in completion order.
    pub fn finish(self) -> (r: Vec<SubdomainSet>)
        requires
            self.wf(),
            self.spec_done(),
        ensures
            r@ == self.collected@,
            r@.len() == self.hosts@.len(),
    {
        self.collected
    }
}

/// The resource bound: in every reachable scheduler state the number of hosts
/// in flight is at most the configured limit.
pub proof fn lemma_in_flight_bounded(s: Scheduler)
    requires
        s.wf(),
    ensures
        s.spec_in_flight() <= s.limit,
{
}

} // verus!
