//! Admission control: a fixed pool of work slots, with requests that find the
//! pool exhausted waiting in arrival order until a slot is handed to them.
//!
//! The controller only decides; whoever runs it suspends a queued request
//! until `release` names it, and calls `release` once for every slot it was
//! given, on every exit path.

use std::collections::VecDeque;
use vstd::prelude::*;

verus! {

/// Number of work slots of the benchmark server.
pub const SERVER_CAPACITY: usize = 5;

pub struct AdmissionController {
    capacity: usize,
    held: usize,
    peak: usize,
    waiting: VecDeque<u64>,
    arrivals: Ghost<nat>,
    admissions: Ghost<nat>,
    releases: Ghost<nat>,
}

impl AdmissionController {
    pub closed spec fn spec_capacity(&self) -> nat {
        self.capacity as nat
    }

    /// Slots currently held.
    pub closed spec fn spec_held(&self) -> nat {
        self.held as nat
    }

    /// Largest number of slots ever held at once.
    pub closed spec fn spec_peak(&self) -> nat {
        self.peak as nat
    }

    /// Identifiers of the requests waiting for a slot, oldest first.
    pub closed spec fn spec_waiting(&self) -> Seq<u64> {
        self.waiting@
    }

    /// Requests that have asked for a slot.
    pub closed spec fn spec_arrivals(&self) -> nat {
        self.arrivals@
    }

    /// Requests that have been given a slot.
    pub closed spec fn spec_admissions(&self) -> nat {
        self.admissions@
    }

    /// Slots given back.
    pub closed spec fn spec_releases(&self) -> nat {
        self.releases@
    }

    pub open spec fn wf(&self) -> bool {
        &&& self.spec_capacity() >= 1
        &&& self.spec_held() <= self.spec_peak() <= self.spec_capacity()
        &&& (self.spec_waiting().len() > 0 ==> self.spec_held() == self.spec_capacity())
        &&& self.spec_arrivals() == self.spec_admissions() + self.spec_waiting().len()
        &&& self.spec_admissions() == self.spec_releases() + self.spec_held()
    }

    /// A controller with `capacity` free slots and nobody waiting.
    pub fn new(capacity: usize) -> (r: AdmissionController)
        requires
            capacity >= 1,
        ensures
            r.wf(),
            r.spec_capacity() == capacity,
            r.spec_held() == 0,
            r.spec_peak() == 0,
            r.spec_waiting() == Seq::<u64>::empty(),
            r.spec_arrivals() == 0,
    {
        AdmissionController {
            capacity,
            held: 0,
            peak: 0,
            waiting: VecDeque::new(),
            arrivals: Ghost(0),
            admissions: Ghost(0),
            releases: Ghost(0),
        }
    }

    /// Request `id` asks for a slot. Returns true when it is admitted at once;
    /// otherwise it joins the end of the queue.
    pub fn request(&mut self, id: u64) -> (admitted: bool)
        requires
            old(self).wf(),
        ensures
            final(self).wf(),
            admitted == (old(self).spec_held() < old(self).spec_capacity()),
            final(self).spec_capacity() == old(self).spec_capacity(),
            final(self).spec_arrivals() == old(self).spec_arrivals() + 1,
            final(self).spec_releases() == old(self).spec_releases(),
            admitted ==> {
                &&& final(self).spec_held() == old(self).spec_held() + 1
                &&& final(self).spec_waiting() == old(self).spec_waiting()
                &&& final(self).spec_admissions() == old(self).spec_admissions() + 1
                &&& final(self).spec_peak() == if old(self).spec_peak() > old(self).spec_held() {
                    old(self).spec_peak()
                } else {
                    old(self).spec_held() + 1
                }
            },
            !admitted ==> {
                &&& final(self).spec_held() == old(self).spec_held()
                &&& final(self).spec_waiting() == old(self).spec_waiting().push(id)
                &&& final(self).spec_admissions() == old(self).spec_admissions()
                &&& final(self).spec_peak() == old(self).spec_peak()
            },
    {
        self.arrivals = Ghost(self.arrivals@ + 1);
        if self.held < self.capacity {
            self.held = self.held + 1;
            if self.held > self.peak {
                self.peak = self.held;
            }
            self.admissions = Ghost(self.admissions@ + 1);
            true
        } else {
            self.waiting.push_back(id);
            false
        }
    }

    /// A holder gives its slot back. When requests are waiting, the slot goes
    /// straight to the oldest of them, whose identifier is returned; otherwise
    /// the slot becomes free.
    pub fn release(&mut self) -> (next: Option<u64>)
        requires
            old(self).wf(),
            old(self).spec_held() > 0,
        ensures
            final(self).wf(),
            final(self).spec_capacity() == old(self).spec_capacity(),
            final(self).spec_peak() == old(self).spec_peak(),
            final(self).spec_arrivals() == old(self).spec_arrivals(),
            final(self).spec_releases() == old(self).spec_releases() + 1,
            old(self).spec_waiting().len() == 0 ==> {
                &&& next is None
                &&& final(self).spec_held() == old(self).spec_held() - 1
                &&& final(self).spec_waiting() == old(self).spec_waiting()
                &&& final(self).spec_admissions() == old(self).spec_admissions()
            },
            old(self).spec_waiting().len() > 0 ==> {
                &&& next == Some(old(self).spec_waiting()[0])
                &&& final(self).spec_held() == old(self).spec_held()
                &&& final(self).spec_waiting() == old(self).spec_waiting().drop_first()
                &&& final(self).spec_admissions() == old(self).spec_admissions() + 1
            },
    {
        self.releases = Ghost(self.releases@ + 1);
        let next = self.waiting.pop_front();
        match next {
            Some(_) => {
                self.admissions = Ghost(self.admissions@ + 1);
            },
            None => {
                self.held = self.held - 1;
            },
        }
        next
    }

    /// Number of work slots.
    pub fn capacity(&self) -> (r: usize)
        ensures
            r == self.spec_capacity(),
    {
        self.capacity
    }

    /// Slots currently held.
    pub fn held(&self) -> (r: usize)
        ensures
            r == self.spec_held(),
    {
        self.held
    }

    /// Largest number of slots held at once so far.
    pub fn peak(&self) -> (r: usize)
        ensures
            r == self.spec_peak(),
    {
        self.peak
    }

    /// Number of requests waiting for a slot.
    pub fn waiting_len(&self) -> (r: usize)
        ensures
            r == self.spec_waiting().len(),
    {
        self.waiting.len()
    }
}

/// However many requests arrive, at no time are more slots held than the
/// controller has, nor were more ever held at once.
pub proof fn lemma_never_over_capacity(c: &AdmissionController)
    requires
        c.wf(),
    ensures
        c.spec_held() <= c.spec_capacity(),
        c.spec_peak() <= c.spec_capacity(),
{
}

/// No request is turned away: every request that arrived has been admitted or
/// is still waiting, and a request only waits while every slot is held.
pub proof fn lemma_no_request_dropped(c: &AdmissionController)
    requires
        c.wf(),
    ensures
        c.spec_arrivals() == c.spec_admissions() + c.spec_waiting().len(),
        c.spec_waiting().len() > 0 ==> c.spec_held() == c.spec_capacity(),
{
}

} // verus!
