//! Session statistics that a server accumulates over completed work requests.

use vstd::prelude::*;

verus! {

/// Sum of a sequence of session times.
pub open spec fn sum_of(s: Seq<u128>) -> int
    decreases s.len(),
{
    if s.len() == 0 {
        0
    } else {
        sum_of(s.drop_last()) + s.last()
    }
}

/// `m` is the largest element of a nonempty `s`.
pub open spec fn is_max_of(m: u128, s: Seq<u128>) -> bool {
    &&& forall|i: int| 0 <= i < s.len() ==> s[i] <= m
    &&& exists|i: int| 0 <= i < s.len() && s[i] == m
}

/// `m` is the smallest element of a nonempty `s`.
pub open spec fn is_min_of(m: u128, s: Seq<u128>) -> bool {
    &&& forall|i: int| 0 <= i < s.len() ==> m <= s[i]
    &&& exists|i: int| 0 <= i < s.len() && s[i] == m
}

/// Aggregated statistics over the session times recorded so far.
///
/// Its view is the sequence of every recorded session time; the four
/// counters are a summary of it.
pub struct ServerStats {
    total_connections: u32,
    total_session_time: u128,
    max_session_time: u128,
    min_session_time: Option<u128>,
    samples: Ghost<Seq<u128>>,
}

impl View for ServerStats {
    type V = Seq<u128>;

    /// Every recorded session time, in the order of recording.
    closed spec fn view(&self) -> Seq<u128> {
        self.samples@
    }
}

impl ServerStats {
    /// The counters summarise the recorded session times exactly.
    pub open spec fn wf(&self) -> bool {
        &&& self.spec_total_connections() as int == self@.len()
        &&& self.spec_total_session_time() as int == sum_of(self@)
        &&& (self@.len() == 0 ==> self.spec_max_session_time() == 0)
        &&& (self@.len() > 0 ==> is_max_of(self.spec_max_session_time(), self@))
        &&& (self@.len() == 0 <==> self.spec_min_session_time() is None)
        &&& (self.spec_min_session_time() matches Some(m) ==> is_min_of(m, self@))
    }

    pub closed spec fn spec_total_connections(&self) -> u32 {
        self.total_connections
    }

    pub closed spec fn spec_total_session_time(&self) -> u128 {
        self.total_session_time
    }

    pub closed spec fn spec_max_session_time(&self) -> u128 {
        self.max_session_time
    }

    pub closed spec fn spec_min_session_time(&self) -> Option<u128> {
        self.min_session_time
    }

    /// Statistics of a server that has completed no request.
    pub fn new() -> (r: ServerStats)
        ensures
            r.wf(),
            r@ == Seq::<u128>::empty(),
    {
        ServerStats {
            total_connections: 0,
            total_session_time: 0,
            max_session_time: 0,
            min_session_time: None,
            samples: Ghost(Seq::empty()),
        }
    }

    /// Records one completed session of `session_time` milliseconds.
    pub fn update_session_stats(&mut self, session_time: u128)
        requires
            old(self).wf(),
            old(self).can_record(session_time),
        ensures
            final(self).wf(),
            final(self)@ == old(self)@.push(session_time),
    {
        let ghost old_samples = self.samples@;
        self.total_connections = self.total_connections + 1;
        self.total_session_time = self.total_session_time + session_time;
        if session_time > self.max_session_time {
            self.max_session_time = session_time;
        }
        self.min_session_time = match self.min_session_time {
            Some(m) => if session_time < m { Some(session_time) } else { Some(m) },
            None => Some(session_time),
        };
        self.samples = Ghost(old_samples.push(session_time));
        proof {
            let s = self.samples@;
            assert(s.drop_last() == old_samples);
            let n = old_samples.len() as int;
            if n > 0 {
                let mx = self.max_session_time;
                assert(forall|i: int| 0 <= i < s.len() ==> s[i] <= mx) by {
                    assert forall|i: int| 0 <= i < s.len() implies s[i] <= mx by {
                        if i < n {
                            assert(s[i] == old_samples[i]);
                        }
                    }
                }
                let w = choose|i: int| 0 <= i < n && old_samples[i] == old(self).max_session_time;
                if mx == session_time {
                    assert(s[n] == mx);
                } else {
                    assert(s[w] == mx);
                }
                let mn = self.min_session_time.unwrap();
                let om = old(self).min_session_time.unwrap();
                assert forall|i: int| 0 <= i < s.len() implies mn <= s[i] by {
                    if i < n {
                        assert(s[i] == old_samples[i]);
                    }
                }
                let v = choose|i: int| 0 <= i < n && old_samples[i] == om;
                if mn == session_time {
                    assert(s[n] == mn);
                } else {
                    assert(s[v] == mn);
                }
            } else {
                assert(s[0] == session_time);
            }
        }
    }

    /// Whether one more session of `session_time` can be recorded without a
    /// counter leaving its integer type.
    pub open spec fn can_record(&self, session_time: u128) -> bool {
        &&& self.spec_total_connections() < u32::MAX
        &&& self.spec_total_session_time() + session_time <= u128::MAX
    }
}

impl ServerStats {
    /// Whether one more session of `session_time` can be recorded.
    pub fn has_room_for(&self, session_time: u128) -> (r: bool)
        ensures
            r == self.can_record(session_time),
    {
        self.total_connections < u32::MAX && session_time <= u128::MAX - self.total_session_time
    }

    /// Number of completed sessions.
    pub fn total_connections(&self) -> (r: u32)
        ensures
            r == self.spec_total_connections(),
    {
        self.total_connections
    }

    /// Sum of all recorded session times.
    pub fn total_session_time(&self) -> (r: u128)
        ensures
            r == self.spec_total_session_time(),
    {
        self.total_session_time
    }

    /// Longest recorded session time, 0 before the first.
    pub fn max_session_time(&self) -> (r: u128)
        ensures
            r == self.spec_max_session_time(),
    {
        self.max_session_time
    }

    /// Shortest recorded session time, unset before the first.
    pub fn min_session_time(&self) -> (r: Option<u128>)
        ensures
            r == self.spec_min_session_time(),
    {
        self.min_session_time
    }
}

/// After M recorded sessions the statistics count M connections, their
/// minimum and maximum bound every recorded session time, and their total is
/// exactly the sum of the recorded session times.
pub proof fn lemma_stats_after_sessions(stats: &ServerStats)
    requires
        stats.wf(),
    ensures
        stats.spec_total_connections() as int == stats@.len(),
        stats.spec_total_session_time() as int == sum_of(stats@),
        stats@.len() > 0 ==> stats.spec_min_session_time() is Some,
        forall|i: int|
            0 <= i < stats@.len() ==> {
                &&& stats.spec_min_session_time().unwrap() <= #[trigger] stats@[i]
                &&& stats@[i] <= stats.spec_max_session_time()
            },
{
}

} // verus!
