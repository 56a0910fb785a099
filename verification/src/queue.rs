//! The per-destination serialization queue. Each destination key owns a lane
//! of numbered tickets: submission hands out the next ticket, completion
//! retires tickets strictly in ticket order. The async machinery that runs
//! the units lives outside the library and drives this ledger; the ledger is
//! what makes "units for one key complete in submission order" a theorem.

use vstd::prelude::*;

use crate::text::string_eq_str;

verus! {

/// Lanes stop issuing tickets at this ceiling, far below the integer limit,
/// so a ticket increment can never overflow.
pub const TICKET_CEIL: u64 = 0x4000_0000_0000_0000;

/// One destination key's lane: how many units were submitted, how many have
/// completed, and (as a ghost trace) the tickets in completion order.
pub struct ChannelLane {
    pub key: String,
    pub submitted: u64,
    pub completed: u64,
    pub completions: Ghost<Seq<u64>>,
}

/// A lane is well-formed when completion never overtakes submission and the
/// completion trace is exactly the tickets 0, 1, 2, … up to `completed`.
pub open spec fn lane_wf(lane: ChannelLane) -> bool {
    &&& lane.completed <= lane.submitted <= TICKET_CEIL
    &&& lane.completions@ == Seq::new(lane.completed as nat, |i: int| i as u64)
}

pub open spec fn has_lane(lanes: Seq<ChannelLane>, key: Seq<char>) -> bool {
    exists|k: int| 0 <= k < lanes.len() && lanes[k].key@ == key
}

pub open spec fn lanes_wf(lanes: Seq<ChannelLane>) -> bool {
    &&& forall|i: int, j: int| 0 <= i < j < lanes.len() ==> lanes[i].key@ != lanes[j].key@
    &&& forall|i: int| 0 <= i < lanes.len() ==> lane_wf(#[trigger] lanes[i])
}

/// The queue: one lane per destination key, created lazily on first use and
/// retained for the process lifetime.
pub struct ChannelQueue {
    lanes: Vec<ChannelLane>,
}

impl ChannelQueue {
    pub closed spec fn lanes(&self) -> Seq<ChannelLane> {
        self.lanes@
    }

    pub closed spec fn wf(&self) -> bool {
        lanes_wf(self.lanes@)
    }

    pub fn new() -> (r: ChannelQueue)
        ensures
            r.wf(),
            r.lanes().len() == 0,
    {
        ChannelQueue { lanes: Vec::new() }
    }

    fn find_lane(&self, channel_id: &str) -> (r: Option<usize>)
        ensures
            match r {
                Some(k) => k < self.lanes().len() && self.lanes()[k as int].key@ == channel_id@,
                None => !has_lane(self.lanes(), channel_id@),
            },
    {
        let mut i: usize = 0;
        while i < self.lanes.len()
            invariant
                i <= self.lanes@.len(),
                forall|k: int| 0 <= k < i ==> self.lanes@[k].key@ != channel_id@,
            decreases self.lanes@.len() - i,
        {
            if string_eq_str(&self.lanes[i].key, channel_id) {
                return Some(i);
            }
            i = i + 1;
        }
        None
    }

    /// How many units were ever submitted for a key.
    pub fn submitted_count(&self, channel_id: &str) -> (r: u64)
        ensures
            has_lane(self.lanes(), channel_id@) ==> exists|k: int|
                0 <= k < self.lanes().len() && self.lanes()[k].key@ == channel_id@ && r
                    == self.lanes()[k].submitted,
            !has_lane(self.lanes(), channel_id@) ==> r == 0,
    {
        match self.find_lane(channel_id) {
            Some(k) => self.lanes[k].submitted,
            None => 0,
        }
    }

    /// How many units have completed for a key.
    pub fn completed_count(&self, channel_id: &str) -> (r: u64)
        ensures
            has_lane(self.lanes(), channel_id@) ==> exists|k: int|
                0 <= k < self.lanes().len() && self.lanes()[k].key@ == channel_id@ && r
                    == self.lanes()[k].completed,
            !has_lane(self.lanes(), channel_id@) ==> r == 0,
    {
        match self.find_lane(channel_id) {
            Some(k) => self.lanes[k].completed,
            None => 0,
        }
    }

    /// Submits a unit of work for a key, creating the key's lane on first
    /// use, and returns the unit's ticket. Tickets for one key are handed
    /// out consecutively from zero. Fails only when the lane has exhausted
    /// its ticket space.
    pub fn enqueue(&mut self, channel_id: &str) -> (r: Option<u64>)
        requires
            old(self).wf(),
        ensures
            final(self).wf(),
            final(self).lanes().len() == (if has_lane(old(self).lanes(), channel_id@) {
                old(self).lanes().len() as int
            } else {
                old(self).lanes().len() as int + 1
            }),
            match r {
                Some(ticket) => {
                    &&& exists|k: int|
                        {
                            &&& 0 <= k < final(self).lanes().len()
                            &&& final(self).lanes()[k].key@ == channel_id@
                            &&& final(self).lanes()[k].submitted == ticket + 1
                            &&& final(self).lanes()[k].completed == (
                            if has_lane(old(self).lanes(), channel_id@) {
                                old(self).lanes()[k].completed
                            } else {
                                0u64
                            })
                            &&& (has_lane(old(self).lanes(), channel_id@) ==> 0 <= k < old(
                                self,
                            ).lanes().len() && old(self).lanes()[k].key@ == channel_id@ && ticket
                                == old(self).lanes()[k].submitted)
                            &&& forall|j: int|
                                0 <= j < old(self).lanes().len() && j != k ==> final(self).lanes()[j] == old(self).lanes()[j]
                        }
                    &&& !has_lane(old(self).lanes(), channel_id@) ==> ticket == 0
                },
                None => final(self).lanes() == old(self).lanes() && has_lane(
                    old(self).lanes(),
                    channel_id@,
                ),
            },
    {
        match self.find_lane(channel_id) {
            Some(k) => {
                if self.lanes[k].submitted >= TICKET_CEIL {
                    return None;
                }
                let ticket = self.lanes[k].submitted;
                let lane = ChannelLane {
                    key: self.lanes[k].key.clone(),
                    submitted: ticket + 1,
                    completed: self.lanes[k].completed,
                    completions: Ghost(self.lanes@[k as int].completions@),
                };
                self.lanes.set(k, lane);
                proof {
                    assert forall|i: int, j: int|
                        0 <= i < j < self.lanes@.len() implies self.lanes@[i].key@
                        != self.lanes@[j].key@ by {
                        assert(old(self).lanes()[i].key@ != old(self).lanes()[j].key@);
                    }
                    assert forall|i: int| 0 <= i < self.lanes@.len() implies lane_wf(
                        #[trigger] self.lanes@[i],
                    ) by {
                        assert(lane_wf(old(self).lanes()[i]));
                    }
                    assert(self.lanes@[k as int].key@ == channel_id@);
                    assert(self.lanes@[k as int].submitted == ticket + 1);
                }
                Some(ticket)
            },
            None => {
                let lane = ChannelLane {
                    key: channel_id.to_owned(),
                    submitted: 1,
                    completed: 0,
                    completions: Ghost(Seq::empty()),
                };
                let ghost prev = self.lanes@;
                self.lanes.push(lane);
                proof {
                    assert(lane_wf(lane)) by {
                        assert(lane.completions@ =~= Seq::new(0nat, |i: int| i as u64));
                    }
                    assert forall|i: int, j: int|
                        0 <= i < j < self.lanes@.len() implies self.lanes@[i].key@
                        != self.lanes@[j].key@ by {
                        if j < prev.len() {
                            assert(prev[i].key@ != prev[j].key@);
                        } else {
                            assert(self.lanes@[i] == prev[i]);
                        }
                    }
                    assert forall|i: int| 0 <= i < self.lanes@.len() implies lane_wf(
                        #[trigger] self.lanes@[i],
                    ) by {
                        if i < prev.len() {
                            assert(lane_wf(prev[i]));
                        }
                    }
                    assert(self.lanes@[prev.len() as int].key@ == channel_id@);
                    assert(self.lanes@[prev.len() as int].submitted == 1);
                }
                Some(0)
            },
        }
    }

    /// Retires the next unit for a key: the unit whose ticket equals the
    /// lane's completed count. Returns that ticket, or nothing when the key
    /// has no lane or no unit is pending.
    pub fn complete_next(&mut self, channel_id: &str) -> (r: Option<u64>)
        requires
            old(self).wf(),
        ensures
            final(self).wf(),
            final(self).lanes().len() == old(self).lanes().len(),
            match r {
                Some(ticket) => exists|k: int|
                    {
                        &&& 0 <= k < old(self).lanes().len()
                        &&& old(self).lanes()[k].key@ == channel_id@
                        &&& old(self).lanes()[k].completed < old(self).lanes()[k].submitted
                        &&& ticket == old(self).lanes()[k].completed
                        &&& final(self).lanes()[k].completed == ticket + 1
                        &&& final(self).lanes()[k].submitted == old(self).lanes()[k].submitted
                        &&& final(self).lanes()[k].key@ == channel_id@
                        &&& final(self).lanes()[k].completions@ == old(
                            self,
                        ).lanes()[k].completions@.push(ticket)
                        &&& forall|j: int|
                            0 <= j < old(self).lanes().len() && j != k ==> final(self).lanes()[j]
                                == old(self).lanes()[j]
                    },
                None => final(self).lanes() == old(self).lanes() && (forall|k: int|
                    0 <= k < old(self).lanes().len() && old(self).lanes()[k].key@ == channel_id@
                        ==> old(self).lanes()[k].completed == old(self).lanes()[k].submitted),
            },
    {
        match self.find_lane(channel_id) {
            Some(k) => {
                if self.lanes[k].completed >= self.lanes[k].submitted {
                    proof {
                        assert forall|j: int|
                            0 <= j < self.lanes@.len() && self.lanes@[j].key@ == channel_id@
                                implies self.lanes@[j].completed == self.lanes@[j].submitted by {
                            if j != k as int {
                                assert(self.lanes@[j].key@ != self.lanes@[k as int].key@);
                            }
                        }
                    }
                    return None;
                }
                let ticket = self.lanes[k].completed;
                let lane = ChannelLane {
                    key: self.lanes[k].key.clone(),
                    submitted: self.lanes[k].submitted,
                    completed: ticket + 1,
                    completions: Ghost(self.lanes@[k as int].completions@.push(ticket)),
                };
                self.lanes.set(k, lane);
                proof {
                    assert(lane.completions@ =~= Seq::new(lane.completed as nat, |i: int| i as u64));
                    assert forall|i: int, j: int|
                        0 <= i < j < self.lanes@.len() implies self.lanes@[i].key@
                        != self.lanes@[j].key@ by {
                        assert(old(self).lanes()[i].key@ != old(self).lanes()[j].key@);
                    }
                    assert forall|i: int| 0 <= i < self.lanes@.len() implies lane_wf(
                        #[trigger] self.lanes@[i],
                    ) by {
                        assert(lane_wf(old(self).lanes()[i]));
                    }
                }
                Some(ticket)
            },
            None => None,
        }
    }
}

/// For a fixed destination key, units complete in exactly their submission
/// order: a unit with an earlier ticket finishes strictly before any unit
/// with a later ticket, whatever the units' individual durations were.
pub proof fn lemma_completions_follow_submission_order(q: ChannelQueue, k: int, i: int, j: int)
    requires
        q.wf(),
        0 <= k < q.lanes().len(),
        0 <= i < j < q.lanes()[k].completions@.len(),
    ensures
        q.lanes()[k].completions@[i] < q.lanes()[k].completions@[j],
{
    assert(lane_wf(q.lanes()[k]));
}

/// Every completed unit of a lane was a submitted unit of that lane: the
/// completion trace is a prefix of the submission tickets.
pub proof fn lemma_completions_are_submissions(q: ChannelQueue, k: int, i: int)
    requires
        q.wf(),
        0 <= k < q.lanes().len(),
        0 <= i < q.lanes()[k].completions@.len(),
    ensures
        q.lanes()[k].completions@[i] == i,
        q.lanes()[k].completions@[i] < q.lanes()[k].submitted,
{
    assert(lane_wf(q.lanes()[k]));
}

} // verus!
