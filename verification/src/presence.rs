//! The presence relay: a coalescing queue of remote presence updates and the
//! pure mapping from a remote presence to the destination-side presence,
//! status line and drop decision. Delivery runs outside the library, one
//! entry per tick; the handler owns the queue and the mapping.

use vstd::prelude::*;

use crate::text::char_to_uppercase;
use crate::text::lower_of;
use crate::text::string_eq_str;
use crate::text::to_lowercase;
use crate::text::upper_of;

verus! {

/// The remote platform's presence states.
#[derive(Debug, Clone, Copy, PartialEq, Eq, Structural)]
pub enum SlackPresenceState {
    Online,
    Dnd,
    Idle,
    Offline,
}

/// One activity advertised beside a presence.
#[derive(Debug, Clone, PartialEq, Eq)]
pub struct SlackActivity {
    pub kind: String,
    pub name: String,
    pub url: Option<String>,
}

/// One presence update for a remote user.
#[derive(Debug, Clone, PartialEq, Eq)]
pub struct SlackPresence {
    pub user_id: String,
    pub username: Option<String>,
    pub state: SlackPresenceState,
    pub activities: Vec<SlackActivity>,
}

/// The destination platform's presence states.
#[derive(Debug, Clone, Copy, PartialEq, Eq, Structural)]
pub enum MatrixPresenceState {
    Online,
    Offline,
    Unavailable,
}

/// What one queue entry becomes on delivery: the destination presence, the
/// status line, and whether the user leaves the relay queue afterwards.
#[derive(Debug, Clone, PartialEq, Eq)]
pub struct PresenceDecision {
    pub presence: MatrixPresenceState,
    pub status_message: String,
    pub should_drop: bool,
}

/// The destination state for each source state.
pub open spec fn spec_presence_target(state: SlackPresenceState) -> MatrixPresenceState {
    match state {
        SlackPresenceState::Online => MatrixPresenceState::Online,
        SlackPresenceState::Dnd => MatrixPresenceState::Online,
        SlackPresenceState::Idle => MatrixPresenceState::Unavailable,
        SlackPresenceState::Offline => MatrixPresenceState::Offline,
    }
}

/// The line describing the first activity: the kind, title-cased, then the
/// name, then ` | url` when the activity carries a link. No activity, no
/// line.
pub open spec fn spec_activity_line(acts: Seq<SlackActivity>) -> Seq<char> {
    if acts.len() == 0 {
        Seq::empty()
    } else {
        let a = acts[0];
        let base: Seq<char> = if a.kind@.len() == 0 {
            a.name@
        } else {
            upper_of(a.kind@[0]) + lower_of(a.kind@.drop_first()) + " "@ + a.name@
        };
        match a.url {
            Some(u) => base + " | "@ + u@,
            None => base,
        }
    }
}

/// The full status line: do-not-disturb announces itself ahead of any
/// activity line, every other state shows the activity line alone.
pub open spec fn spec_status_message(p: SlackPresence) -> Seq<char> {
    let line = spec_activity_line(p.activities@);
    if p.state is Dnd {
        if line.len() == 0 {
            "Do not disturb"@
        } else {
            "Do not disturb | "@ + line
        }
    } else {
        line
    }
}

fn activity_line(acts: &Vec<SlackActivity>) -> (r: String)
    ensures
        r@ == spec_activity_line(acts@),
{
    if acts.len() == 0 {
        String::new()
    } else {
        let a = &acts[0];
        let klen = a.kind.as_str().unicode_len();
        let mut line: String;
        if klen == 0 {
            line = a.name.clone();
        } else {
            let first = a.kind.as_str().get_char(0);
            line = char_to_uppercase(first);
            let rest = a.kind.as_str().substring_char(1, klen);
            proof {
                assert(rest@ =~= a.kind@.drop_first());
            }
            let lowered = to_lowercase(rest);
            line.append(lowered.as_str());
            line.append(" ");
            line.append(a.name.as_str());
        }
        if let Some(u) = &a.url {
            line.append(" | ");
            line.append(u.as_str());
        }
        line
    }
}

/// Maps a source presence to the destination decision. Offline is the only
/// state that drops the user from the relay queue; everything else keeps
/// relaying. A do-not-disturb status line always opens with "Do not
/// disturb".
fn map_presence(presence: &SlackPresence) -> (d: PresenceDecision)
    ensures
        d.should_drop == (presence.state is Offline),
        d.presence == spec_presence_target(presence.state),
        d.status_message@ == spec_status_message(*presence),
{
    let line = activity_line(&presence.activities);
    match presence.state {
        SlackPresenceState::Online => PresenceDecision {
            presence: MatrixPresenceState::Online,
            status_message: line,
            should_drop: false,
        },
        SlackPresenceState::Dnd => {
            let status_message: String = if line.as_str().is_empty() {
                "Do not disturb".to_owned()
            } else {
                let mut s = "Do not disturb | ".to_owned();
                s.append(line.as_str());
                s
            };
            PresenceDecision {
                presence: MatrixPresenceState::Online,
                status_message,
                should_drop: false,
            }
        },
        SlackPresenceState::Offline => PresenceDecision {
            presence: MatrixPresenceState::Offline,
            status_message: line,
            should_drop: true,
        },
        SlackPresenceState::Idle => PresenceDecision {
            presence: MatrixPresenceState::Unavailable,
            status_message: line,
            should_drop: false,
        },
    }
}

/// A do-not-disturb status line always starts with "Do not disturb",
/// whatever the activities say.
pub proof fn lemma_dnd_status_opens_with_do_not_disturb(p: SlackPresence)
    requires
        p.state is Dnd,
    ensures
        spec_status_message(p).len() >= 14,
        spec_status_message(p).subrange(0, 14) == "Do not disturb"@,
{
    reveal_strlit("Do not disturb");
    reveal_strlit("Do not disturb | ");
    let line = spec_activity_line(p.activities@);
    if line.len() == 0 {
        assert(spec_status_message(p).subrange(0, 14) =~= "Do not disturb"@);
    } else {
        assert(("Do not disturb | "@ + line).subrange(0, 14) =~= "Do not disturb"@);
    }
}

/// A field-exact copy of one activity.
fn clone_activity(a: &SlackActivity) -> (r: SlackActivity)
    ensures
        r == *a,
{
    SlackActivity { kind: a.kind.clone(), name: a.name.clone(), url: a.url.clone() }
}

fn clone_activities(v: &Vec<SlackActivity>) -> (r: Vec<SlackActivity>)
    ensures
        r@ == v@,
{
    let mut out: Vec<SlackActivity> = Vec::new();
    let mut i: usize = 0;
    while i < v.len()
        invariant
            i <= v@.len(),
            out@ =~= v@.subrange(0, i as int),
        decreases v@.len() - i,
    {
        out.push(clone_activity(&v[i]));
        proof {
            assert(out@ =~= v@.subrange(0, i as int + 1));
        }
        i = i + 1;
    }
    proof {
        assert(v@.subrange(0, v@.len() as int) =~= v@);
    }
    out
}

/// Agreement of two presence updates on everything the relay reads.
pub open spec fn presence_view_eq(a: SlackPresence, b: SlackPresence) -> bool {
    &&& a.user_id@ == b.user_id@
    &&& (match (a.username, b.username) {
        (Some(x), Some(y)) => x@ == y@,
        (None, None) => true,
        _ => false,
    })
    &&& a.state == b.state
    &&& a.activities@ == b.activities@
}

/// A field-exact copy of one presence update.
pub fn clone_presence(p: &SlackPresence) -> (r: SlackPresence)
    ensures
        presence_view_eq(r, *p),
{
    let mut out = SlackPresence {
        user_id: p.user_id.clone(),
        username: p.username.clone(),
        state: p.state,
        activities: clone_activities(&p.activities),
    };
    out
}

/// The presence handler: the bridge's own remote identity (whose updates are
/// echo and dropped) and the coalescing queue, one live entry per user.
pub struct PresenceHandler {
    bot_slack_user_id: Option<String>,
    queue: Vec<SlackPresence>,
}

/// The queue holds at most one entry per user.
pub open spec fn presence_queue_wf(queue: Seq<SlackPresence>) -> bool {
    forall|i: int, j: int| 0 <= i < j < queue.len() ==> queue[i].user_id@ != queue[j].user_id@
}

impl PresenceHandler {
    pub closed spec fn queue(&self) -> Seq<SlackPresence> {
        self.queue@
    }

    pub closed spec fn bot_id(&self) -> Option<String> {
        self.bot_slack_user_id
    }

    pub closed spec fn wf(&self) -> bool {
        presence_queue_wf(self.queue@)
    }

    /// Whether an update comes from the bridge's own remote identity.
    pub open spec fn is_own_update(&self, user_id: Seq<char>) -> bool {
        self.bot_id() matches Some(b) && b@ == user_id
    }

    pub fn new(bot_slack_user_id: Option<String>) -> (r: PresenceHandler)
        ensures
            r.wf(),
            r.queue().len() == 0,
            r.bot_id() == bot_slack_user_id,
    {
        PresenceHandler { bot_slack_user_id, queue: Vec::new() }
    }

    /// Maps a source presence to the destination decision: the state table,
    /// the first activity's line, and the drop rule.
    pub fn map_presence(presence: &SlackPresence) -> (d: PresenceDecision)
        ensures
            d.should_drop == (presence.state is Offline),
            d.presence == spec_presence_target(presence.state),
            d.status_message@ == spec_status_message(*presence),
    {
        map_presence(presence)
    }

    /// Sets the bridge's own remote identity, whose updates are echo; the
    /// queue is untouched.
    pub fn set_bot_id(&mut self, bot_slack_user_id: Option<String>)
        requires
            old(self).wf(),
        ensures
            final(self).wf(),
            final(self).queue() == old(self).queue(),
            final(self).bot_id() == bot_slack_user_id,
    {
        self.bot_slack_user_id = bot_slack_user_id;
    }

    pub fn queue_count(&self) -> (r: usize)
        ensures
            r == self.queue().len(),
    {
        self.queue.len()
    }

    fn find_user(&self, user_id: &str) -> (r: Option<usize>)
        ensures
            match r {
                Some(k) => k < self.queue().len() && self.queue()[k as int].user_id@ == user_id@,
                None => forall|k: int|
                    0 <= k < self.queue().len() ==> self.queue()[k].user_id@ != user_id@,
            },
    {
        let mut i: usize = 0;
        while i < self.queue.len()
            invariant
                i <= self.queue@.len(),
                forall|k: int| 0 <= k < i ==> self.queue@[k].user_id@ != user_id@,
            decreases self.queue@.len() - i,
        {
            if string_eq_str(&self.queue[i].user_id, user_id) {
                return Some(i);
            }
            i = i + 1;
        }
        None
    }

    /// Admits an update: the bridge's own identity is echo and dropped; any
    /// earlier entry for the user is removed and the update appends at the
    /// back, so a newer update replaces a stale one and waits its turn.
    pub fn enqueue_user(&mut self, presence: SlackPresence)
        requires
            old(self).wf(),
        ensures
            final(self).wf(),
            final(self).bot_id() == old(self).bot_id(),
            old(self).is_own_update(presence.user_id@) ==> final(self).queue() == old(
                self,
            ).queue(),
            !old(self).is_own_update(presence.user_id@) ==> {
                &&& final(self).queue().last() == presence
                &&& if exists|k: int|
                    0 <= k < old(self).queue().len() && old(self).queue()[k].user_id@
                        == presence.user_id@ {
                    exists|k: int|
                        0 <= k < old(self).queue().len() && old(self).queue()[k].user_id@
                            == presence.user_id@ && final(self).queue() == old(
                            self,
                        ).queue().remove(k).push(presence)
                } else {
                    final(self).queue() == old(self).queue().push(presence)
                }
            },
    {
        let is_own: bool = match &self.bot_slack_user_id {
            Some(b) => string_eq_str(b, presence.user_id.as_str()),
            None => false,
        };
        if is_own {
            return ;
        }
        match self.find_user(presence.user_id.as_str()) {
            Some(k) => {
                self.queue.remove(k);
                let ghost mid = self.queue@;
                self.queue.push(presence);
                proof {
                    assert(old(self).queue()[k as int].user_id@ == presence.user_id@);
                    assert(self.queue@ == old(self).queue().remove(k as int).push(presence));
                    assert forall|a: int, b: int|
                        0 <= a < b < self.queue@.len() implies self.queue@[a].user_id@
                        != self.queue@[b].user_id@ by {
                        let a0: int = if a < k { a } else { a + 1 };
                        if b < mid.len() {
                            let b0: int = if b < k { b } else { b + 1 };
                            assert(self.queue@[a] == old(self).queue()[a0]);
                            assert(self.queue@[b] == old(self).queue()[b0]);
                        } else {
                            assert(self.queue@[a] == old(self).queue()[a0]);
                            if a0 != k as int {
                                assert(old(self).queue()[a0].user_id@ != old(
                                    self,
                                ).queue()[k as int].user_id@);
                            }
                        }
                    }
                }
            },
            None => {
                let ghost prev = self.queue@;
                self.queue.push(presence);
                proof {
                    assert forall|a: int, b: int|
                        0 <= a < b < self.queue@.len() implies self.queue@[a].user_id@
                        != self.queue@[b].user_id@ by {
                        if b < prev.len() {
                            assert(prev[a].user_id@ != prev[b].user_id@);
                        } else {
                            assert(self.queue@[a] == prev[a]);
                            assert(prev[a].user_id@ != presence.user_id@);
                        }
                    }
                }
            },
        }
    }

    /// Removes any queued entry for a user; reports whether one was there.
    pub fn dequeue_user(&mut self, user_id: &str) -> (r: bool)
        requires
            old(self).wf(),
        ensures
            final(self).wf(),
            final(self).bot_id() == old(self).bot_id(),
            r == exists|k: int|
                0 <= k < old(self).queue().len() && old(self).queue()[k].user_id@ == user_id@,
            r ==> exists|k: int|
                0 <= k < old(self).queue().len() && old(self).queue()[k].user_id@ == user_id@
                    && final(self).queue() == old(self).queue().remove(k),
            !r ==> final(self).queue() == old(self).queue(),
    {
        let mut i: usize = 0;
        while i < self.queue.len()
            invariant
                old(self).wf(),
                self.queue@ == old(self).queue(),
                self.bot_slack_user_id == old(self).bot_id(),
                i <= self.queue@.len(),
                forall|k: int| 0 <= k < i ==> self.queue@[k].user_id@ != user_id@,
            decreases self.queue@.len() - i,
        {
            if string_eq_str(&self.queue[i].user_id, user_id) {
                self.queue.remove(i);
                proof {
                    let removed = old(self).queue().remove(i as int);
                    assert(self.queue@ =~= removed);
                    assert forall|a: int, b: int|
                        0 <= a < b < removed.len() implies removed[a].user_id@
                        != removed[b].user_id@ by {
                        let a0: int = if a < i { a } else { a + 1 };
                        let b0: int = if b < i { b } else { b + 1 };
                        assert(removed[a] == old(self).queue()[a0]);
                        assert(removed[b] == old(self).queue()[b0]);
                    }
                }
                return true;
            }
            i = i + 1;
        }
        false
    }

    /// Pops the front entry for one delivery tick and computes its decision.
    /// The entry is re-queued at the back unless the decision drops the user;
    /// a dropped user returns only through a fresh update. The attempt to set
    /// the destination presence happens outside, after this returns.
    pub fn process_next(&mut self) -> (r: Option<(SlackPresence, PresenceDecision)>)
        requires
            old(self).wf(),
        ensures
            final(self).wf(),
            final(self).bot_id() == old(self).bot_id(),
            old(self).queue().len() == 0 ==> r is None && final(self).queue() == old(self).queue(),
            old(self).queue().len() > 0 ==> match r {
                Some(pair) => {
                    &&& presence_view_eq(pair.0, old(self).queue()[0])
                    &&& pair.1.should_drop == (pair.0.state is Offline)
                    &&& pair.1.presence == spec_presence_target(pair.0.state)
                    &&& pair.1.status_message@ == spec_status_message(pair.0)
                    &&& pair.1.should_drop ==> final(self).queue() == old(
                        self,
                    ).queue().drop_first()
                    &&& !pair.1.should_drop ==> final(self).queue() == old(
                        self,
                    ).queue().drop_first().push(old(self).queue()[0])
                },
                None => false,
            },
    {
        if self.queue.len() == 0 {
            return None;
        }
        let entry = self.queue.remove(0);
        proof {
            assert(self.queue@ =~= old(self).queue().drop_first());
        }
        let decision = map_presence(&entry);
        let returned = clone_presence(&entry);
        proof {
            assert(entry == old(self).queue()[0]);
        }
        if !decision.should_drop {
            let ghost mid = self.queue@;
            self.queue.push(entry);
            proof {
                assert forall|a: int, b: int|
                    0 <= a < b < self.queue@.len() implies self.queue@[a].user_id@
                    != self.queue@[b].user_id@ by {
                    if b < mid.len() {
                        assert(old(self).queue()[a + 1].user_id@ != old(
                            self,
                        ).queue()[b + 1].user_id@);
                    } else {
                        assert(self.queue@[a] == old(self).queue()[a + 1]);
                        assert(self.queue@[b] == old(self).queue()[0]);
                        assert(old(self).queue()[0].user_id@ != old(
                            self,
                        ).queue()[a + 1].user_id@);
                    }
                }
            }
            proof {
                assert(self.queue@ =~= old(self).queue().drop_first().push(
                    old(self).queue()[0],
                ));
            }
        } else {
            proof {
                assert forall|a: int, b: int|
                    0 <= a < b < self.queue@.len() implies self.queue@[a].user_id@
                    != self.queue@[b].user_id@ by {
                    assert(old(self).queue()[a + 1].user_id@ != old(self).queue()[b + 1].user_id@);
                }
            }
        }
        Some((returned, decision))
    }
}

/// Whether a delivery failure is the permission-class failure that calls for
/// re-provisioning the destination ghost identity rather than a plain log
/// line.
pub fn is_permission_failure(error_text: &str) -> (r: bool)
    ensures
        r == crate::text::spec_contains_seq(error_text@, "M_FORBIDDEN"@),
{
    crate::text::contains_str(error_text, "M_FORBIDDEN")
}

} // verus!
