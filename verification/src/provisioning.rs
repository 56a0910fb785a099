//! The provisioning coordinator: the request/approve/deny protocol that asks
//! a remote channel's owners for bridging consent under a deadline. The
//! coordinator owns the pending-request table; the one-shot signal and the
//! timed wait run outside the library and report back what they observed.

use vstd::prelude::*;

use crate::text::spec_u64_str;
use crate::text::string_eq_str;
use crate::text::u64_to_string;

verus! {

pub const DEFAULT_PERMISSION_TIMEOUT_MS: u64 = 300_000;

/// What a late or duplicate approval resolves to: `Applied` fulfilled a
/// waiter, `Expired` found no pending request.
#[derive(Debug, Clone, Copy, PartialEq, Eq, Structural)]
pub enum ApprovalResponseStatus {
    Applied,
    Expired,
}

/// The terminal failures of a bridge-permission request, each mapped to a
/// distinct user-facing message.
#[derive(Debug, Clone, Copy, PartialEq, Eq, Structural)]
pub enum ProvisioningError {
    TimedOut,
    Declined,
    DeliveryFailed,
    Cancelled,
}

impl ProvisioningError {
    pub open spec fn spec_message(&self) -> Seq<char> {
        match self {
            ProvisioningError::TimedOut => "Timed out waiting for a response from the Slack owners."@,
            ProvisioningError::Declined => "The bridge has been declined by the Slack guild."@,
            ProvisioningError::DeliveryFailed => "Could not send bridge permission request to Slack."@,
            ProvisioningError::Cancelled => "Bridge approval request was cancelled."@,
        }
    }

    /// The user-facing description of the failure.
    pub fn message(&self) -> (r: String)
        ensures
            r@ == self.spec_message(),
    {
        match self {
            ProvisioningError::TimedOut => "Timed out waiting for a response from the Slack owners.".to_owned(),
            ProvisioningError::Declined => "The bridge has been declined by the Slack guild.".to_owned(),
            ProvisioningError::DeliveryFailed => "Could not send bridge permission request to Slack.".to_owned(),
            ProvisioningError::Cancelled => "Bridge approval request was cancelled.".to_owned(),
        }
    }
}

/// What the timed wait on the decision signal observed: the signal fired
/// with a decision, the signal was dropped unfired, or the deadline passed.
#[derive(Debug, Clone, Copy, PartialEq, Eq, Structural)]
pub enum WaitOutcome {
    Decision(bool),
    SignalDropped,
    TimedOut,
}

pub open spec fn pending_has(pending: Seq<String>, channel_id: Seq<char>) -> bool {
    exists|k: int| 0 <= k < pending.len() && pending[k]@ == channel_id
}

/// The coordinator: the wait timeout and the channels with a live pending
/// request, at most one per channel.
pub struct ProvisioningCoordinator {
    timeout_ms: u64,
    pending: Vec<String>,
}

impl ProvisioningCoordinator {
    pub closed spec fn pending(&self) -> Seq<String> {
        self.pending@
    }

    pub closed spec fn timeout(&self) -> u64 {
        self.timeout_ms
    }

    pub closed spec fn wf(&self) -> bool {
        forall|i: int, j: int| 0 <= i < j < self.pending@.len() ==> self.pending@[i]@
            != self.pending@[j]@
    }

    pub fn new(timeout_ms: u64) -> (r: ProvisioningCoordinator)
        ensures
            r.wf(),
            r.pending().len() == 0,
            r.timeout() == timeout_ms,
    {
        ProvisioningCoordinator { timeout_ms, pending: Vec::new() }
    }

    fn find_pending(&self, channel_id: &str) -> (r: Option<usize>)
        ensures
            match r {
                Some(k) => k < self.pending().len() && self.pending()[k as int]@ == channel_id@,
                None => !pending_has(self.pending(), channel_id@),
            },
    {
        let mut i: usize = 0;
        while i < self.pending.len()
            invariant
                i <= self.pending@.len(),
                forall|k: int| 0 <= k < i ==> self.pending@[k]@ != channel_id@,
            decreases self.pending@.len() - i,
        {
            if string_eq_str(&self.pending[i], channel_id) {
                return Some(i);
            }
            i = i + 1;
        }
        None
    }

    pub fn has_pending_request(&self, channel_id: &str) -> (r: bool)
        ensures
            r == pending_has(self.pending(), channel_id@),
    {
        self.find_pending(channel_id).is_some()
    }

    /// Registers a request for a channel. A second request while one is
    /// pending is rejected outright and changes nothing.
    pub fn register_request(&mut self, channel_id: &str) -> (r: bool)
        requires
            old(self).wf(),
        ensures
            final(self).wf(),
            final(self).timeout() == old(self).timeout(),
            r == !pending_has(old(self).pending(), channel_id@),
            r ==> final(self).pending().len() == old(self).pending().len() + 1 && final(self).pending().subrange(0, old(self).pending().len() as int) == old(self).pending()
                && final(self).pending().last()@ == channel_id@,
            !r ==> final(self).pending() == old(self).pending(),
    {
        if self.find_pending(channel_id).is_some() {
            return false;
        }
        let ghost prev = self.pending@;
        self.pending.push(channel_id.to_owned());
        proof {
            assert(self.pending@.subrange(0, prev.len() as int) =~= prev);
            assert forall|i: int, j: int|
                0 <= i < j < self.pending@.len() implies self.pending@[i]@
                != self.pending@[j]@ by {
                if j < prev.len() {
                    assert(prev[i]@ != prev[j]@);
                } else {
                    assert(self.pending@[i] == prev[i]);
                }
            }
        }
        true
    }

    /// Drops the pending entry after the prompt could not be delivered; the
    /// request fails immediately, without a wait.
    pub fn delivery_failed(&mut self, channel_id: &str) -> (r: ProvisioningError)
        requires
            old(self).wf(),
        ensures
            final(self).wf(),
            final(self).timeout() == old(self).timeout(),
            r == ProvisioningError::DeliveryFailed,
            !pending_has(final(self).pending(), channel_id@),
            pending_has(old(self).pending(), channel_id@) ==> exists|k: int|
                0 <= k < old(self).pending().len() && old(self).pending()[k]@ == channel_id@
                    && final(self).pending() == old(self).pending().remove(k),
            !pending_has(old(self).pending(), channel_id@) ==> final(self).pending() == old(
                self,
            ).pending(),
    {
        self.remove_pending(channel_id);
        ProvisioningError::DeliveryFailed
    }

    fn remove_pending(&mut self, channel_id: &str) -> (r: bool)
        requires
            old(self).wf(),
        ensures
            final(self).wf(),
            final(self).timeout() == old(self).timeout(),
            !pending_has(final(self).pending(), channel_id@),
            r == pending_has(old(self).pending(), channel_id@),
            r ==> exists|k: int|
                0 <= k < old(self).pending().len() && old(self).pending()[k]@ == channel_id@
                    && final(self).pending() == old(self).pending().remove(k),
            !r ==> final(self).pending() == old(self).pending(),
    {
        match self.find_pending(channel_id) {
            Some(k) => {
                self.pending.remove(k);
                proof {
                    let removed = old(self).pending().remove(k as int);
                    assert(self.pending@ =~= removed);
                    assert forall|i: int, j: int|
                        0 <= i < j < removed.len() implies removed[i]@ != removed[j]@ by {
                        let i0: int = if i < k { i } else { i + 1 };
                        let j0: int = if j < k { j } else { j + 1 };
                        assert(removed[i] == old(self).pending()[i0]);
                        assert(removed[j] == old(self).pending()[j0]);
                    }
                    assert forall|j: int|
                        0 <= j < self.pending@.len() implies self.pending@[j]@ != channel_id@ by {
                        let j0: int = if j < k { j } else { j + 1 };
                        assert(self.pending@[j] == old(self).pending()[j0]);
                        if j0 != k as int {
                            assert(old(self).pending()[j0]@ != old(self).pending()[k as int]@);
                        }
                    }
                }
                true
            },
            None => false,
        }
    }

    /// Resolves a pending request: pops the entry and reports `Applied`, or
    /// `Expired` when none was pending (a late, duplicate or stray answer).
    /// On `Applied` the caller fires the decision signal with `allow`.
    pub fn mark_approval(&mut self, channel_id: &str, allow: bool) -> (r: ApprovalResponseStatus)
        requires
            old(self).wf(),
        ensures
            final(self).wf(),
            final(self).timeout() == old(self).timeout(),
            !pending_has(final(self).pending(), channel_id@),
            r == (if pending_has(old(self).pending(), channel_id@) {
                ApprovalResponseStatus::Applied
            } else {
                ApprovalResponseStatus::Expired
            }),
            r == ApprovalResponseStatus::Applied ==> exists|k: int|
                0 <= k < old(self).pending().len() && old(self).pending()[k]@ == channel_id@
                    && final(self).pending() == old(self).pending().remove(k),
            r == ApprovalResponseStatus::Expired ==> final(self).pending() == old(self).pending(),
    {
        let removed = self.remove_pending(channel_id);
        let _ = allow;
        if removed {
            ApprovalResponseStatus::Applied
        } else {
            ApprovalResponseStatus::Expired
        }
    }

    /// Maps what the timed wait observed to the request's outcome: a fired
    /// signal decides approval or decline, a dropped signal is a
    /// cancellation, and an elapsed deadline times the request out and drops
    /// its pending entry.
    pub fn finish_wait(&mut self, channel_id: &str, outcome: WaitOutcome) -> (r: Result<
        (),
        ProvisioningError,
    >)
        requires
            old(self).wf(),
        ensures
            final(self).wf(),
            final(self).timeout() == old(self).timeout(),
            r == (match outcome {
                WaitOutcome::Decision(true) => Ok::<(), ProvisioningError>(()),
                WaitOutcome::Decision(false) => Err(ProvisioningError::Declined),
                WaitOutcome::SignalDropped => Err(ProvisioningError::Cancelled),
                WaitOutcome::TimedOut => Err(ProvisioningError::TimedOut),
            }),
            outcome is TimedOut ==> !pending_has(final(self).pending(), channel_id@),
            !(outcome is TimedOut) ==> final(self).pending() == old(self).pending(),
    {
        match outcome {
            WaitOutcome::Decision(true) => Ok(()),
            WaitOutcome::Decision(false) => Err(ProvisioningError::Declined),
            WaitOutcome::SignalDropped => Err(ProvisioningError::Cancelled),
            WaitOutcome::TimedOut => {
                self.remove_pending(channel_id);
                Err(ProvisioningError::TimedOut)
            },
        }
    }

    /// The prompt deadline in whole minutes: the wait, at least one minute,
    /// rounded up to the minute.
    pub fn timeout_minutes(&self) -> (r: u64)
        ensures
            r == ({
                let secs: int = if self.timeout() / 1000 >= 60 {
                    self.timeout() as int / 1000
                } else {
                    60int
                };
                (secs + 59) / 60
            }),
    {
        proof {
            assert((self.timeout_ms / 1000) as int <= self.timeout_ms as int) by (nonlinear_arith);
        }
        let secs: u64 = if self.timeout_ms / 1000 >= 60 {
            self.timeout_ms / 1000
        } else {
            60
        };
        (secs + 59) / 60
    }

    /// The consent prompt delivered to the remote channel, naming the
    /// requestor and the rounded-up deadline.
    pub fn prompt_message(&self, requestor: &str) -> (r: String)
        ensures
            r@ == requestor@
                + " on matrix would like to bridge this channel. Someone with permission to manage webhooks please reply with `!matrix approve` or `!matrix deny` in the next "@
                + spec_u64_str(
                ({
                    let secs: int = if self.timeout() / 1000 >= 60 {
                        self.timeout() as int / 1000
                    } else {
                        60int
                    };
                    (secs + 59) / 60
                }),
            ) + " minutes."@,
    {
        let minutes = self.timeout_minutes();
        let mut out = requestor.to_owned();
        out.append(
            " on matrix would like to bridge this channel. Someone with permission to manage webhooks please reply with `!matrix approve` or `!matrix deny` in the next ",
        );
        let rendered = u64_to_string(minutes);
        out.append(rendered.as_str());
        out.append(" minutes.");
        out
    }
}

impl Default for ProvisioningCoordinator {
    /// The coordinator with the default five-minute wait.
    fn default() -> (r: ProvisioningCoordinator)
        ensures
            r.wf(),
            r.pending().len() == 0,
            r.timeout() == DEFAULT_PERMISSION_TIMEOUT_MS,
    {
        ProvisioningCoordinator::new(DEFAULT_PERMISSION_TIMEOUT_MS)
    }
}

/// Requesting twice for one channel before resolution, then resolving once,
/// yields at most one applied outcome: the coordinator's table holds at most
/// one entry per channel, the second registration is rejected with the table
/// unchanged, and once a resolution pops the entry a second resolution of
/// the same channel reports `Expired`.
pub proof fn lemma_single_applied_resolution(pending: Seq<String>, entry: String)
    requires
        forall|i: int, j: int| 0 <= i < j < pending.len() ==> pending[i]@ != pending[j]@,
        !pending_has(pending, entry@),
    ensures
        forall|k: int, l: int|
            0 <= k < pending.push(entry).len() && 0 <= l < pending.push(entry).len()
                && pending.push(entry)[k]@ == entry@ && pending.push(entry)[l]@ == entry@ ==> k
                == l,
{
    let table = pending.push(entry);
    assert forall|k: int, l: int|
        0 <= k < table.len() && 0 <= l < table.len() && table[k]@ == entry@ && table[l]@ == entry@
        implies k == l by {
        if k < pending.len() {
            assert(pending[k]@ == entry@);
            assert(pending_has(pending, entry@));
        }
        if l < pending.len() {
            assert(pending[l]@ == entry@);
            assert(pending_has(pending, entry@));
        }
    }
}

} // verus!
