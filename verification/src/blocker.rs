//! The bridge blocker: the admission state the bridge publishes, and the
//! pure rules that move it between active, paused and user-limited. The
//! store counts feeding a check come from the caller.

use vstd::prelude::*;

use crate::text::spec_u64_str;
use crate::text::u64_to_string;

verus! {

pub const DEFAULT_USER_LIMIT: u32 = 100;

/// Whether the bridge is admitting work.
#[derive(Debug, Clone, Copy, PartialEq, Eq, Structural)]
pub enum BridgeState {
    Active,
    Paused,
    Limited,
}

/// The published bridge status.
#[derive(Debug, Clone, PartialEq, Eq)]
pub struct BridgeStatus {
    pub state: BridgeState,
    pub active_users: u64,
    pub total_rooms: u64,
    pub messages_sent: u64,
    pub messages_received: u64,
    /// Unix milliseconds of the last limit check.
    pub last_check: i64,
    pub pause_reason: Option<String>,
}

impl BridgeStatus {
    /// The status a fresh bridge starts in: active, with zero counters.
    pub fn initial(now_ms: i64) -> (r: BridgeStatus)
        ensures
            r.state == BridgeState::Active,
            r.active_users == 0,
            r.total_rooms == 0,
            r.messages_sent == 0,
            r.messages_received == 0,
            r.last_check == now_ms,
            r.pause_reason is None,
    {
        BridgeStatus {
            state: BridgeState::Active,
            active_users: 0,
            total_rooms: 0,
            messages_sent: 0,
            messages_received: 0,
            last_check: now_ms,
            pause_reason: None,
        }
    }
}

pub open spec fn spec_limit_reason(active_users: u64, user_limit: u32) -> Seq<char> {
    "User limit exceeded: "@ + spec_u64_str(active_users as int) + " > "@ + spec_u64_str(
        user_limit as int,
    )
}

/// One limit check: the counters and check instant are refreshed; exceeding
/// the user limit moves the bridge to `Limited` with a reason, and a
/// previously limited bridge back under the limit returns to `Active`. A
/// paused bridge stays paused.
pub fn check_and_update_status(
    status: BridgeStatus,
    active_users: u64,
    total_rooms: u64,
    user_limit: u32,
    now_ms: i64,
) -> (r: BridgeStatus)
    ensures
        r.active_users == active_users,
        r.total_rooms == total_rooms,
        r.messages_sent == status.messages_sent,
        r.messages_received == status.messages_received,
        r.last_check == now_ms,
        active_users > user_limit ==> r.state == BridgeState::Limited && (r.pause_reason matches
        Some(m) && m@ == spec_limit_reason(active_users, user_limit)),
        active_users <= user_limit && status.state == BridgeState::Limited ==> r.state
            == BridgeState::Active && r.pause_reason is None,
        active_users <= user_limit && status.state != BridgeState::Limited ==> r.state
            == status.state && r.pause_reason == status.pause_reason,
{
    let mut out = status;
    out.active_users = active_users;
    out.total_rooms = total_rooms;
    out.last_check = now_ms;
    if active_users > user_limit as u64 {
        out.state = BridgeState::Limited;
        let mut reason = "User limit exceeded: ".to_owned();
        let users_text = u64_to_string(active_users);
        reason.append(users_text.as_str());
        reason.append(" > ");
        let limit_text = u64_to_string(user_limit as u64);
        reason.append(limit_text.as_str());
        out.pause_reason = Some(reason);
    } else if matches!(out.state, BridgeState::Limited) {
        out.state = BridgeState::Active;
        out.pause_reason = None;
    }
    out
}

/// Pausing records the reason and blocks admission until a resume.
pub fn pause_status(status: BridgeStatus, reason: &str) -> (r: BridgeStatus)
    ensures
        r.state == BridgeState::Paused,
        r.pause_reason matches Some(m) && m@ == reason@,
        r.active_users == status.active_users,
        r.total_rooms == status.total_rooms,
        r.messages_sent == status.messages_sent,
        r.messages_received == status.messages_received,
        r.last_check == status.last_check,
{
    let mut out = status;
    out.state = BridgeState::Paused;
    out.pause_reason = Some(reason.to_owned());
    out
}

/// Resuming returns to active and clears the reason.
pub fn resume_status(status: BridgeStatus) -> (r: BridgeStatus)
    ensures
        r.state == BridgeState::Active,
        r.pause_reason is None,
        r.active_users == status.active_users,
        r.total_rooms == status.total_rooms,
        r.messages_sent == status.messages_sent,
        r.messages_received == status.messages_received,
        r.last_check == status.last_check,
{
    let mut out = status;
    out.state = BridgeState::Active;
    out.pause_reason = None;
    out
}

/// A bridge admits work only while active.
pub fn is_blocked(status: &BridgeStatus) -> (r: bool)
    ensures
        r == (status.state != BridgeState::Active),
{
    !matches!(status.state, BridgeState::Active)
}

/// A new user is admitted only while active and under the limit.
pub fn should_accept_new_user(status: &BridgeStatus, user_limit: u32) -> (r: bool)
    ensures
        r == (status.state == BridgeState::Active && status.active_users < user_limit),
{
    matches!(status.state, BridgeState::Active) && status.active_users < user_limit as u64
}

} // verus!
