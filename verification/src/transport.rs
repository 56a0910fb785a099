//! The realtime-transport decisions for the Slack side: frame handling on
//! the persistent duplex connection (acknowledgement, keepalive, forced
//! disconnect, event dispatch), the message subtype rules, self-origin
//! suppression, the reconnect backoff, and the sender-capability rules. The
//! socket itself, JSON decoding and the sleeps run outside the library and
//! feed these functions plain values.

use vstd::prelude::*;

use crate::text::string_eq_str;

verus! {

pub const INITIAL_LOGIN_RETRY_SECONDS: u64 = 2;

pub const MAX_LOGIN_RETRY_SECONDS: u64 = 300;

pub const PERMISSION_CACHE_TTL_SECONDS: u64 = 300;

/// The retry delay after a failed attempt: doubled, up to the fixed ceiling.
pub fn next_retry_seconds(current: u64) -> (r: u64)
    requires
        1 <= current <= MAX_LOGIN_RETRY_SECONDS,
    ensures
        r == (if current * 2 <= MAX_LOGIN_RETRY_SECONDS {
            current * 2
        } else {
            MAX_LOGIN_RETRY_SECONDS as int
        }),
        1 <= r <= MAX_LOGIN_RETRY_SECONDS,
{
    let doubled = current * 2;
    if doubled <= MAX_LOGIN_RETRY_SECONDS {
        doubled
    } else {
        MAX_LOGIN_RETRY_SECONDS
    }
}

/// The retry delay after a successful connect: back to the initial value.
pub fn reset_retry_seconds() -> (r: u64)
    ensures
        r == INITIAL_LOGIN_RETRY_SECONDS,
{
    INITIAL_LOGIN_RETRY_SECONDS
}

/// One inbound event of the events API, with the fields the dispatch reads.
/// The adapter outside the library copies them from the wire JSON.
#[derive(Debug, Clone, PartialEq, Eq)]
pub struct SlackEvent {
    /// The declared event type (`message`, `user_typing`, …).
    pub event_type: String,
    /// The message subtype, when the event declares one.
    pub subtype: Option<String>,
    /// The channel the event speaks about.
    pub channel: Option<String>,
    /// The acting user id.
    pub user: Option<String>,
    /// The acting bot id, for webhook-authored messages.
    pub bot_id: Option<String>,
    /// The event's own timestamp id.
    pub ts: Option<String>,
    /// The id of the deleted message, for a delete.
    pub deleted_ts: Option<String>,
    /// The thread the message belongs to, when threaded.
    pub thread_ts: Option<String>,
    /// The raw message text.
    pub text: Option<String>,
    /// The reaction name, for reaction events.
    pub reaction: Option<String>,
    /// The channel of the item a reaction points at.
    pub item_channel: Option<String>,
    /// The id of the message a reaction points at.
    pub item_ts: Option<String>,
    /// For an edit, the inner (current) message replaces these fields; the
    /// adapter hands the inner message here and sets the edit flag.
    pub attachment_links: Vec<String>,
}

impl SlackEvent {
    /// An event with only a type, for building field by field.
    pub fn empty(event_type: String) -> (r: SlackEvent)
        ensures
            r.event_type == event_type,
            r.subtype is None,
            r.channel is None,
            r.user is None,
            r.bot_id is None,
            r.ts is None,
            r.deleted_ts is None,
            r.thread_ts is None,
            r.text is None,
            r.reaction is None,
            r.item_channel is None,
            r.item_ts is None,
            r.attachment_links@.len() == 0,
    {
        SlackEvent {
            event_type,
            subtype: None,
            channel: None,
            user: None,
            bot_id: None,
            ts: None,
            deleted_ts: None,
            thread_ts: None,
            text: None,
            reaction: None,
            item_channel: None,
            item_ts: None,
            attachment_links: Vec::new(),
        }
    }
}

/// One frame of the socket-mode stream, with the envelope fields the loop
/// reads: the envelope id to acknowledge, the declared frame type, and the
/// wrapped events-API event when the frame carries one.
#[derive(Debug, Clone, PartialEq, Eq)]
pub struct SocketFrame {
    pub envelope_id: Option<String>,
    pub frame_type: Option<String>,
    pub event: Option<SlackEvent>,
}

/// What the main loop does with one frame. Protocol-level ping frames are
/// answered with the matching keepalive by the websocket layer itself,
/// before a frame reaches this plan; only decoded payload frames arrive
/// here.
#[derive(Debug, Clone, PartialEq, Eq)]
pub struct FramePlan {
    /// Send an envelope-id-only acknowledgement first, whatever follows.
    pub ack_envelope_id: Option<String>,
    /// Leave the connection and fall through to reconnect.
    pub disconnect: bool,
    /// Unwrap and dispatch this event.
    pub dispatch: Option<SlackEvent>,
}

/// Plans one frame: an envelope id is acknowledged immediately and
/// unconditionally; a declared `disconnect` type exits the connection and
/// nothing is dispatched; otherwise the wrapped event, if any, goes to the
/// dispatcher.
pub fn plan_socket_frame(frame: SocketFrame) -> (r: FramePlan)
    ensures
        r.ack_envelope_id == frame.envelope_id,
        r.disconnect == (frame.frame_type matches Some(t) && t@ == "disconnect"@),
        r.disconnect ==> r.dispatch is None,
        !r.disconnect ==> r.dispatch == frame.event,
{
    let is_disconnect: bool = match &frame.frame_type {
        Some(t) => string_eq_str(t, "disconnect"),
        None => false,
    };
    FramePlan {
        ack_envelope_id: frame.envelope_id,
        disconnect: is_disconnect,
        dispatch: if is_disconnect {
            None
        } else {
            frame.event
        },
    }
}

/// Where the dispatcher sends an event.
#[derive(Debug, Clone, PartialEq, Eq)]
pub enum SlackEventRoute {
    /// Forward as a (new or edited) message through the bridge pipeline.
    ForwardMessage { is_edit: bool },
    /// Run the redaction pipeline for the deleted message's id.
    DeleteMessage,
    Typing,
    UserChange,
    ReactionAdded,
    ReactionRemoved,
    MemberJoinedChannel,
    MemberLeftChannel,
    ChannelMarked,
    /// Unrecognized types and suppressed subtypes are ignored.
    Ignore,
}

pub open spec fn spec_opt_view(s: Option<String>) -> Option<Seq<char>> {
    match s {
        Some(x) => Some(x@),
        None => None,
    }
}

/// The message subtype rules: a delete keys the redaction pipeline, an edit
/// re-runs the forward path with the edit flag set, a bot message is ignored
/// unconditionally, any other declared subtype is ignored, and no subtype is
/// an ordinary new message.
pub open spec fn spec_route_message(subtype: Option<Seq<char>>) -> SlackEventRoute {
    match subtype {
        Some(s) => if s == "message_deleted"@ {
            SlackEventRoute::DeleteMessage
        } else if s == "message_changed"@ {
            SlackEventRoute::ForwardMessage { is_edit: true }
        } else {
            SlackEventRoute::Ignore
        },
        None => SlackEventRoute::ForwardMessage { is_edit: false },
    }
}

/// The dispatch table over the declared event type.
pub open spec fn spec_route_event(event_type: Seq<char>, subtype: Option<Seq<char>>) -> SlackEventRoute {
    if event_type == "message"@ {
        spec_route_message(subtype)
    } else if event_type == "user_typing"@ {
        SlackEventRoute::Typing
    } else if event_type == "user_change"@ {
        SlackEventRoute::UserChange
    } else if event_type == "reaction_added"@ {
        SlackEventRoute::ReactionAdded
    } else if event_type == "reaction_removed"@ {
        SlackEventRoute::ReactionRemoved
    } else if event_type == "member_joined_channel"@ {
        SlackEventRoute::MemberJoinedChannel
    } else if event_type == "member_left_channel"@ {
        SlackEventRoute::MemberLeftChannel
    } else if event_type == "channel_marked"@ {
        SlackEventRoute::ChannelMarked
    } else {
        SlackEventRoute::Ignore
    }
}

/// Routes an event per the dispatch table and the message subtype rules.
pub fn route_slack_event(event: &SlackEvent) -> (r: SlackEventRoute)
    ensures
        r == spec_route_event(event.event_type@, spec_opt_view(event.subtype)),
{
    if string_eq_str(&event.event_type, "message") {
        match &event.subtype {
            Some(s) => {
                if string_eq_str(s, "message_deleted") {
                    SlackEventRoute::DeleteMessage
                } else if string_eq_str(s, "message_changed") {
                    SlackEventRoute::ForwardMessage { is_edit: true }
                } else {
                    SlackEventRoute::Ignore
                }
            },
            None => SlackEventRoute::ForwardMessage { is_edit: false },
        }
    } else if string_eq_str(&event.event_type, "user_typing") {
        SlackEventRoute::Typing
    } else if string_eq_str(&event.event_type, "user_change") {
        SlackEventRoute::UserChange
    } else if string_eq_str(&event.event_type, "reaction_added") {
        SlackEventRoute::ReactionAdded
    } else if string_eq_str(&event.event_type, "reaction_removed") {
        SlackEventRoute::ReactionRemoved
    } else if string_eq_str(&event.event_type, "member_joined_channel") {
        SlackEventRoute::MemberJoinedChannel
    } else if string_eq_str(&event.event_type, "member_left_channel") {
        SlackEventRoute::MemberLeftChannel
    } else if string_eq_str(&event.event_type, "channel_marked") {
        SlackEventRoute::ChannelMarked
    } else {
        SlackEventRoute::Ignore
    }
}

/// Whether an event originates from the bridge's own authenticated identity
/// (by acting user id or by bot id) and must be dropped before anything else.
pub fn is_own_message(
    sender_user_id: Option<&String>,
    sender_bot_id: Option<&String>,
    own_user_id: Option<&String>,
    own_bot_id: Option<&String>,
) -> (r: bool)
    ensures
        r == ({
            ||| (sender_user_id matches Some(s) && own_user_id matches Some(o) && s@ == o@)
            ||| (sender_bot_id matches Some(s) && own_bot_id matches Some(o) && s@ == o@)
        }),
{
    let user_match: bool = match (sender_user_id, own_user_id) {
        (Some(s), Some(o)) => crate::text::str_eq(s.as_str(), o.as_str()),
        _ => false,
    };
    let bot_match: bool = match (sender_bot_id, own_bot_id) {
        (Some(s), Some(o)) => crate::text::str_eq(s.as_str(), o.as_str()),
        _ => false,
    };
    user_match || bot_match
}

/// The reply id a threaded message carries: the thread id, unless the
/// message is the thread's own root.
pub fn reply_to_from_thread(thread_ts: Option<&String>, ts: &str) -> (r: Option<String>)
    ensures
        match r {
            Some(t) => thread_ts matches Some(x) && x@ == t@ && t@ != ts@,
            None => thread_ts is None || (thread_ts matches Some(x) && x@ == ts@),
        },
{
    match thread_ts {
        Some(t) => {
            if string_eq_str(t, ts) {
                None
            } else {
                Some(t.clone())
            }
        },
        None => None,
    }
}

/// The capability set a sender profile grants: any of the administrator
/// flags grants the four management capabilities, nothing otherwise.
pub fn permissions_from_flags(is_admin: bool, is_owner: bool, is_primary_owner: bool) -> (r: Vec<
    String,
>)
    ensures
        (is_admin || is_owner || is_primary_owner) ==> r@.len() == 4 && r@[0]@
            == "MANAGE_WEBHOOKS"@ && r@[1]@ == "MANAGE_CHANNELS"@ && r@[2]@ == "BAN_MEMBERS"@
            && r@[3]@ == "KICK_MEMBERS"@,
        !(is_admin || is_owner || is_primary_owner) ==> r@.len() == 0,
{
    let mut out: Vec<String> = Vec::new();
    if is_admin || is_owner || is_primary_owner {
        out.push("MANAGE_WEBHOOKS".to_owned());
        out.push("MANAGE_CHANNELS".to_owned());
        out.push("BAN_MEMBERS".to_owned());
        out.push("KICK_MEMBERS".to_owned());
    }
    out
}

/// Picks the first available link of each shared file, skipping files with
/// none and any link already taken.
pub fn extract_slack_attachments(files: &Vec<FileLinks>) -> (r: Vec<String>)
    ensures
        forall|i: int, j: int| 0 <= i < j < r@.len() ==> r@[i]@ != r@[j]@,
        links_from(files@, r@),
{
    let mut out: Vec<String> = Vec::new();
    let mut i: usize = 0;
    while i < files.len()
        invariant
            i <= files@.len(),
            forall|a: int, b: int| 0 <= a < b < out@.len() ==> out@[a]@ != out@[b]@,
            links_from(files@, out@),
        decreases files@.len() - i,
    {
        let link: Option<&String> = first_link(&files[i]);
        if let Some(l) = link {
            if !crate::parsers::vec_contains_string(&out, l.as_str()) {
                let ghost prev = out@;
                out.push(l.clone());
                proof {
                    assert(spec_first_link(files@[i as int]) == Some(out@[prev.len() as int]@));
                    assert forall|a: int, b: int|
                        0 <= a < b < out@.len() implies out@[a]@ != out@[b]@ by {
                        if b < prev.len() {
                            assert(prev[a]@ != prev[b]@);
                        } else {
                            assert(out@[a] == prev[a]);
                        }
                    }
                    assert forall|a: int| #![trigger out@[a]]
                        0 <= a < out@.len() implies exists|k: int|
                        0 <= k < files@.len() && spec_first_link(#[trigger] files@[k]) == Some(
                            out@[a]@,
                        ) by {
                        assert(links_from(files@, prev));
                        if a < prev.len() {
                            assert(out@[a] == prev[a]);
                            let k0 = choose|k: int|
                                0 <= k < files@.len() && spec_first_link(#[trigger] files@[k])
                                    == Some(prev[a]@);
                            assert(spec_first_link(files@[k0]) == Some(out@[a]@));
                        } else {
                            assert(spec_first_link(files@[i as int]) == Some(out@[a]@));
                        }
                    }
                }
            }
        }
        i = i + 1;
    }
    out
}

/// Every collected link is the first link of one of the files.
pub open spec fn links_from(files: Seq<FileLinks>, out: Seq<String>) -> bool {
    forall|i: int| #![trigger out[i]]
        0 <= i < out.len() ==> exists|k: int|
            0 <= k < files.len() && spec_first_link(#[trigger] files[k]) == Some(out[i]@)
}

/// The download links a shared file advertises, most durable first.
#[derive(Debug, Clone, PartialEq, Eq)]
pub struct FileLinks {
    pub permalink_public: Option<String>,
    pub permalink: Option<String>,
    pub url_private_download: Option<String>,
    pub url_private: Option<String>,
}

/// The first link a file offers, in preference order.
pub open spec fn spec_first_link(f: FileLinks) -> Option<Seq<char>> {
    match f.permalink_public {
        Some(l) => Some(l@),
        None => match f.permalink {
            Some(l) => Some(l@),
            None => match f.url_private_download {
                Some(l) => Some(l@),
                None => match f.url_private {
                    Some(l) => Some(l@),
                    None => None,
                },
            },
        },
    }
}

fn first_link(f: &FileLinks) -> (r: Option<&String>)
    ensures
        match r {
            Some(l) => spec_first_link(*f) matches Some(x) && x == l@,
            None => spec_first_link(*f) is None,
        },
{
    if let Some(l) = &f.permalink_public {
        Some(l)
    } else if let Some(l) = &f.permalink {
        Some(l)
    } else if let Some(l) = &f.url_private_download {
        Some(l)
    } else if let Some(l) = &f.url_private {
        Some(l)
    } else {
        None
    }
}

} // verus!
