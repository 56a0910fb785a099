//! Matrix-side identity and content helpers: the ghost-identity namespace,
//! message-content construction, the event-age gate and the event dispatch
//! table. The homeserver client lives outside the library.

use vstd::prelude::*;

use crate::events::MatrixEvent;
use crate::events::MatrixEventContent;
use crate::events::MessageText;
use crate::events::RelatesTo;
use crate::text::spec_starts_with;
use crate::text::spec_ends_with;

verus! {

/// The Matrix id of the ghost standing for a Slack user.
pub fn ghost_user_id(slack_user_id: &str, domain: &str) -> (r: String)
    ensures
        r@ == "@_slack_"@ + slack_user_id@ + ":"@ + domain@,
{
    let mut out = "@_slack_".to_owned();
    out.append(slack_user_id);
    out.append(":");
    out.append(domain);
    out
}

/// Whether a Matrix id lies in the bridge's ghost namespace.
pub fn is_namespaced_user(user_id: &str) -> (r: bool)
    ensures
        r == spec_starts_with(user_id@, "@_slack_"@),
{
    crate::text::starts_with(user_id, "@_slack_")
}

/// The Matrix id of the bridge's own bot.
pub fn bot_user_id(sender_localpart: &str, domain: &str) -> (r: String)
    ensures
        r@ == "@"@ + sender_localpart@ + ":"@ + domain@,
{
    let mut out = "@".to_owned();
    out.append(sender_localpart);
    out.append(":");
    out.append(domain);
    out
}

/// The Slack user id inside a ghost Matrix id, if the id decomposes as
/// `@_slack_<id>:<domain>` with a non-empty id free of colons.
pub open spec fn spec_ghost_mxid_parts(mxid: Seq<char>, domain: Seq<char>) -> Option<Seq<char>> {
    let pre = "@_slack_"@;
    let suf = ":"@ + domain;
    if spec_starts_with(mxid, pre) && spec_ends_with(
        mxid.subrange(pre.len() as int, mxid.len() as int),
        suf,
    ) {
        let mid = mxid.subrange(pre.len() as int, mxid.len() - suf.len());
        if mid.len() > 0 && !mid.contains(':') {
            Some(mid)
        } else {
            None
        }
    } else {
        None
    }
}

/// Recovers the Slack user id from a ghost Matrix id.
pub fn slack_user_id_from_mxid(mxid: &str, domain: &str) -> (r: Option<String>)
    ensures
        match r {
            Some(id) => spec_ghost_mxid_parts(mxid@, domain@) == Some(id@),
            None => spec_ghost_mxid_parts(mxid@, domain@) is None,
        },
{
    let localpart = match crate::text::strip_prefix_str(mxid, "@_slack_") {
        Some(l) => l,
        None => {
            return None;
        },
    };
    let mut suffix = ":".to_owned();
    suffix.append(domain);
    let id = match crate::text::strip_suffix_str(localpart.as_str(), suffix.as_str()) {
        Some(i) => i,
        None => {
            return None;
        },
    };
    proof {
        assert(suffix@ == ":"@ + domain@);
        assert(id@ =~= mxid@.subrange(
            "@_slack_"@.len() as int,
            mxid@.len() - (":"@ + domain@).len(),
        ));
    }
    if id.as_str().is_empty() || crate::text::contains_char(id.as_str(), ':') {
        return None;
    }
    Some(id)
}

/// The content of an outbound Matrix text message: a reply relation when
/// replying, and for an edit the replacement content plus a `* `-prefixed
/// fallback body.
pub fn build_matrix_message_content(body: &str, reply_to: Option<&str>, edit_of: Option<&str>) -> (r:
    MatrixEventContent)
    ensures
        r.text.msgtype matches Some(t) && t@ == "m.text"@,
        r.text.url is None,
        match edit_of {
            Some(edit_id) => {
                &&& r.text.body matches Some(b) && b@ == "* "@ + body@
                &&& r.new_content matches Some(nc) && (nc.body matches Some(b) && b@ == body@) && (
                nc.msgtype matches Some(t) && t@ == "m.text"@)
                &&& r.relates_to matches Some(rt) && (rt.rel_type matches Some(k) && k@
                    == "m.replace"@) && (rt.event_id matches Some(e) && e@ == edit_id@)
                    && rt.in_reply_to_event_id is None
            },
            None => {
                &&& r.text.body matches Some(b) && b@ == body@
                &&& r.new_content is None
                &&& match reply_to {
                    Some(reply_id) => r.relates_to matches Some(rt) && (
                    rt.in_reply_to_event_id matches Some(e) && e@ == reply_id@) && rt.rel_type
                        is None && rt.event_id is None,
                    None => r.relates_to is None,
                }
            },
        },
{
    match edit_of {
        Some(edit_id) => {
            let mut fallback = "* ".to_owned();
            fallback.append(body);
            MatrixEventContent {
                text: MessageText {
                    msgtype: Some("m.text".to_owned()),
                    body: Some(fallback),
                    url: None,
                },
                relates_to: Some(
                    RelatesTo {
                        in_reply_to_event_id: None,
                        rel_type: Some("m.replace".to_owned()),
                        event_id: Some(edit_id.to_owned()),
                    },
                ),
                new_content: Some(
                    MessageText {
                        msgtype: Some("m.text".to_owned()),
                        body: Some(body.to_owned()),
                        url: None,
                    },
                ),
                membership: None,
                reason: None,
                name: None,
                topic: None,
                power_level_users: Vec::new(),
            }
        },
        None => {
            MatrixEventContent {
                text: MessageText {
                    msgtype: Some("m.text".to_owned()),
                    body: Some(body.to_owned()),
                    url: None,
                },
                relates_to: match reply_to {
                    Some(reply_id) => Some(
                        RelatesTo {
                            in_reply_to_event_id: Some(reply_id.to_owned()),
                            rel_type: None,
                            event_id: None,
                        },
                    ),
                    None => None,
                },
                new_content: None,
                membership: None,
                reason: None,
                name: None,
                topic: None,
                power_level_users: Vec::new(),
            }
        },
    }
}

/// Whether an event is young enough to handle: a missing timestamp or one in
/// the future is allowed through, a non-positive limit admits everything,
/// otherwise the age must not exceed the limit.
pub open spec fn spec_check_event_age(
    timestamp: Option<i64>,
    age_limit_ms: i64,
    now_ms: i64,
) -> bool {
    if age_limit_ms <= 0 {
        true
    } else {
        match timestamp {
            Some(ts) => ts > now_ms || now_ms - ts <= age_limit_ms,
            None => true,
        }
    }
}

pub fn check_event_age(event: &MatrixEvent, age_limit_ms: i64, now_ms: i64) -> (r: bool)
    ensures
        r == spec_check_event_age(event.timestamp, age_limit_ms, now_ms),
{
    if age_limit_ms <= 0 {
        return true;
    }
    match event.timestamp {
        Some(ts) => {
            if ts > now_ms {
                true
            } else {
                (now_ms as i128) - (ts as i128) <= (age_limit_ms as i128)
            }
        },
        None => true,
    }
}

/// Reads the clock and applies the event-age rule at that instant.
pub fn event_within_age_limit(event: &MatrixEvent, age_limit_ms: i64) -> (r: bool)
    ensures
        exists|now_ms: i64| r == spec_check_event_age(event.timestamp, age_limit_ms, now_ms),
{
    let now_ms = crate::clock::now_unix_millis();
    let r = check_event_age(event, age_limit_ms, now_ms);
    proof {
        assert(r == spec_check_event_age(event.timestamp, age_limit_ms, now_ms));
    }
    r
}

/// Which handler a Matrix event type dispatches to.
#[derive(Debug, Clone, Copy, PartialEq, Eq, Structural)]
pub enum MatrixEventRoute {
    RoomMessage,
    RoomMember,
    Presence,
    RoomEncryption,
    RoomName,
    RoomTopic,
    RoomPowerLevels,
    Unhandled,
}

pub open spec fn spec_route_matrix_event(event_type: Seq<char>) -> MatrixEventRoute {
    if event_type == "m.room.message"@ {
        MatrixEventRoute::RoomMessage
    } else if event_type == "m.room.member"@ {
        MatrixEventRoute::RoomMember
    } else if event_type == "m.presence"@ {
        MatrixEventRoute::Presence
    } else if event_type == "m.room.encryption"@ {
        MatrixEventRoute::RoomEncryption
    } else if event_type == "m.room.name"@ {
        MatrixEventRoute::RoomName
    } else if event_type == "m.room.topic"@ {
        MatrixEventRoute::RoomTopic
    } else if event_type == "m.room.power_levels"@ {
        MatrixEventRoute::RoomPowerLevels
    } else {
        MatrixEventRoute::Unhandled
    }
}

/// The dispatch table of the inbound Matrix transaction processor.
pub fn route_matrix_event(event_type: &str) -> (r: MatrixEventRoute)
    ensures
        r == spec_route_matrix_event(event_type@),
{
    if crate::text::str_eq(event_type, "m.room.message") {
        MatrixEventRoute::RoomMessage
    } else if crate::text::str_eq(event_type, "m.room.member") {
        MatrixEventRoute::RoomMember
    } else if crate::text::str_eq(event_type, "m.presence") {
        MatrixEventRoute::Presence
    } else if crate::text::str_eq(event_type, "m.room.encryption") {
        MatrixEventRoute::RoomEncryption
    } else if crate::text::str_eq(event_type, "m.room.name") {
        MatrixEventRoute::RoomName
    } else if crate::text::str_eq(event_type, "m.room.topic") {
        MatrixEventRoute::RoomTopic
    } else if crate::text::str_eq(event_type, "m.room.power_levels") {
        MatrixEventRoute::RoomPowerLevels
    } else {
        MatrixEventRoute::Unhandled
    }
}

} // verus!
