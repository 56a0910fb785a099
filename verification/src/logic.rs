//! Small routing helpers shared by the bridge core: log previews, typing
//! requests, redaction requests and relation-mapping substitution.

use vstd::prelude::*;

use crate::models::MessageMapping;
use crate::models::RoomMapping;

verus! {

/// A redaction to apply on the Matrix side after a Slack-side delete.
#[derive(Debug, Clone, PartialEq, Eq)]
pub struct RedactionRequest {
    pub room_id: String,
    pub event_id: String,
    pub reason: &'static str,
}

/// A typing notification to forward to the Matrix side.
#[derive(Debug, Clone, PartialEq, Eq)]
pub struct TypingRequest {
    pub room_id: String,
    pub slack_user_id: String,
    pub typing: bool,
    pub timeout_ms: Option<u64>,
}

pub const SLACK_TYPING_TIMEOUT_MS: u64 = 4000;

pub const MAX_PREVIEW_CHARS: usize = 120;

/// What the log-preview helper returns: the text itself when it fits the
/// budget, else the first `MAX_PREVIEW_CHARS` characters with one ellipsis
/// appended.
pub open spec fn spec_preview_text(s: Seq<char>) -> Seq<char> {
    if s.len() <= MAX_PREVIEW_CHARS {
        s
    } else {
        s.subrange(0, MAX_PREVIEW_CHARS as int).push('…')
    }
}

/// Truncates a message body to the fixed preview budget for diagnostics.
pub fn preview_text(value: &str) -> (r: String)
    ensures
        r@ == spec_preview_text(value@),
{
    let n = value.unicode_len();
    if n <= MAX_PREVIEW_CHARS {
        value.to_owned()
    } else {
        let head = value.substring_char(0, MAX_PREVIEW_CHARS);
        let mut out = head.to_owned();
        out.append("…");
        proof {
            reveal_strlit("…");
            assert(out@ =~= spec_preview_text(value@));
        }
        out
    }
}

/// Replaces origin-space relation ids by destination-space ids where a
/// message mapping exists; a missing mapping leaves the foreign id in place.
pub fn apply_message_relation_mappings(
    outbound: &mut crate::message_flow::OutboundMatrixMessage,
    reply_mapping: Option<&MessageMapping>,
    edit_mapping: Option<&MessageMapping>,
)
    ensures
        final(outbound).body == old(outbound).body,
        final(outbound).attachments == old(outbound).attachments,
        final(outbound).reply_to == (match reply_mapping {
            Some(link) => Some(link.matrix_event_id),
            None => old(outbound).reply_to,
        }),
        final(outbound).edit_of == (match edit_mapping {
            Some(link) => Some(link.matrix_event_id),
            None => old(outbound).edit_of,
        }),
{
    if let Some(link) = reply_mapping {
        outbound.reply_to = Some(link.matrix_event_id.clone());
    }
    if let Some(link) = edit_mapping {
        outbound.edit_of = Some(link.matrix_event_id.clone());
    }
}

/// Replaces origin-space relation ids by destination-space ids on an
/// outbound Slack send where a message mapping exists; a missing mapping
/// leaves the foreign id in place.
pub fn apply_slack_relation_mappings(
    outbound: &mut crate::message_flow::OutboundSlackMessage,
    reply_mapping: Option<&MessageMapping>,
    edit_mapping: Option<&MessageMapping>,
)
    ensures
        final(outbound).content == old(outbound).content,
        final(outbound).attachments == old(outbound).attachments,
        final(outbound).embed == old(outbound).embed,
        final(outbound).use_embed == old(outbound).use_embed,
        final(outbound).reply_to == (match reply_mapping {
            Some(link) => Some(link.slack_message_id),
            None => old(outbound).reply_to,
        }),
        final(outbound).edit_of == (match edit_mapping {
            Some(link) => Some(link.slack_message_id),
            None => old(outbound).edit_of,
        }),
{
    if let Some(link) = reply_mapping {
        outbound.reply_to = Some(link.slack_message_id.clone());
    }
    if let Some(link) = edit_mapping {
        outbound.edit_of = Some(link.slack_message_id.clone());
    }
}

/// Builds the redaction request that mirrors a Slack-side message delete.
pub fn build_slack_delete_redaction_request(link: &MessageMapping) -> (r: RedactionRequest)
    ensures
        r.room_id == link.matrix_room_id,
        r.event_id == link.matrix_event_id,
        r.reason@ == "Deleted on Slack"@,
{
    RedactionRequest {
        room_id: link.matrix_room_id.clone(),
        event_id: link.matrix_event_id.clone(),
        reason: "Deleted on Slack",
    }
}

/// A delete without a message mapping is a normal drop, not an error.
pub fn slack_delete_redaction_request(link: Option<&MessageMapping>) -> (r: Option<
    RedactionRequest,
>)
    ensures
        match link {
            Some(l) => r matches Some(req) && req.room_id == l.matrix_room_id
                && req.event_id == l.matrix_event_id && req.reason@ == "Deleted on Slack"@,
            None => r is None,
        },
{
    match link {
        Some(l) => Some(build_slack_delete_redaction_request(l)),
        None => None,
    }
}

/// Builds the typing request forwarded to Matrix, with the fixed timeout.
pub fn build_slack_typing_request(matrix_room_id: &str, slack_user_id: &str) -> (r: TypingRequest)
    ensures
        r.room_id@ == matrix_room_id@,
        r.slack_user_id@ == slack_user_id@,
        r.typing,
        r.timeout_ms == Some(SLACK_TYPING_TIMEOUT_MS),
{
    TypingRequest {
        room_id: matrix_room_id.to_owned(),
        slack_user_id: slack_user_id.to_owned(),
        typing: true,
        timeout_ms: Some(SLACK_TYPING_TIMEOUT_MS),
    }
}

/// Typing flows through only when notifications are enabled and the channel
/// is mapped.
pub fn should_forward_slack_typing(
    disable_typing_notifications: bool,
    room_mapping: Option<&RoomMapping>,
) -> (r: bool)
    ensures
        r == (!disable_typing_notifications && room_mapping is Some),
{
    !disable_typing_notifications && room_mapping.is_some()
}

} // verus!
