//! The library's model of an inbound Matrix event. The wire format is JSON;
//! the adapter outside the library copies the fields the bridge reads into
//! these plain records before handing an event to the router.

use vstd::prelude::*;

verus! {

/// The relation block of a message content (`m.relates_to`).
#[derive(Debug, Clone, PartialEq, Eq)]
pub struct RelatesTo {
    /// `m.in_reply_to.event_id`, when the block carries a reply.
    pub in_reply_to_event_id: Option<String>,
    /// `rel_type`, e.g. `m.replace` for an edit.
    pub rel_type: Option<String>,
    /// `event_id` beside `rel_type`.
    pub event_id: Option<String>,
}

/// The message-bearing fields of a content object: either the top-level
/// content or an `m.new_content` replacement.
#[derive(Debug, Clone, PartialEq, Eq)]
pub struct MessageText {
    pub msgtype: Option<String>,
    pub body: Option<String>,
    pub url: Option<String>,
}

/// The fields of an event content that the router reads.
#[derive(Debug, Clone, PartialEq, Eq)]
pub struct MatrixEventContent {
    pub text: MessageText,
    pub relates_to: Option<RelatesTo>,
    pub new_content: Option<MessageText>,
    /// `membership` of an `m.room.member` event.
    pub membership: Option<String>,
    /// `reason` of a membership change.
    pub reason: Option<String>,
    /// `name` of an `m.room.name` event.
    pub name: Option<String>,
    /// `topic` of an `m.room.topic` event.
    pub topic: Option<String>,
    /// The `users` table of an `m.room.power_levels` event.
    pub power_level_users: Vec<(String, i64)>,
}

impl MatrixEventContent {
    /// A content with nothing set, for building events field by field.
    pub fn empty() -> (r: MatrixEventContent)
        ensures
            r.text.msgtype is None,
            r.text.body is None,
            r.text.url is None,
            r.relates_to is None,
            r.new_content is None,
            r.membership is None,
            r.reason is None,
            r.name is None,
            r.topic is None,
            r.power_level_users@.len() == 0,
    {
        MatrixEventContent {
            text: MessageText { msgtype: None, body: None, url: None },
            relates_to: None,
            new_content: None,
            membership: None,
            reason: None,
            name: None,
            topic: None,
            power_level_users: Vec::new(),
        }
    }

    /// The plain text of the content: its `body` when present.
    pub open spec fn spec_plain_text(&self) -> Seq<char> {
        match self.text.body {
            Some(b) => b@,
            None => Seq::empty(),
        }
    }

    pub fn plain_text(&self) -> (r: String)
        ensures
            r@ == self.spec_plain_text(),
    {
        match &self.text.body {
            Some(b) => b.clone(),
            None => String::new(),
        }
    }
}

/// One inbound event from the Matrix side.
#[derive(Debug, Clone, PartialEq, Eq)]
pub struct MatrixEvent {
    pub event_id: Option<String>,
    pub event_type: String,
    pub room_id: String,
    pub sender: String,
    pub state_key: Option<String>,
    pub content: Option<MatrixEventContent>,
    /// `origin_server_ts`, unix milliseconds, when the event carried one.
    pub timestamp: Option<i64>,
}

} // verus!
