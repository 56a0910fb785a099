//! The persisted mapping records and related store-facing data. Timestamps
//! are unix-epoch milliseconds; the store backends that persist these records
//! are collaborators outside the library.

use vstd::prelude::*;

verus! {

/// A bridged room: one Matrix room tied to one Slack channel.
#[derive(Debug, Clone, PartialEq, Eq)]
pub struct RoomMapping {
    pub id: i64,
    pub matrix_room_id: String,
    pub slack_channel_id: String,
    pub slack_channel_name: String,
    pub slack_team_id: String,
    pub created_at: i64,
    pub updated_at: i64,
}

/// A ghost identity on the Matrix side for a Slack user.
#[derive(Debug, Clone, PartialEq, Eq)]
pub struct UserMapping {
    pub id: i64,
    pub matrix_user_id: String,
    pub slack_user_id: String,
    pub slack_username: String,
    pub slack_discriminator: String,
    pub slack_avatar: Option<String>,
    pub created_at: i64,
    pub updated_at: i64,
}

/// A cross-posted message: the Slack message id tied to the Matrix event it
/// became, used to resolve later edits, deletes, reactions and replies.
#[derive(Debug, Clone, PartialEq, Eq)]
pub struct MessageMapping {
    pub id: i64,
    pub slack_message_id: String,
    pub matrix_room_id: String,
    pub matrix_event_id: String,
    pub created_at: i64,
    pub updated_at: i64,
}

/// An uploaded custom emoji, cached so a second mention skips the upload.
#[derive(Debug, Clone, PartialEq, Eq)]
pub struct EmojiMapping {
    pub id: i64,
    pub slack_emoji_id: String,
    pub emoji_name: String,
    pub animated: bool,
    pub mxc_url: String,
    pub created_at: i64,
    pub updated_at: i64,
}

/// An event already handled once, kept to suppress replays.
#[derive(Debug, Clone, PartialEq, Eq)]
pub struct ProcessedEvent {
    pub id: i64,
    pub event_id: String,
    pub event_type: String,
    pub source: String,
    pub processed_at: i64,
}

/// Remote-side room facts handed to provisioning surfaces.
#[derive(Debug, Clone, PartialEq, Eq)]
pub struct RemoteRoomInfo {
    pub slack_team_id: String,
    pub slack_channel_id: String,
    pub slack_name: Option<String>,
    pub slack_topic: Option<String>,
    pub slack_icon_url: Option<String>,
    pub plumbed: bool,
    pub update_name: bool,
    pub update_topic: bool,
    pub update_icon: bool,
}

/// Remote-side user facts handed to provisioning surfaces. Per-guild nicks
/// are held as (guild id, nick) pairs.
#[derive(Debug, Clone, PartialEq, Eq)]
pub struct RemoteUserInfo {
    pub slack_user_id: String,
    pub displayname: Option<String>,
    pub avatar_url: Option<String>,
    pub avatar_mxc: Option<String>,
    pub guild_nicks: Vec<(String, String)>,
}

/// Store-level failures. `NotFound` is a valid outcome for lookups that
/// return an `Option`; it appears here only for keyed deletes and updates.
#[derive(Debug, Clone, PartialEq, Eq)]
pub enum DatabaseError {
    Connection(String),
    Query(String),
    Migration(String),
    NotFound(String),
}

impl DatabaseError {
    /// The user-facing description of the failure.
    pub fn message(&self) -> (r: String)
        ensures
            r@ == self.spec_message(),
    {
        match self {
            DatabaseError::Connection(s) => {
                let mut out = "Connection error: ".to_owned();
                out.append(s.as_str());
                out
            },
            DatabaseError::Query(s) => {
                let mut out = "Query error: ".to_owned();
                out.append(s.as_str());
                out
            },
            DatabaseError::Migration(s) => {
                let mut out = "Migration error: ".to_owned();
                out.append(s.as_str());
                out
            },
            DatabaseError::NotFound(s) => {
                let mut out = "Not found: ".to_owned();
                out.append(s.as_str());
                out
            },
        }
    }

    pub open spec fn spec_message(&self) -> Seq<char> {
        match self {
            DatabaseError::Connection(s) => "Connection error: "@ + s@,
            DatabaseError::Query(s) => "Query error: "@ + s@,
            DatabaseError::Migration(s) => "Migration error: "@ + s@,
            DatabaseError::NotFound(s) => "Not found: "@ + s@,
        }
    }
}

/// Which store backend a connection string selects.
#[derive(Debug, Clone, Copy, PartialEq, Eq, Structural)]
pub enum DbType {
    Postgres,
    Sqlite,
    Mysql,
}

impl EmojiMapping {
    /// A fresh cache entry for an emoji uploaded now.
    pub fn new(
        slack_emoji_id: String,
        emoji_name: String,
        animated: bool,
        mxc_url: String,
        now_ms: i64,
    ) -> (r: EmojiMapping)
        ensures
            r.id == 0,
            r.slack_emoji_id == slack_emoji_id,
            r.emoji_name == emoji_name,
            r.animated == animated,
            r.mxc_url == mxc_url,
            r.created_at == now_ms,
            r.updated_at == now_ms,
    {
        EmojiMapping {
            id: 0,
            slack_emoji_id,
            emoji_name,
            animated,
            mxc_url,
            created_at: now_ms,
            updated_at: now_ms,
        }
    }

    /// Where the source platform serves the emoji image.
    pub fn slack_url(&self) -> (r: String)
        ensures
            r@ == "https://cdn.slackapp.com/emojis/"@ + self.slack_emoji_id@ + (
            if self.animated {
                ".gif"@
            } else {
                ".png"@
            }),
    {
        let mut out = "https://cdn.slackapp.com/emojis/".to_owned();
        out.append(self.slack_emoji_id.as_str());
        if self.animated {
            out.append(".gif");
        } else {
            out.append(".png");
        }
        out
    }
}

} // verus!
