//! Slack-side data the bridge reads: user and channel facts as plain values.
//! The HTTP client that fetches them lives outside the library.

use vstd::prelude::*;

use crate::formatting::apply_pattern_string;
use crate::formatting::spec_apply_pattern;

verus! {

/// A remote user's profile facts.
#[derive(Debug, Clone, PartialEq, Eq)]
pub struct SlackUser {
    pub id: String,
    pub username: String,
    pub discriminator: String,
    pub avatar: Option<String>,
}

/// A remote channel's facts.
#[derive(Debug, Clone, PartialEq, Eq)]
pub struct SlackChannel {
    pub id: String,
    pub name: String,
    pub guild_id: String,
    pub topic: Option<String>,
}

/// A remote message, as record-keeping data.
#[derive(Debug, Clone, PartialEq, Eq)]
pub struct SlackMessage {
    pub id: String,
    pub channel_id: String,
    pub author_id: String,
    pub content: String,
    pub attachments: Vec<String>,
    pub reply_to: Option<String>,
    pub edit_of: Option<String>,
    pub timestamp: String,
}

/// The ghost display name for a remote user, from the configured pattern
/// over the user's id, tag and username.
pub fn ghost_display_name(user: &SlackUser, pattern: &str) -> (r: String)
    ensures
        r@ == spec_apply_pattern(
            pattern@,
            seq![("id"@, user.id@), ("tag"@, user.discriminator@), ("username"@, user.username@)],
        ),
{
    let vars: [(&str, &str); 3] = [
        ("id", user.id.as_str()),
        ("tag", user.discriminator.as_str()),
        ("username", user.username.as_str()),
    ];
    let r = apply_pattern_string(pattern, &vars);
    proof {
        assert(vars@.map_values(|p: (&str, &str)| (p.0@, p.1@)) =~= seq![
            ("id"@, user.id@),
            ("tag"@, user.discriminator@),
            ("username"@, user.username@),
        ]);
    }
    r
}

} // verus!
