//! The Slack-side command handler: `!matrix …` lines become approvals,
//! denials, bridge, unbridge and moderation requests, gated by the sender's
//! cached capability set.

use vstd::prelude::*;

use crate::parsers::parse_prefixed_command;
use crate::parsers::spec_parse_prefixed_command;
use crate::text::spec_join;
use crate::text::spec_trim;
use crate::text::join_strings;
use crate::text::trim;
use crate::matrix_commands::CommandOutcomeView;

verus! {

/// A moderation action to mirror on the Matrix side.
#[derive(Debug, Clone, Copy, PartialEq, Eq, Structural)]
pub enum ModerationAction {
    Kick,
    Ban,
    Unban,
}

/// The keyword a moderation action goes by in commands and logs.
pub open spec fn spec_action_keyword(action: ModerationAction) -> Seq<char> {
    match action {
        ModerationAction::Kick => "kick"@,
        ModerationAction::Ban => "ban"@,
        ModerationAction::Unban => "unban"@,
    }
}

pub fn action_keyword(action: &ModerationAction) -> (r: &'static str)
    ensures
        r@ == spec_action_keyword(*action),
{
    match action {
        ModerationAction::Kick => "kick",
        ModerationAction::Ban => "ban",
        ModerationAction::Unban => "unban",
    }
}

/// What a command line resolves to.
#[derive(Debug, Clone, PartialEq, Eq)]
pub enum SlackCommandOutcome {
    Ignored,
    Reply(String),
    ApproveRequested,
    DenyRequested,
    ModerationRequested { action: ModerationAction, matrix_user: String },
    UnbridgeRequested,
    BridgeRequested { guild_id: String, channel_id: String },
}

/// A command outcome at the specification level.
pub enum SlackOutcomeView {
    Ignored,
    Reply(Seq<char>),
    ApproveRequested,
    DenyRequested,
    ModerationRequested(ModerationAction, Seq<char>),
    UnbridgeRequested,
    BridgeRequested(Seq<char>, Seq<char>),
}

pub open spec fn slack_outcome_matches(o: SlackCommandOutcome, v: SlackOutcomeView) -> bool {
    match (o, v) {
        (SlackCommandOutcome::Ignored, SlackOutcomeView::Ignored) => true,
        (SlackCommandOutcome::Reply(m), SlackOutcomeView::Reply(t)) => m@ == t,
        (SlackCommandOutcome::ApproveRequested, SlackOutcomeView::ApproveRequested) => true,
        (SlackCommandOutcome::DenyRequested, SlackOutcomeView::DenyRequested) => true,
        (
            SlackCommandOutcome::ModerationRequested { action, matrix_user },
            SlackOutcomeView::ModerationRequested(a, u),
        ) => action == a && matrix_user@ == u,
        (SlackCommandOutcome::UnbridgeRequested, SlackOutcomeView::UnbridgeRequested) => true,
        (
            SlackCommandOutcome::BridgeRequested { guild_id, channel_id },
            SlackOutcomeView::BridgeRequested(g, c),
        ) => guild_id@ == g && channel_id@ == c,
        _ => false,
    }
}

/// Whether the sender's capability set carries one permission.
pub open spec fn spec_has_permission(granted: Seq<String>, p: Seq<char>) -> bool {
    exists|k: int| 0 <= k < granted.len() && granted[k]@ == p
}

/// Whether every required permission was granted.
pub fn has_all_permissions(granted: &Vec<String>, required: &Vec<&'static str>) -> (r: bool)
    ensures
        r == forall|k: int|
            0 <= k < required@.len() ==> spec_has_permission(granted@, (#[trigger] required@[k])@),
{
    let mut i: usize = 0;
    while i < required.len()
        invariant
            i <= required@.len(),
            forall|k: int|
                0 <= k < i ==> spec_has_permission(granted@, (#[trigger] required@[k])@),
        decreases required@.len() - i,
    {
        if !crate::parsers::vec_contains_string(granted, required[i]) {
            return false;
        }
        i = i + 1;
    }
    true
}

pub open spec fn spec_permission_denied_text() -> Seq<char> {
    "**ERROR:** insufficient permissions to use this command! Try `!matrix help` to see all available commands"@
}

/// The reply for a command the sender lacks permission for.
pub fn permission_denied() -> (r: SlackCommandOutcome)
    ensures
        r matches SlackCommandOutcome::Reply(m) && m@ == spec_permission_denied_text(),
{
    SlackCommandOutcome::Reply(
        "**ERROR:** insufficient permissions to use this command! Try `!matrix help` to see all available commands".to_owned(),
    )
}

pub open spec fn spec_slack_help(topic: Option<Seq<char>>) -> Seq<char> {
    match topic {
        Some(t) => if t == "approve"@ {
            "`!matrix approve`: Approve a pending bridge request"@
        } else if t == "deny"@ {
            "`!matrix deny`: Deny a pending bridge request"@
        } else if t == "bridge"@ {
            "`!matrix bridge <guild_id> <channel_id>`: Bridge this channel to a Matrix room"@
        } else if t == "kick"@ {
            "`!matrix kick <name>`: Kicks a user on the Matrix side"@
        } else if t == "ban"@ {
            "`!matrix ban <name>`: Bans a user on the Matrix side"@
        } else if t == "unban"@ {
            "`!matrix unban <name>`: Unbans a user on the Matrix side"@
        } else if t == "unbridge"@ {
            "`!matrix unbridge`: Unbridge Matrix rooms from this channel"@
        } else {
            "**ERROR:** unknown command! Try `!matrix help` to see all commands"@
        },
        None => "Available Commands:\n - `!matrix approve`: Approve a pending bridge request\n - `!matrix deny`: Deny a pending bridge request\n - `!matrix bridge <guild_id> <channel_id>`: Bridge this channel to a Matrix room\n - `!matrix kick <name>`: Kicks a user on the Matrix side\n - `!matrix ban <name>`: Bans a user on the Matrix side\n - `!matrix unban <name>`: Unbans a user on the Matrix side\n - `!matrix unbridge`: Unbridge Matrix rooms from this channel"@,
    }
}

/// What a moderation command resolves to: the denial reply without the
/// permission, a syntax reminder without a target, else the request.
pub open spec fn spec_handle_moderation(
    args: Seq<Seq<char>>,
    granted: Seq<String>,
    needed: Seq<char>,
    action: ModerationAction,
) -> SlackOutcomeView {
    if !spec_has_permission(granted, needed) {
        SlackOutcomeView::Reply(spec_permission_denied_text())
    } else {
        let target = spec_trim(spec_join(args, " "@));
        if target.len() == 0 {
            SlackOutcomeView::Reply(
                "Invalid syntax. For more information try `!matrix help "@ + spec_action_keyword(
                    action,
                ) + "`"@,
            )
        } else {
            SlackOutcomeView::ModerationRequested(action, target)
        }
    }
}

/// What the handler resolves a message to.
pub open spec fn spec_slack_handle(
    prefix: Seq<char>,
    message: Seq<char>,
    is_channel_bridged: bool,
    granted: Seq<String>,
) -> SlackOutcomeView {
    match spec_parse_prefixed_command(prefix, message) {
        None => SlackOutcomeView::Ignored,
        Some((cmd, args)) => if cmd == "help"@ {
            SlackOutcomeView::Reply(
                spec_slack_help(
                    if args.len() > 0 {
                        Some(args[0])
                    } else {
                        None
                    },
                ),
            )
        } else if cmd == "approve"@ {
            if !spec_has_permission(granted, "MANAGE_WEBHOOKS"@) {
                SlackOutcomeView::Reply(spec_permission_denied_text())
            } else {
                SlackOutcomeView::ApproveRequested
            }
        } else if cmd == "deny"@ {
            if !spec_has_permission(granted, "MANAGE_WEBHOOKS"@) {
                SlackOutcomeView::Reply(spec_permission_denied_text())
            } else {
                SlackOutcomeView::DenyRequested
            }
        } else if cmd == "bridge"@ {
            if !(spec_has_permission(granted, "MANAGE_WEBHOOKS"@) && spec_has_permission(
                granted,
                "MANAGE_CHANNELS"@,
            )) {
                SlackOutcomeView::Reply(spec_permission_denied_text())
            } else if is_channel_bridged {
                SlackOutcomeView::Reply(
                    "This channel is already bridged. Use `!matrix unbridge` to remove the bridge first."@,
                )
            } else if args.len() < 2 {
                SlackOutcomeView::Reply(
                    "**ERROR:** Invalid syntax. Usage: `!matrix bridge <guild_id> <channel_id>`"@,
                )
            } else {
                SlackOutcomeView::BridgeRequested(args[0], args[1])
            }
        } else if cmd == "unbridge"@ {
            if !(spec_has_permission(granted, "MANAGE_WEBHOOKS"@) && spec_has_permission(
                granted,
                "MANAGE_CHANNELS"@,
            )) {
                SlackOutcomeView::Reply(spec_permission_denied_text())
            } else if !is_channel_bridged {
                SlackOutcomeView::Reply("This channel is not bridged to a plumbed matrix room"@)
            } else {
                SlackOutcomeView::UnbridgeRequested
            }
        } else if cmd == "kick"@ {
            spec_handle_moderation(args, granted, "KICK_MEMBERS"@, ModerationAction::Kick)
        } else if cmd == "ban"@ {
            spec_handle_moderation(args, granted, "BAN_MEMBERS"@, ModerationAction::Ban)
        } else if cmd == "unban"@ {
            spec_handle_moderation(args, granted, "BAN_MEMBERS"@, ModerationAction::Unban)
        } else {
            SlackOutcomeView::Reply(
                "**ERROR:** unknown command. Try `!matrix help` to see all commands"@,
            )
        },
    }
}

/// The handler and its command prefix.
#[derive(Debug, Clone)]
pub struct SlackCommandHandler {
    prefix: &'static str,
}

impl SlackCommandHandler {
    pub closed spec fn spec_prefix(&self) -> Seq<char> {
        self.prefix@
    }

    pub open spec fn wf(&self) -> bool {
        self.spec_prefix() == "!matrix"@
    }

    pub fn new() -> (r: SlackCommandHandler)
        ensures
            r.wf(),
    {
        SlackCommandHandler { prefix: "!matrix" }
    }

    /// Whether a message is addressed to this handler.
    pub fn is_command(&self, message: &str) -> (r: bool)
        ensures
            r == crate::text::spec_starts_with(
                crate::text::spec_trim_start(message@),
                self.spec_prefix(),
            ),
    {
        let trimmed = crate::text::trim_start(message);
        crate::text::starts_with(trimmed.as_str(), self.prefix)
    }

    /// Resolves a command line against the sender's granted permissions.
    pub fn handle(&self, message: &str, is_channel_bridged: bool, granted_permissions: &Vec<
        String,
    >) -> (r: SlackCommandOutcome)
        ensures
            slack_outcome_matches(
                r,
                spec_slack_handle(
                    self.spec_prefix(),
                    message@,
                    is_channel_bridged,
                    granted_permissions@,
                ),
            ),
    {
        let parsed = match parse_prefixed_command(self.prefix, message) {
            Some(parsed) => parsed,
            None => {
                return SlackCommandOutcome::Ignored;
            },
        };

        if crate::text::string_eq_str(&parsed.command, "help") {
            let topic: Option<&str> = if parsed.args.len() > 0 {
                Some(parsed.args[0].as_str())
            } else {
                None
            };
            return SlackCommandOutcome::Reply(self.render_help(topic));
        }
        if crate::text::string_eq_str(&parsed.command, "approve") {
            if !crate::parsers::vec_contains_string(granted_permissions, "MANAGE_WEBHOOKS") {
                return permission_denied();
            }
            return SlackCommandOutcome::ApproveRequested;
        }
        if crate::text::string_eq_str(&parsed.command, "deny") {
            if !crate::parsers::vec_contains_string(granted_permissions, "MANAGE_WEBHOOKS") {
                return permission_denied();
            }
            return SlackCommandOutcome::DenyRequested;
        }
        if crate::text::string_eq_str(&parsed.command, "bridge") {
            return self.handle_bridge(parsed.args, granted_permissions, is_channel_bridged);
        }
        if crate::text::string_eq_str(&parsed.command, "unbridge") {
            if !(crate::parsers::vec_contains_string(granted_permissions, "MANAGE_WEBHOOKS")
                && crate::parsers::vec_contains_string(granted_permissions, "MANAGE_CHANNELS")) {
                return permission_denied();
            }
            if !is_channel_bridged {
                return SlackCommandOutcome::Reply(
                    "This channel is not bridged to a plumbed matrix room".to_owned(),
                );
            }
            return SlackCommandOutcome::UnbridgeRequested;
        }
        if crate::text::string_eq_str(&parsed.command, "kick") {
            return self.handle_moderation(
                parsed.args,
                granted_permissions,
                "KICK_MEMBERS",
                ModerationAction::Kick,
            );
        }
        if crate::text::string_eq_str(&parsed.command, "ban") {
            return self.handle_moderation(
                parsed.args,
                granted_permissions,
                "BAN_MEMBERS",
                ModerationAction::Ban,
            );
        }
        if crate::text::string_eq_str(&parsed.command, "unban") {
            return self.handle_moderation(
                parsed.args,
                granted_permissions,
                "BAN_MEMBERS",
                ModerationAction::Unban,
            );
        }
        SlackCommandOutcome::Reply(
            "**ERROR:** unknown command. Try `!matrix help` to see all commands".to_owned(),
        )
    }

    /// The bridge command: both management permissions, an unbridged channel
    /// and two ids.
    pub fn handle_bridge(
        &self,
        args: Vec<String>,
        granted_permissions: &Vec<String>,
        is_channel_bridged: bool,
    ) -> (r: SlackCommandOutcome)
        ensures
            slack_outcome_matches(
                r,
                ({
                    let view = args@.map_values(|a: String| a@);
                    if !(spec_has_permission(granted_permissions@, "MANAGE_WEBHOOKS"@)
                        && spec_has_permission(granted_permissions@, "MANAGE_CHANNELS"@)) {
                        SlackOutcomeView::Reply(spec_permission_denied_text())
                    } else if is_channel_bridged {
                        SlackOutcomeView::Reply(
                            "This channel is already bridged. Use `!matrix unbridge` to remove the bridge first."@,
                        )
                    } else if view.len() < 2 {
                        SlackOutcomeView::Reply(
                            "**ERROR:** Invalid syntax. Usage: `!matrix bridge <guild_id> <channel_id>`"@,
                        )
                    } else {
                        SlackOutcomeView::BridgeRequested(view[0], view[1])
                    }
                }),
            ),
    {
        if !(crate::parsers::vec_contains_string(granted_permissions, "MANAGE_WEBHOOKS")
            && crate::parsers::vec_contains_string(granted_permissions, "MANAGE_CHANNELS")) {
            return permission_denied();
        }
        if is_channel_bridged {
            return SlackCommandOutcome::Reply(
                "This channel is already bridged. Use `!matrix unbridge` to remove the bridge first.".to_owned(),
            );
        }
        if args.len() < 2 {
            return SlackCommandOutcome::Reply(
                "**ERROR:** Invalid syntax. Usage: `!matrix bridge <guild_id> <channel_id>`".to_owned(),
            );
        }
        let guild_id = args[0].clone();
        let channel_id = args[1].clone();
        SlackCommandOutcome::BridgeRequested { guild_id, channel_id }
    }

    /// A moderation command: the needed permission and a non-empty target.
    pub fn handle_moderation(
        &self,
        args: Vec<String>,
        granted_permissions: &Vec<String>,
        needed_permission: &'static str,
        action: ModerationAction,
    ) -> (r: SlackCommandOutcome)
        ensures
            slack_outcome_matches(
                r,
                spec_handle_moderation(
                    args@.map_values(|a: String| a@),
                    granted_permissions@,
                    needed_permission@,
                    action,
                ),
            ),
    {
        if !crate::parsers::vec_contains_string(granted_permissions, needed_permission) {
            return permission_denied();
        }
        let joined = join_strings(&args, " ");
        let matrix_user = trim(joined.as_str());
        if matrix_user.as_str().is_empty() {
            let mut reply = "Invalid syntax. For more information try `!matrix help ".to_owned();
            reply.append(action_keyword(&action));
            reply.append("`");
            return SlackCommandOutcome::Reply(reply);
        }
        SlackCommandOutcome::ModerationRequested { action, matrix_user }
    }

    /// The help text, whole or for one command.
    pub fn render_help(&self, command: Option<&str>) -> (r: String)
        ensures
            r@ == spec_slack_help(
                match command {
                    Some(c) => Some(c@),
                    None => None,
                },
            ),
    {
        match command {
            Some(c) => {
                if crate::text::str_eq(c, "approve") {
                    "`!matrix approve`: Approve a pending bridge request".to_owned()
                } else if crate::text::str_eq(c, "deny") {
                    "`!matrix deny`: Deny a pending bridge request".to_owned()
                } else if crate::text::str_eq(c, "bridge") {
                    "`!matrix bridge <guild_id> <channel_id>`: Bridge this channel to a Matrix room".to_owned()
                } else if crate::text::str_eq(c, "kick") {
                    "`!matrix kick <name>`: Kicks a user on the Matrix side".to_owned()
                } else if crate::text::str_eq(c, "ban") {
                    "`!matrix ban <name>`: Bans a user on the Matrix side".to_owned()
                } else if crate::text::str_eq(c, "unban") {
                    "`!matrix unban <name>`: Unbans a user on the Matrix side".to_owned()
                } else if crate::text::str_eq(c, "unbridge") {
                    "`!matrix unbridge`: Unbridge Matrix rooms from this channel".to_owned()
                } else {
                    "**ERROR:** unknown command! Try `!matrix help` to see all commands".to_owned()
                }
            },
            None => "Available Commands:\n - `!matrix approve`: Approve a pending bridge request\n - `!matrix deny`: Deny a pending bridge request\n - `!matrix bridge <guild_id> <channel_id>`: Bridge this channel to a Matrix room\n - `!matrix kick <name>`: Kicks a user on the Matrix side\n - `!matrix ban <name>`: Bans a user on the Matrix side\n - `!matrix unban <name>`: Unbans a user on the Matrix side\n - `!matrix unbridge`: Unbridge Matrix rooms from this channel".to_owned(),
        }
    }
}

impl Default for SlackCommandHandler {
    fn default() -> (r: SlackCommandHandler)
        ensures
            r.wf(),
    {
        SlackCommandHandler { prefix: "!matrix" }
    }
}

} // verus!
