//! The Matrix-side command handler: `!slack …` lines become bridge and
//! unbridge requests, gated by the self-service switch and a power-level
//! check whose result the caller supplies.

use vstd::prelude::*;

use crate::parsers::ParsedCommand;
use crate::parsers::parse_prefixed_command;
use crate::parsers::parse_guild_and_channel;
use crate::parsers::spec_parse_prefixed_command;
use crate::parsers::spec_parse_guild_and_channel;

verus! {

pub const DEFAULT_PROVISIONING_POWER_LEVEL: i64 = 50;

/// The permission a gated command asks the caller to check.
#[derive(Debug, Clone, PartialEq, Eq)]
pub struct MatrixCommandPermission {
    pub required_level: i64,
    pub category: &'static str,
    pub subcategory: &'static str,
    pub self_service: bool,
}

/// What a command line resolves to.
#[derive(Debug, Clone, PartialEq, Eq)]
pub enum MatrixCommandOutcome {
    Ignored,
    Reply(String),
    BridgeRequested { guild_id: String, channel_id: String },
    UnbridgeRequested,
}

/// A command outcome at the specification level, over character sequences.
pub enum CommandOutcomeView {
    Ignored,
    Reply(Seq<char>),
    BridgeRequested(Seq<char>, Seq<char>),
    UnbridgeRequested,
}

/// Whether an executable outcome reads as a specification-level outcome.
pub open spec fn matrix_outcome_matches(o: MatrixCommandOutcome, v: CommandOutcomeView) -> bool {
    match (o, v) {
        (MatrixCommandOutcome::Ignored, CommandOutcomeView::Ignored) => true,
        (MatrixCommandOutcome::Reply(m), CommandOutcomeView::Reply(t)) => m@ == t,
        (
            MatrixCommandOutcome::BridgeRequested { guild_id, channel_id },
            CommandOutcomeView::BridgeRequested(g, c),
        ) => guild_id@ == g && channel_id@ == c,
        (MatrixCommandOutcome::UnbridgeRequested, CommandOutcomeView::UnbridgeRequested) => true,
        _ => false,
    }
}

pub open spec fn spec_matrix_help(topic: Option<Seq<char>>) -> Seq<char> {
    match topic {
        Some(t) => if t == "bridge"@ {
            "`!slack bridge <guildId> <channelId>`: Bridges this room to a Slack channel\nUse `guild/channel` or `guild channel`."@
        } else if t == "unbridge"@ {
            "`!slack unbridge`: Unbridges a Slack channel from this room"@
        } else {
            "**ERROR:** unknown command! Try `!slack help` to see all commands"@
        },
        None => "Available Commands:\n - `!slack bridge <guildId> <channelId>`: Bridges this room to a Slack channel\n - `!slack unbridge`: Unbridges a Slack channel from this room"@,
    }
}

/// The permission gate: self-service must be allowed by configuration, then
/// the supplied check must have granted the permission. The error text is
/// the reply the caller sends.
pub open spec fn spec_ensure_permission(
    self_service_enabled: bool,
    permission_result: Result<bool, Seq<char>>,
) -> Option<Seq<char>> {
    if !self_service_enabled {
        Some("The owner of this bridge does not permit self-service bridging."@)
    } else {
        match permission_result {
            Err(e) => Some("**ERROR:** "@ + e),
            Ok(false) => Some(
                "**ERROR:** insufficient permissions to use this command! Try `!slack help` to see all available commands"@,
            ),
            Ok(true) => None,
        }
    }
}

/// What the handler resolves a message to, given how the permission check
/// came out.
pub open spec fn spec_matrix_handle(
    prefix: Seq<char>,
    message: Seq<char>,
    room_is_bridged: bool,
    self_service_enabled: bool,
    permission_result: Result<bool, Seq<char>>,
) -> CommandOutcomeView {
    match spec_parse_prefixed_command(prefix, message) {
        None => CommandOutcomeView::Ignored,
        Some((cmd, args)) => if cmd == "help"@ {
            CommandOutcomeView::Reply(
                spec_matrix_help(
                    if args.len() > 0 {
                        Some(args[0])
                    } else {
                        None
                    },
                ),
            )
        } else if cmd == "bridge"@ {
            match spec_ensure_permission(self_service_enabled, permission_result) {
                Some(reply) => CommandOutcomeView::Reply(reply),
                None => if room_is_bridged {
                    CommandOutcomeView::Reply("This room is already bridged to a Slack guild."@)
                } else {
                    match spec_parse_guild_and_channel(args) {
                        Some((g, c)) => CommandOutcomeView::BridgeRequested(g, c),
                        None => CommandOutcomeView::Reply(
                            "Invalid syntax. For more information try `!slack help bridge`"@,
                        ),
                    }
                },
            }
        } else if cmd == "unbridge"@ {
            match spec_ensure_permission(self_service_enabled, permission_result) {
                Some(reply) => CommandOutcomeView::Reply(reply),
                None => if !room_is_bridged {
                    CommandOutcomeView::Reply("This room is not bridged."@)
                } else {
                    CommandOutcomeView::UnbridgeRequested
                },
            }
        } else {
            CommandOutcomeView::Reply(
                "**ERROR:** unknown command. Try `!slack help` to see all commands"@,
            )
        },
    }
}

/// The handler: its prefix, the self-service switch, and the power level a
/// provisioning command requires.
#[derive(Debug, Clone)]
pub struct MatrixCommandHandler {
    prefix: &'static str,
    self_service_enabled: bool,
    provisioning_power_level: i64,
}

impl MatrixCommandHandler {
    pub closed spec fn spec_prefix(&self) -> Seq<char> {
        self.prefix@
    }

    pub closed spec fn spec_self_service_enabled(&self) -> bool {
        self.self_service_enabled
    }

    pub closed spec fn spec_power_level(&self) -> i64 {
        self.provisioning_power_level
    }

    pub open spec fn wf(&self) -> bool {
        self.spec_prefix() == "!slack"@
    }

    pub fn new(self_service_enabled: bool, provisioning_power_level: Option<i64>) -> (r:
        MatrixCommandHandler)
        ensures
            r.wf(),
            r.spec_self_service_enabled() == self_service_enabled,
            r.spec_power_level() == (match provisioning_power_level {
                Some(l) => l,
                None => DEFAULT_PROVISIONING_POWER_LEVEL,
            }),
    {
        MatrixCommandHandler {
            prefix: "!slack",
            self_service_enabled,
            provisioning_power_level: match provisioning_power_level {
                Some(l) => l,
                None => DEFAULT_PROVISIONING_POWER_LEVEL,
            },
        }
    }

    /// The permission a gated command of this handler checks.
    pub fn required_permission(&self) -> (r: MatrixCommandPermission)
        ensures
            r.required_level == self.spec_power_level(),
            r.category@ == "events"@,
            r.subcategory@ == "m.room.power_levels"@,
            r.self_service,
    {
        MatrixCommandPermission {
            required_level: self.provisioning_power_level,
            category: "events",
            subcategory: "m.room.power_levels",
            self_service: true,
        }
    }

    /// Whether a message is addressed to this handler.
    pub fn is_command(&self, message: &str) -> (r: bool)
        ensures
            r == crate::text::spec_starts_with(
                crate::text::spec_trim_start(message@),
                self.spec_prefix(),
            ),
    {
        let trimmed = crate::text::trim_start(message);
        crate::text::starts_with(trimmed.as_str(), self.prefix)
    }

    /// Resolves a command line. `permission_result` is what the caller's
    /// power-level check returned (or the error it failed with); the check
    /// matters only for the gated commands.
    pub fn handle(&self, message: &str, room_is_bridged: bool, permission_result: Result<
        bool,
        String,
    >) -> (r: MatrixCommandOutcome)
        ensures
            matrix_outcome_matches(
                r,
                spec_matrix_handle(
                    self.spec_prefix(),
                    message@,
                    room_is_bridged,
                    self.spec_self_service_enabled(),
                    match permission_result {
                        Ok(b) => Ok(b),
                        Err(e) => Err(e@),
                    },
                ),
            ),
    {
        let parsed = match parse_prefixed_command(self.prefix, message) {
            Some(parsed) => parsed,
            None => {
                return MatrixCommandOutcome::Ignored;
            },
        };

        if crate::text::string_eq_str(&parsed.command, "help") {
            let topic: Option<&str> = if parsed.args.len() > 0 {
                Some(parsed.args[0].as_str())
            } else {
                None
            };
            return MatrixCommandOutcome::Reply(self.render_help(topic));
        }
        if crate::text::string_eq_str(&parsed.command, "bridge") {
            if let Some(reply) = self.ensure_permission(&permission_result) {
                return MatrixCommandOutcome::Reply(reply);
            }
            if room_is_bridged {
                return MatrixCommandOutcome::Reply(
                    "This room is already bridged to a Slack guild.".to_owned(),
                );
            }
            return match parse_guild_and_channel(&parsed.args) {
                Some((guild_id, channel_id)) => MatrixCommandOutcome::BridgeRequested {
                    guild_id,
                    channel_id,
                },
                None => MatrixCommandOutcome::Reply(
                    "Invalid syntax. For more information try `!slack help bridge`".to_owned(),
                ),
            };
        }
        if crate::text::string_eq_str(&parsed.command, "unbridge") {
            if let Some(reply) = self.ensure_permission(&permission_result) {
                return MatrixCommandOutcome::Reply(reply);
            }
            if !room_is_bridged {
                return MatrixCommandOutcome::Reply("This room is not bridged.".to_owned());
            }
            return MatrixCommandOutcome::UnbridgeRequested;
        }
        MatrixCommandOutcome::Reply(
            "**ERROR:** unknown command. Try `!slack help` to see all commands".to_owned(),
        )
    }

    /// The reply that blocks a gated command, if anything blocks it.
    fn ensure_permission(&self, permission_result: &Result<bool, String>) -> (r: Option<String>)
        ensures
            match r {
                Some(reply) => spec_ensure_permission(
                    self.spec_self_service_enabled(),
                    match permission_result {
                        Ok(b) => Ok(*b),
                        Err(e) => Err(e@),
                    },
                ) matches Some(t) && reply@ == t,
                None => spec_ensure_permission(
                    self.spec_self_service_enabled(),
                    match permission_result {
                        Ok(b) => Ok(*b),
                        Err(e) => Err(e@),
                    },
                ) is None,
            },
    {
        if !self.self_service_enabled {
            return Some(
                "The owner of this bridge does not permit self-service bridging.".to_owned(),
            );
        }
        match permission_result {
            Err(e) => {
                let mut reply = "**ERROR:** ".to_owned();
                reply.append(e.as_str());
                Some(reply)
            },
            Ok(false) => Some(
                "**ERROR:** insufficient permissions to use this command! Try `!slack help` to see all available commands".to_owned(),
            ),
            Ok(true) => None,
        }
    }

    /// The help text, whole or for one command.
    pub fn render_help(&self, command: Option<&str>) -> (r: String)
        ensures
            r@ == spec_matrix_help(
                match command {
                    Some(c) => Some(c@),
                    None => None,
                },
            ),
    {
        match command {
            Some(c) => {
                if crate::text::str_eq(c, "bridge") {
                    "`!slack bridge <guildId> <channelId>`: Bridges this room to a Slack channel\nUse `guild/channel` or `guild channel`.".to_owned()
                } else if crate::text::str_eq(c, "unbridge") {
                    "`!slack unbridge`: Unbridges a Slack channel from this room".to_owned()
                } else {
                    "**ERROR:** unknown command! Try `!slack help` to see all commands".to_owned()
                }
            },
            None => "Available Commands:\n - `!slack bridge <guildId> <channelId>`: Bridges this room to a Slack channel\n - `!slack unbridge`: Unbridges a Slack channel from this room".to_owned(),
        }
    }
}

impl Default for MatrixCommandHandler {
    /// The handler with self-service allowed and the default power level.
    fn default() -> (r: MatrixCommandHandler)
        ensures
            r.wf(),
            r.spec_self_service_enabled(),
            r.spec_power_level() == DEFAULT_PROVISIONING_POWER_LEVEL,
    {
        MatrixCommandHandler {
            prefix: "!slack",
            self_service_enabled: true,
            provisioning_power_level: DEFAULT_PROVISIONING_POWER_LEVEL,
        }
    }
}

} // verus!
