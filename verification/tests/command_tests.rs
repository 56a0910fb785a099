use slack_bridge::matrix_commands::{
    MatrixCommandHandler, MatrixCommandOutcome, MatrixCommandPermission,
};
use slack_bridge::parsers::{parse_guild_and_channel, parse_prefixed_command, ParsedCommand};
use slack_bridge::slack_commands::{ModerationAction, SlackCommandHandler, SlackCommandOutcome};

#[test]
fn parse_prefixed_command_returns_none_for_other_prefix() {
    assert_eq!(parse_prefixed_command("!slack", "!matrix help"), None);
}

#[test]
fn parse_prefixed_command_defaults_to_help() {
    assert_eq!(
        parse_prefixed_command("!slack", "!slack"),
        Some(ParsedCommand {
            command: "help".to_string(),
            args: vec![]
        })
    );
}

#[test]
fn parse_prefixed_command_splits_command_and_args() {
    assert_eq!(
        parse_prefixed_command("!matrix", "!matrix ban @alice:example.org"),
        Some(ParsedCommand {
            command: "ban".to_string(),
            args: vec!["@alice:example.org".to_string()]
        })
    );
}

#[test]
fn parse_guild_and_channel_supports_slash_format() {
    let args = vec!["123/456".to_string()];
    assert_eq!(
        parse_guild_and_channel(&args),
        Some(("123".to_string(), "456".to_string()))
    );
}

#[test]
fn parse_guild_and_channel_prefers_explicit_channel() {
    let args = vec!["123/456".to_string(), "789".to_string()];
    assert_eq!(
        parse_guild_and_channel(&args),
        Some(("123".to_string(), "789".to_string()))
    );
}

#[test]
fn bridge_command_supports_slash_syntax() {
    let handler = MatrixCommandHandler::default();
    let outcome = handler.handle("!slack bridge 1/2", false, Ok(true));
    assert_eq!(
        outcome,
        MatrixCommandOutcome::BridgeRequested {
            guild_id: "1".to_string(),
            channel_id: "2".to_string()
        }
    );
}

#[test]
fn bridge_command_rejects_when_permission_denied() {
    let handler = MatrixCommandHandler::default();
    let outcome = handler.handle("!slack bridge 1 2", false, Ok(false));
    assert_eq!(
        outcome,
        MatrixCommandOutcome::Reply("**ERROR:** insufficient permissions to use this command! Try `!slack help` to see all available commands".to_string())
    );
}

#[test]
fn unbridge_requires_existing_link() {
    let handler = MatrixCommandHandler::default();
    let outcome = handler.handle("!slack unbridge", false, Ok(true));
    assert_eq!(
        outcome,
        MatrixCommandOutcome::Reply("This room is not bridged.".to_string())
    );
}

#[test]
fn self_service_flag_blocks_command() {
    let handler = MatrixCommandHandler::new(false, Some(50));
    assert_eq!(
        handler.required_permission(),
        MatrixCommandPermission {
            required_level: 50,
            category: "events",
            subcategory: "m.room.power_levels",
            self_service: true,
        }
    );
    let outcome = handler.handle("!slack bridge 1 2", false, Ok(true));
    assert_eq!(
        outcome,
        MatrixCommandOutcome::Reply(
            "The owner of this bridge does not permit self-service bridging.".to_string()
        )
    );
}

#[test]
fn ban_requires_permission() {
    let handler = SlackCommandHandler::new();
    let permissions: Vec<String> = Vec::new();
    let outcome = handler.handle("!matrix ban @alice:example.org", true, &permissions);
    assert_eq!(
        outcome,
        SlackCommandOutcome::Reply("**ERROR:** insufficient permissions to use this command! Try `!matrix help` to see all available commands".to_string()),
    );
}

#[test]
fn ban_command_returns_target() {
    let handler = SlackCommandHandler::new();
    let permissions = vec!["BAN_MEMBERS".to_string()];
    let outcome = handler.handle("!matrix ban @alice:example.org", true, &permissions);
    assert_eq!(
        outcome,
        SlackCommandOutcome::ModerationRequested {
            action: ModerationAction::Ban,
            matrix_user: "@alice:example.org".to_string(),
        }
    );
}

#[test]
fn unbridge_requires_both_permissions() {
    let handler = SlackCommandHandler::new();
    let permissions = vec!["MANAGE_WEBHOOKS".to_string()];
    let outcome = handler.handle("!matrix unbridge", true, &permissions);
    assert_eq!(
        outcome,
        SlackCommandOutcome::Reply("**ERROR:** insufficient permissions to use this command! Try `!matrix help` to see all available commands".to_string()),
    );
}

#[test]
fn unbridge_rejects_when_not_bridged() {
    let handler = SlackCommandHandler::new();
    let permissions = vec![
        "MANAGE_WEBHOOKS".to_string(),
        "MANAGE_CHANNELS".to_string(),
    ];
    let outcome = handler.handle("!matrix unbridge", false, &permissions);
    assert_eq!(
        outcome,
        SlackCommandOutcome::Reply(
            "This channel is not bridged to a plumbed matrix room".to_string()
        )
    );
}

#[test]
fn bridge_command_requires_permissions() {
    let handler = SlackCommandHandler::new();
    let permissions: Vec<String> = Vec::new();
    let outcome = handler.handle("!matrix bridge 123 456", false, &permissions);
    assert_eq!(
        outcome,
        SlackCommandOutcome::Reply("**ERROR:** insufficient permissions to use this command! Try `!matrix help` to see all available commands".to_string()),
    );
}

#[test]
fn bridge_command_returns_guild_and_channel() {
    let handler = SlackCommandHandler::new();
    let permissions = vec![
        "MANAGE_WEBHOOKS".to_string(),
        "MANAGE_CHANNELS".to_string(),
    ];
    let outcome = handler.handle("!matrix bridge 123456 789012", false, &permissions);
    assert_eq!(
        outcome,
        SlackCommandOutcome::BridgeRequested {
            guild_id: "123456".to_string(),
            channel_id: "789012".to_string(),
        }
    );
}

#[test]
fn approve_needs_webhook_management() {
    let handler = SlackCommandHandler::new();
    let outcome = handler.handle("!matrix approve", true, &vec!["MANAGE_WEBHOOKS".to_string()]);
    assert_eq!(outcome, SlackCommandOutcome::ApproveRequested);
    let denied = handler.handle("!matrix approve", true, &Vec::new());
    assert!(matches!(denied, SlackCommandOutcome::Reply(_)));
}

#[test]
fn unknown_command_gets_error_reply() {
    let handler = SlackCommandHandler::new();
    let outcome = handler.handle("!matrix frobnicate", true, &Vec::new());
    assert_eq!(
        outcome,
        SlackCommandOutcome::Reply(
            "**ERROR:** unknown command. Try `!matrix help` to see all commands".to_string()
        )
    );
}

#[test]
fn non_command_is_ignored() {
    let matrix_handler = MatrixCommandHandler::default();
    assert!(!matrix_handler.is_command("hello there"));
    assert_eq!(
        matrix_handler.handle("hello there", false, Ok(true)),
        MatrixCommandOutcome::Ignored
    );
    let slack_handler = SlackCommandHandler::new();
    assert!(slack_handler.is_command("  !matrix help"));
    assert!(!slack_handler.is_command("!slack help"));
}
