use slack_bridge::bridge::{
    BridgeCore, ChannelDeletePlan, MatrixCommandActions, MatrixMemberDisposition,
    SlackCommandActions, SlackMessageContext,
};
use slack_bridge::config::{
    AuthConfig, BridgeConfig, ChannelConfig, ChannelDeleteOptionsConfig, Config, DatabaseConfig,
    GhostsConfig, LimitsConfig, LoggingConfig, MetricsConfig, RegistrationConfig, RoomConfig,
};
use slack_bridge::events::{MatrixEvent, MatrixEventContent};
use slack_bridge::matrix_commands::MatrixCommandOutcome;
use slack_bridge::slack::SlackChannel;
use slack_bridge::slack_commands::SlackCommandOutcome;

fn test_config() -> Config {
    Config {
        bridge: BridgeConfig {
            domain: "example.org".to_string(),
            port: 9005,
            bind_address: "127.0.0.1".to_string(),
            homeserver_url: "http://localhost:8008".to_string(),
            presence_interval: 500,
            disable_presence: false,
            disable_typing_notifications: false,
            disable_slack_mentions: false,
            disable_deletion_forwarding: false,
            enable_self_service_bridging: true,
            disable_portal_bridging: false,
            disable_read_receipts: false,
            disable_everyone_mention: false,
            disable_here_mention: false,
            disable_join_leave_notifications: false,
            disable_invite_notifications: false,
            disable_room_topic_notifications: false,
            determine_code_language: false,
            user_limit: None,
            admin_mxid: None,
            invalid_token_message: "Your Slack bot token seems to be invalid".to_string(),
        },
        registration: RegistrationConfig::default(),
        auth: AuthConfig {
            bot_token: "token".to_string(),
            app_token: Some("xapp-token".to_string()),
            client_id: None,
            client_secret: None,
            use_privileged_intents: false,
        },
        logging: LoggingConfig {
            level: "info".to_string(),
            line_date_format: "MMM-D HH:mm:ss.SSS".to_string(),
            format: "pretty".to_string(),
            file: None,
            files: vec![],
        },
        database: DatabaseConfig {
            url: Some("postgres://localhost/bridge".to_string()),
            conn_string: None,
            filename: None,
            user_store_path: None,
            room_store_path: None,
            max_connections: Some(1),
            min_connections: Some(1),
        },
        room: RoomConfig {
            default_visibility: "private".to_string(),
            room_alias_prefix: "_slack".to_string(),
            enable_room_creation: true,
            kick_for: 30000,
        },
        channel: ChannelConfig {
            name_pattern: "[Slack] :guild :name".to_string(),
            enable_channel_creation: false,
            channel_name_format: ":name".to_string(),
            topic_format: ":topic".to_string(),
            delete_options: ChannelDeleteOptionsConfig::default(),
            enable_webhook: true,
            webhook_name: "_matrix".to_string(),
            webhook_avatar: String::new(),
        },
        limits: LimitsConfig::default(),
        ghosts: GhostsConfig {
            nick_pattern: ":nick".to_string(),
            username_pattern: ":username#:tag".to_string(),
            username_template: "_slack_:id".to_string(),
            displayname_template: ":username".to_string(),
            avatar_url_template: None,
        },
        metrics: MetricsConfig::default(),
    }
}

fn channel(id: &str) -> SlackChannel {
    SlackChannel {
        id: id.to_string(),
        name: "general".to_string(),
        guild_id: "T1".to_string(),
        topic: None,
    }
}

fn bridged_core() -> BridgeCore {
    let mut core = BridgeCore::new(test_config());
    core.bridge_matrix_room("!room:example.org", "T1", "C1", Some(&channel("C1")), 1_000)
        .unwrap();
    core
}

fn member_event(
    sender: &str,
    state_key: &str,
    membership: &str,
    reason: Option<&str>,
) -> MatrixEvent {
    let mut content = MatrixEventContent::empty();
    content.membership = Some(membership.to_string());
    content.reason = reason.map(|r| r.to_string());
    MatrixEvent {
        event_id: Some("$member".to_string()),
        event_type: "m.room.member".to_string(),
        room_id: "!room:example.org".to_string(),
        sender: sender.to_string(),
        state_key: Some(state_key.to_string()),
        content: Some(content),
        timestamp: None,
    }
}

#[test]
fn bot_invite_is_joined() {
    let mut core = bridged_core();
    let event = member_event("@alice:example.org", "@bob:example.org", "invite", None);
    assert_eq!(
        core.handle_matrix_member(&event, 2_000),
        MatrixMemberDisposition::Ignored
    );
    let bot_invite = member_event("@alice:example.org", "@_slack_:example.org", "invite", None);
    let disposition = core.handle_matrix_member(&bot_invite, 2_000);
    assert_eq!(
        disposition,
        MatrixMemberDisposition::JoinInvitedRoom {
            room_id: "!room:example.org".to_string()
        }
    );
}

#[test]
fn ghost_kick_mirrors_moderation_with_restore() {
    let mut core = bridged_core();
    let event = member_event(
        "@mod:example.org",
        "@_slack_U9:example.org",
        "leave",
        Some("spamming"),
    );
    match core.handle_matrix_member(&event, 2_000) {
        MatrixMemberDisposition::Moderation {
            slack_channel_id,
            slack_user_id,
            notice,
            schedule_restore_ms,
        } => {
            assert_eq!(slack_channel_id, "C1");
            assert_eq!(slack_user_id, "U9");
            assert_eq!(
                notice,
                "Matrix moderation: `@_slack_U9:example.org` was kicked by `@mod:example.org`. Reason: spamming"
            );
            assert_eq!(schedule_restore_ms, Some(30_000));
        }
        other => panic!("expected a moderation mirror, got {:?}", other),
    }

    let ban = member_event("@mod:example.org", "@_slack_U9:example.org", "ban", None);
    match core.handle_matrix_member(&ban, 2_000) {
        MatrixMemberDisposition::Moderation {
            notice,
            schedule_restore_ms,
            ..
        } => {
            assert!(notice.contains("was banned by"));
            assert!(notice.ends_with("Reason: No reason provided"));
            assert_eq!(schedule_restore_ms, None);
        }
        other => panic!("expected a moderation mirror, got {:?}", other),
    }
}

#[test]
fn encryption_lockout_unbridges_the_room() {
    let mut core = bridged_core();
    let event = MatrixEvent {
        event_id: Some("$enc".to_string()),
        event_type: "m.room.encryption".to_string(),
        room_id: "!room:example.org".to_string(),
        sender: "@alice:example.org".to_string(),
        state_key: Some(String::new()),
        content: Some(MatrixEventContent::empty()),
        timestamp: None,
    };
    let lockout = core.handle_matrix_encryption(&event).unwrap();
    assert_eq!(lockout.room_id, "!room:example.org");
    assert!(lockout.notice.contains("encryption"));
    assert_eq!(core.bridged_room_count(), 0);
    assert!(core.handle_matrix_encryption(&event).is_none());
}

#[test]
fn room_rename_and_topic_become_channel_notices() {
    let mut core = bridged_core();
    let mut content = MatrixEventContent::empty();
    content.name = Some("Warroom".to_string());
    let event = MatrixEvent {
        event_id: Some("$name".to_string()),
        event_type: "m.room.name".to_string(),
        room_id: "!room:example.org".to_string(),
        sender: "@alice:example.org".to_string(),
        state_key: Some(String::new()),
        content: Some(content),
        timestamp: None,
    };
    let (channel_id, message) = core.handle_matrix_room_name(&event, "Alice", 2_000).unwrap();
    assert_eq!(channel_id, "C1");
    assert_eq!(message, "**Alice** changed the room name to: Warroom");
}

#[test]
fn channel_update_renames_room_by_pattern() {
    let mut core = bridged_core();
    let plan = core
        .handle_slack_channel_update("C1", "announcements", Some("news"), Some("old name"), None, 2_000)
        .unwrap();
    assert_eq!(plan.matrix_room_id, "!room:example.org");
    assert_eq!(
        plan.set_room_name.as_deref(),
        Some("[Slack] T1 #announcements")
    );
    assert_eq!(plan.set_room_topic.as_deref(), Some("news"));

    let unchanged = core
        .handle_slack_channel_update(
            "C1",
            "announcements",
            Some("news"),
            Some("[Slack] T1 #announcements"),
            Some("news"),
            3_000,
        )
        .unwrap();
    assert!(unchanged.set_room_name.is_none());
    assert!(unchanged.set_room_topic.is_none());
}

#[test]
fn channel_delete_cleans_up_mapping() {
    let mut core = bridged_core();
    let plan: ChannelDeletePlan = core.handle_slack_channel_delete("C1").unwrap();
    assert_eq!(plan.matrix_room_id, "!room:example.org");
    assert_eq!(core.bridged_room_count(), 0);
    assert!(core.handle_slack_channel_delete("C1").is_none());
}

#[test]
fn guild_delete_unbridges_every_room_of_the_team() {
    let mut core = BridgeCore::new(test_config());
    for (room, chan) in [("!a:x", "CA"), ("!b:x", "CB")] {
        let mut c = channel(chan);
        c.guild_id = "T7".to_string();
        core.bridge_matrix_room(room, "T7", chan, Some(&c), 1_000).unwrap();
    }
    let plans = core.handle_slack_guild_delete("T7");
    assert_eq!(plans.len(), 2);
    assert_eq!(core.bridged_room_count(), 0);
}

#[test]
fn user_update_refreshes_ghost_profile() {
    let mut core = bridged_core();
    assert!(!core.handle_slack_user_update("U1", "newname", None, 2_000));
}

#[test]
fn member_change_actions_respect_flags() {
    let core = bridged_core();
    assert_eq!(
        core.handle_slack_member_change("C1", true),
        Some("!room:example.org".to_string())
    );
    assert_eq!(core.handle_slack_member_change("C404", true), None);
    assert!(core.handle_slack_channel_marked("C1"));
    assert!(!core.handle_slack_channel_marked("C404"));
}

#[test]
fn command_outcomes_dispatch_to_actions() {
    let mut core = bridged_core();
    let actions = core.handle_matrix_command_outcome(
        MatrixCommandOutcome::UnbridgeRequested,
        "!room:example.org",
    );
    match actions {
        MatrixCommandActions::UnbridgeReply { reply, .. } => {
            assert_eq!(reply, "This room has been unbridged");
        }
        other => panic!("expected an unbridge reply, got {:?}", other),
    }
    assert_eq!(core.bridged_room_count(), 0);

    let ctx = SlackMessageContext {
        channel_id: "C1".to_string(),
        source_message_id: None,
        sender_id: "U1".to_string(),
        content: "!matrix deny".to_string(),
        attachments: vec![],
        reply_to: None,
        edit_of: None,
        permissions: vec!["MANAGE_WEBHOOKS".to_string()],
    };
    let actions =
        core.handle_slack_command_outcome(SlackCommandOutcome::DenyRequested, &ctx, "T1", "!room:example.org");
    match actions {
        SlackCommandActions::SendReply(reply) => {
            assert_eq!(
                reply,
                "Thanks for your response, however it has arrived after the deadline - sorry!"
            );
        }
        other => panic!("expected a reply, got {:?}", other),
    }
}

#[test]
fn ghost_membership_plan_names_guild_rooms() {
    let core = bridged_core();
    let (ghost, rooms) = core.handle_slack_guild_membership("T1", "U5");
    assert_eq!(ghost, "@_slack_U5:example.org");
    assert_eq!(rooms, vec!["!room:example.org".to_string()]);
    let (_, none) = core.handle_slack_guild_membership("T404", "U5");
    assert!(none.is_empty());
}

#[test]
fn user_update_rewrites_the_stored_profile() {
    let mut core = bridged_core();
    core.sync_remote_user_profile("U2", Some("two"), None, false, 1_200)
        .unwrap();
    assert!(core.handle_slack_user_update("U2", "renamed", Some("https://a/2.png"), 2_000));
    let refreshed = core
        .sync_remote_user_profile("U2", Some("renamed"), Some("https://a/2.png"), false, 2_500)
        .unwrap();
    assert!(!refreshed.create);
    assert_eq!(refreshed.mx_user_id, "@_slack_U2:example.org");
}

#[test]
fn power_level_notice_names_only_ghosts() {
    let mut core = bridged_core();
    let mut content = MatrixEventContent::empty();
    content.power_level_users = vec![
        ("@_slack_U1:example.org".to_string(), 50),
        ("@alice:example.org".to_string(), 100),
        ("@_slack_U2:example.org".to_string(), 0),
    ];
    let event = MatrixEvent {
        event_id: Some("$pl".to_string()),
        event_type: "m.room.power_levels".to_string(),
        room_id: "!room:example.org".to_string(),
        sender: "@alice:example.org".to_string(),
        state_key: Some(String::new()),
        content: Some(content),
        timestamp: None,
    };
    let (channel_id, message) = core
        .handle_matrix_power_levels(&event, "Alice", 2_000)
        .unwrap();
    assert_eq!(channel_id, "C1");
    assert_eq!(
        message,
        "**Alice** updated Matrix power levels for bridged users: U1 -> 50, U2 -> 0"
    );

    let mut quiet = MatrixEventContent::empty();
    quiet.power_level_users = vec![("@alice:example.org".to_string(), 100)];
    let quiet_event = MatrixEvent {
        content: Some(quiet),
        ..event
    };
    assert!(core.handle_matrix_power_levels(&quiet_event, "Alice", 2_000).is_none());
}

#[test]
fn webhook_senders_get_suffixed_ghost_identities() {
    let plan = slack_bridge::user_sync::plan_user_profile_update(
        None,
        "U9",
        Some("My Hook!"),
        None,
        true,
        ":username#:tag",
        "example.org",
    );
    assert!(plan.create);
    assert_eq!(plan.slack_id, "U9_My_Hook_");
    assert_eq!(plan.mx_user_id, "@_slack_U9_My_Hook_:example.org");
    assert!(!plan.remove_avatar);
}

#[test]
fn profile_plan_touches_only_changed_fields() {
    let existing = slack_bridge::models::UserMapping {
        id: 7,
        matrix_user_id: "@_slack_U3:example.org".to_string(),
        slack_user_id: "U3".to_string(),
        slack_username: "three#0000".to_string(),
        slack_discriminator: "0000".to_string(),
        slack_avatar: Some("https://a/3.png".to_string()),
        created_at: 0,
        updated_at: 0,
    };
    let unchanged = slack_bridge::user_sync::plan_user_profile_update(
        Some(&existing),
        "U3",
        Some("three"),
        Some("https://a/3.png"),
        false,
        ":username#:tag",
        "example.org",
    );
    assert!(!unchanged.create);
    assert!(unchanged.set_displayname.is_none());
    assert!(unchanged.set_avatar_url.is_none());
    assert!(!unchanged.remove_avatar);

    let renamed = slack_bridge::user_sync::plan_user_profile_update(
        Some(&existing),
        "U3",
        Some("trois"),
        None,
        false,
        ":username#:tag",
        "example.org",
    );
    assert_eq!(renamed.set_displayname.as_deref(), Some("trois#0000"));
    assert!(renamed.set_avatar_url.is_none());
    assert!(renamed.remove_avatar);
}
