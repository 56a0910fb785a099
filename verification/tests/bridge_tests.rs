use slack_bridge::bridge::{
    BridgeCore, BridgeRequestStart, MatrixInboundDisposition, SlackInboundDisposition,
    SlackMessageContext,
};
use slack_bridge::config::{
    AuthConfig, BridgeConfig, ChannelConfig, ChannelDeleteOptionsConfig, Config, DatabaseConfig,
    GhostsConfig, LimitsConfig, LoggingConfig, MetricsConfig, RegistrationConfig, RoomConfig,
};
use slack_bridge::events::{MatrixEvent, MatrixEventContent, MessageText, RelatesTo};
use slack_bridge::provisioning::{ApprovalResponseStatus, ProvisioningCoordinator, WaitOutcome};
use slack_bridge::queue::ChannelQueue;
use slack_bridge::slack::SlackChannel;
use slack_bridge::slack_commands::ModerationAction;

fn test_config() -> Config {
    Config {
        bridge: BridgeConfig {
            domain: "example.org".to_string(),
            port: 9005,
            bind_address: "127.0.0.1".to_string(),
            homeserver_url: "http://localhost:8008".to_string(),
            presence_interval: 500,
            disable_presence: false,
            disable_typing_notifications: false,
            disable_slack_mentions: false,
            disable_deletion_forwarding: false,
            enable_self_service_bridging: true,
            disable_portal_bridging: false,
            disable_read_receipts: false,
            disable_everyone_mention: false,
            disable_here_mention: false,
            disable_join_leave_notifications: false,
            disable_invite_notifications: false,
            disable_room_topic_notifications: false,
            determine_code_language: false,
            user_limit: None,
            admin_mxid: None,
            invalid_token_message: "Your Slack bot token seems to be invalid".to_string(),
        },
        registration: RegistrationConfig::default(),
        auth: AuthConfig {
            bot_token: "token".to_string(),
            app_token: Some("xapp-token".to_string()),
            client_id: None,
            client_secret: None,
            use_privileged_intents: false,
        },
        logging: LoggingConfig {
            level: "info".to_string(),
            line_date_format: "MMM-D HH:mm:ss.SSS".to_string(),
            format: "pretty".to_string(),
            file: None,
            files: vec![],
        },
        database: DatabaseConfig {
            url: Some("postgres://localhost/bridge".to_string()),
            conn_string: None,
            filename: None,
            user_store_path: None,
            room_store_path: None,
            max_connections: Some(1),
            min_connections: Some(1),
        },
        room: RoomConfig {
            default_visibility: "private".to_string(),
            room_alias_prefix: "_slack".to_string(),
            enable_room_creation: true,
            kick_for: 30000,
        },
        channel: ChannelConfig {
            name_pattern: "[Slack] :guild :name".to_string(),
            enable_channel_creation: false,
            channel_name_format: ":name".to_string(),
            topic_format: ":topic".to_string(),
            delete_options: ChannelDeleteOptionsConfig::default(),
            enable_webhook: true,
            webhook_name: "_matrix".to_string(),
            webhook_avatar: String::new(),
        },
        limits: LimitsConfig::default(),
        ghosts: GhostsConfig {
            nick_pattern: ":nick".to_string(),
            username_pattern: ":username#:tag".to_string(),
            username_template: "_slack_:id".to_string(),
            displayname_template: ":username".to_string(),
            avatar_url_template: None,
        },
        metrics: MetricsConfig::default(),
    }
}

fn channel(id: &str, name: &str, guild: &str) -> SlackChannel {
    SlackChannel {
        id: id.to_string(),
        name: name.to_string(),
        guild_id: guild.to_string(),
        topic: None,
    }
}

fn bridged_core() -> BridgeCore {
    let mut core = BridgeCore::new(test_config());
    let result = core
        .bridge_matrix_room("!room:example.org", "T1", "C1", Some(&channel("C1", "general", "T1")), 1_000)
        .unwrap();
    assert_eq!(result.reply, "I have bridged this room to your channel");
    core
}

fn message_event(room_id: &str, sender: &str, body: &str, reply_to: Option<&str>) -> MatrixEvent {
    let mut content = MatrixEventContent::empty();
    content.text = MessageText {
        msgtype: Some("m.text".to_string()),
        body: Some(body.to_string()),
        url: None,
    };
    if let Some(target) = reply_to {
        content.relates_to = Some(RelatesTo {
            in_reply_to_event_id: Some(target.to_string()),
            rel_type: None,
            event_id: None,
        });
    }
    MatrixEvent {
        event_id: Some("$event".to_string()),
        event_type: "m.room.message".to_string(),
        room_id: room_id.to_string(),
        sender: sender.to_string(),
        state_key: None,
        content: Some(content),
        timestamp: None,
    }
}

#[test]
fn unmapped_room_handlers_are_no_ops() {
    let mut core = BridgeCore::new(test_config());
    assert_eq!(core.bridged_room_count(), 0);

    let event = message_event("!nowhere:example.org", "@alice:example.org", "hello", None);
    assert_eq!(
        core.handle_matrix_message(&event, true, 2_000),
        MatrixInboundDisposition::DroppedNoMapping
    );

    let ctx = SlackMessageContext {
        channel_id: "C404".to_string(),
        source_message_id: Some("1.1".to_string()),
        sender_id: "U1".to_string(),
        content: "hello".to_string(),
        attachments: vec![],
        reply_to: None,
        edit_of: None,
        permissions: vec![],
    };
    assert_eq!(
        core.prepare_slack_inbound(&ctx),
        SlackInboundDisposition::DroppedNoMapping
    );

    assert_eq!(core.handle_slack_typing("C404", "U1"), None);
    assert_eq!(core.handle_slack_reaction_added("C404", "1.1", "U1", "wave"), None);
    assert_eq!(core.handle_slack_message_delete("1.1"), None);
    assert_eq!(core.bridged_room_count(), 0);
}

#[test]
fn bridge_room_is_idempotent_safe() {
    let mut core = bridged_core();
    assert_eq!(core.bridged_room_count(), 1);

    let again = core
        .bridge_matrix_room(
            "!other:example.org",
            "T1",
            "C1",
            Some(&channel("C1", "general", "T1")),
            2_000,
        )
        .unwrap();
    assert_eq!(again.reply, "This Slack channel is already bridged.");
    assert!(again.room_name_update.is_none());
    assert_eq!(core.bridged_room_count(), 1);
}

#[test]
fn inbound_matrix_reply_resolves_to_destination_id() {
    let mut core = bridged_core();
    core.record_slack_message_sent("100.1", "!room:example.org", "$orig", 1_500)
        .unwrap();

    let event = message_event("!room:example.org", "@alice:example.org", "hello", Some("$orig"));
    match core.handle_matrix_message(&event, true, 2_000) {
        MatrixInboundDisposition::Forward {
            slack_channel_id,
            outbound,
        } => {
            assert_eq!(slack_channel_id, "C1");
            assert_eq!(outbound.content, "hello");
            assert_eq!(outbound.reply_to, Some("100.1".to_string()));
            assert_eq!(outbound.edit_of, None);
        }
        other => panic!("expected a forward, got {:?}", other),
    }
}

#[test]
fn unresolved_reply_passes_foreign_id_through() {
    let mut core = bridged_core();
    let event = message_event("!room:example.org", "@alice:example.org", "hi", Some("$unknown"));
    match core.handle_matrix_message(&event, true, 2_000) {
        MatrixInboundDisposition::Forward { outbound, .. } => {
            assert_eq!(outbound.reply_to, Some("$unknown".to_string()));
        }
        other => panic!("expected a forward, got {:?}", other),
    }
}

#[test]
fn slack_edit_resends_and_updates_mapping_without_duplicates() {
    let mut core = bridged_core();
    core.record_slack_message_sent("200.5", "!room:example.org", "$first", 1_500)
        .unwrap();

    let ctx = SlackMessageContext {
        channel_id: "C1".to_string(),
        source_message_id: Some("200.5".to_string()),
        sender_id: "U7".to_string(),
        content: "edited text".to_string(),
        attachments: vec![],
        reply_to: None,
        edit_of: Some("200.5".to_string()),
        permissions: vec![],
    };
    match core.prepare_slack_inbound(&ctx) {
        SlackInboundDisposition::Forward {
            matrix_room_id,
            outbound,
            source_message_id,
            ..
        } => {
            assert_eq!(matrix_room_id, "!room:example.org");
            assert_eq!(outbound.edit_of, Some("$first".to_string()));
            assert_eq!(source_message_id, Some("200.5".to_string()));
        }
        other => panic!("expected a forward, got {:?}", other),
    }

    core.record_slack_message_sent("200.5", "!room:example.org", "$second", 2_000)
        .unwrap();
    assert_eq!(core.message_mapping_count(), 1);
    let redaction = core.handle_slack_message_delete("200.5").unwrap();
    assert_eq!(redaction.event_id, "$second");
}

#[test]
fn moderation_fanout_reports_partial_failure() {
    let mut core = BridgeCore::new(test_config());
    for (room, chan) in [("!a:x", "CA"), ("!b:x", "CB"), ("!c:x", "CC")] {
        core.bridge_matrix_room(room, "T9", chan, Some(&channel(chan, chan, "T9")), 1_000)
            .unwrap();
    }

    let plan = core.moderation_plan(
        ModerationAction::Ban,
        "@target:example.org",
        "U_mod",
        "CA",
        "T9",
        "!a:x",
    );
    assert_eq!(plan.rooms.len(), 3);

    let results = vec![true, true, false];
    let notified: Vec<&String> = plan
        .rooms
        .iter()
        .zip(results.iter())
        .filter(|(_, ok)| **ok)
        .map(|(room, _)| room)
        .collect();
    assert_eq!(notified.len(), 2);

    let reply = core.moderation_reply(ModerationAction::Ban, "@target:example.org", &results);
    assert_eq!(
        reply,
        "Banned @target:example.org in 2 room(s), failed in 1 room(s)."
    );

    let all_ok = core.moderation_reply(ModerationAction::Kick, "@t:x", &vec![true, true]);
    assert_eq!(all_ok, "Kicked @t:x in 2 bridged room(s).");
}

#[test]
fn channel_queue_processes_in_order() {
    let mut queue = ChannelQueue::new();
    let t0 = queue.enqueue("channel1").unwrap();
    let t1 = queue.enqueue("channel1").unwrap();
    let t2 = queue.enqueue("channel1").unwrap();
    assert_eq!((t0, t1, t2), (0, 1, 2));

    let mut order = Vec::new();
    while let Some(t) = queue.complete_next("channel1") {
        order.push(t);
    }
    assert_eq!(order, vec![0, 1, 2]);
}

#[test]
fn different_channels_process_independently() {
    let mut queue = ChannelQueue::new();
    queue.enqueue("channel1").unwrap();
    queue.enqueue("channel2").unwrap();

    let mut order = Vec::new();
    order.push(("ch2", queue.complete_next("channel2").unwrap()));
    order.push(("ch1", queue.complete_next("channel1").unwrap()));
    assert_eq!(order, vec![("ch2", 0), ("ch1", 0)]);
}

#[test]
fn queue_completion_order_matches_submission_order_across_interleavings() {
    let mut seed: u64 = 12345;
    for _round in 0..100 {
        let mut queue = ChannelQueue::new();
        let keys = ["alpha", "beta", "gamma"];
        let mut submitted: Vec<Vec<u64>> = vec![Vec::new(), Vec::new(), Vec::new()];
        for _step in 0..30 {
            seed = seed.wrapping_mul(6364136223846793005).wrapping_add(1442695040888963407);
            let k = (seed >> 33) as usize % keys.len();
            let ticket = queue.enqueue(keys[k]).unwrap();
            submitted[k].push(ticket);
        }
        let mut completed: Vec<Vec<u64>> = vec![Vec::new(), Vec::new(), Vec::new()];
        loop {
            seed = seed.wrapping_mul(6364136223846793005).wrapping_add(1442695040888963407);
            let k = (seed >> 33) as usize % keys.len();
            match queue.complete_next(keys[k]) {
                Some(t) => completed[k].push(t),
                None => {
                    let done = (0..keys.len())
                        .all(|j| completed[j].len() == submitted[j].len());
                    if done {
                        break;
                    }
                }
            }
        }
        for k in 0..keys.len() {
            assert_eq!(completed[k], submitted[k]);
        }
    }
}

#[test]
fn double_request_then_single_resolution_applies_once() {
    let mut coordinator = ProvisioningCoordinator::new(300_000);
    assert!(coordinator.register_request("C1"));
    assert!(!coordinator.register_request("C1"));

    assert_eq!(coordinator.mark_approval("C1", true), ApprovalResponseStatus::Applied);
    assert_eq!(coordinator.mark_approval("C1", true), ApprovalResponseStatus::Expired);
}

#[test]
fn resolving_unknown_channel_is_expired() {
    let mut coordinator = ProvisioningCoordinator::new(300_000);
    assert_eq!(
        coordinator.mark_approval("C_nobody", true),
        ApprovalResponseStatus::Expired
    );
}

#[test]
fn provisioning_wait_outcomes_map_to_errors() {
    let mut coordinator = ProvisioningCoordinator::new(300_000);
    assert!(coordinator.register_request("C1"));
    assert!(coordinator.finish_wait("C1", WaitOutcome::Decision(true)).is_ok());
    assert!(coordinator.register_request("C2"));
    assert!(coordinator.finish_wait("C2", WaitOutcome::TimedOut).is_err());
    assert!(!coordinator.has_pending_request("C2"));
}

#[test]
fn bridge_request_round_trip_through_provisioning() {
    let mut core = BridgeCore::new(test_config());
    let chan = channel("C1", "general", "T1");
    let start = core.begin_bridge_request("C1", Some(&chan), "@alice:example.org");
    let channel_id = match start {
        BridgeRequestStart::AskPermission {
            channel_id,
            prompt,
            notice,
        } => {
            assert!(prompt.contains("@alice:example.org"));
            assert!(prompt.contains("5 minutes"));
            assert_eq!(
                notice,
                "I'm asking permission from the guild administrators to make this bridge."
            );
            channel_id
        }
        other => panic!("expected a permission prompt, got {:?}", other),
    };

    let (status, reply) = core.mark_provisioning_approval(&channel_id, true);
    assert_eq!(status, ApprovalResponseStatus::Applied);
    assert_eq!(
        reply,
        "Thanks for your response! The matrix bridge has been approved."
    );

    let result = core
        .finish_bridge_request(
            "!room:example.org",
            "T1",
            "C1",
            Some(&chan),
            WaitOutcome::Decision(true),
            1_000,
        )
        .unwrap();
    assert_eq!(result.reply, "I have bridged this room to your channel");
    let (room_id, name) = result.room_name_update.unwrap();
    assert_eq!(room_id, "!room:example.org");
    assert_eq!(name, "[Slack] T1 #general");
    assert_eq!(core.bridged_room_count(), 1);
}

#[test]
fn unbridge_round_trip() {
    let mut core = bridged_core();
    let (reply, actions) = core.unbridge_matrix_room("!room:example.org");
    assert_eq!(reply, "This room has been unbridged");
    assert_eq!(actions.remove_alias, Some("#_slackC1:example.org".to_string()));
    assert_eq!(core.bridged_room_count(), 0);

    let (reply, _) = core.unbridge_matrix_room("!room:example.org");
    assert_eq!(reply, "This room is not bridged.");
}

#[test]
fn declined_bridge_request_reports_decline() {
    let mut core = BridgeCore::new(test_config());
    let chan = channel("C1", "general", "T1");
    core.begin_bridge_request("C1", Some(&chan), "@alice:example.org");
    let result = core
        .finish_bridge_request(
            "!room:example.org",
            "T1",
            "C1",
            Some(&chan),
            WaitOutcome::Decision(false),
            1_000,
        )
        .unwrap();
    assert_eq!(result.reply, "The bridge has been declined by the Slack guild.");
    assert_eq!(core.bridged_room_count(), 0);
}

#[test]
fn already_bridged_wins_over_the_room_ceiling() {
    let mut config = test_config();
    config.limits.room_count = 1;
    let mut core = BridgeCore::new(config);
    core.bridge_matrix_room("!room:example.org", "T1", "C1", Some(&channel("C1", "general", "T1")), 1_000)
        .unwrap();
    assert_eq!(core.bridged_room_count(), 1);

    let again = core
        .bridge_matrix_room(
            "!other:example.org",
            "T1",
            "C1",
            Some(&channel("C1", "general", "T1")),
            2_000,
        )
        .unwrap();
    assert_eq!(again.reply, "This Slack channel is already bridged.");
    assert_eq!(core.bridged_room_count(), 1);

    let blocked = core
        .bridge_matrix_room(
            "!other:example.org",
            "T1",
            "C2",
            Some(&channel("C2", "random", "T1")),
            3_000,
        )
        .unwrap();
    assert!(blocked.reply.contains("room limit"));
    assert_eq!(core.bridged_room_count(), 1);
}

#[test]
fn first_inbound_sender_gains_a_ghost_mapping() {
    let mut core = bridged_core();
    let plan = core
        .sync_remote_user_profile("U7", Some("seven"), Some("https://a/7.png"), false, 1_500)
        .unwrap();
    assert!(plan.create);
    assert_eq!(plan.slack_id, "U7");
    assert_eq!(plan.mx_user_id, "@_slack_U7:example.org");
    assert_eq!(plan.set_displayname.as_deref(), Some("seven#0000"));
    assert_eq!(plan.set_avatar_url.as_deref(), Some("https://a/7.png"));

    let second = core
        .sync_remote_user_profile("U7", Some("seven#0000"), Some("https://a/7.png"), false, 2_000)
        .unwrap();
    assert!(!second.create);
    assert!(second.set_avatar_url.is_none());
}

#[test]
fn own_presence_updates_are_echo_once_identity_is_set() {
    let mut core = bridged_core();
    core.set_own_slack_identity(Some("U_SELF".to_string()));
    core.enqueue_slack_presence(slack_bridge::presence::SlackPresence {
        user_id: "U_SELF".to_string(),
        username: None,
        state: slack_bridge::presence::SlackPresenceState::Online,
        activities: vec![],
    });
    assert!(core.process_next_presence().is_none());
    core.enqueue_slack_presence(slack_bridge::presence::SlackPresence {
        user_id: "U_OTHER".to_string(),
        username: None,
        state: slack_bridge::presence::SlackPresenceState::Online,
        activities: vec![],
    });
    assert!(core.process_next_presence().is_some());
}
