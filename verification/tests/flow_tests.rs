use slack_bridge::admin::AdminConfig;
use slack_bridge::blocker::{check_and_update_status, BridgeState, BridgeStatus};
use slack_bridge::embed::{build_matrix_message_embed, build_reply_embed, EmbedAuthor, SlackEmbed};
use slack_bridge::events::{MatrixEvent, MatrixEventContent, MessageText, RelatesTo};
use slack_bridge::formatting::apply_pattern_string;
use slack_bridge::message_flow::{
    MessageFlow, MessageRelation, OutboundMatrixMessage, OutboundSlackMessage,
    SlackInboundMessage,
};
use slack_bridge::transport::{
    is_own_message, next_retry_seconds, plan_socket_frame, route_slack_event, FileLinks,
    SlackEvent, SlackEventRoute, SocketFrame,
};

#[test]
fn admin_config_defaults() {
    let config = AdminConfig::default();
    assert!(config.admin_mxid.is_none());
    assert!(config.notify_on_token_invalid);
    assert!(config.notify_on_errors);
}

#[test]
fn admin_notifier_stores_admin_mxid() {
    let config = AdminConfig {
        admin_mxid: Some("@admin:example.org".to_string()),
        ..AdminConfig::default()
    };
    assert!(config.has_admin_configured());
    assert_eq!(config.admin_mxid.as_deref(), Some("@admin:example.org"));
}

#[test]
fn bridge_status_defaults_to_active() {
    let status = BridgeStatus {
        state: BridgeState::Active,
        active_users: 0,
        total_rooms: 0,
        messages_sent: 0,
        messages_received: 0,
        last_check: 0,
        pause_reason: None,
    };
    assert_eq!(status.state, BridgeState::Active);
}

#[test]
fn blocker_limits_and_recovers() {
    let status = BridgeStatus::initial(0);
    let limited = check_and_update_status(status, 150, 3, 100, 10);
    assert_eq!(limited.state, BridgeState::Limited);
    assert_eq!(
        limited.pause_reason.as_deref(),
        Some("User limit exceeded: 150 > 100")
    );
    let recovered = check_and_update_status(limited, 90, 3, 100, 20);
    assert_eq!(recovered.state, BridgeState::Active);
    assert!(recovered.pause_reason.is_none());
}

#[test]
fn test_apply_pattern_string() {
    let vars = [("id", "1234"), ("tag", "5678"), ("username", "testuser")];
    assert_eq!(
        apply_pattern_string(":username#:tag", &vars),
        "testuser#5678"
    );

    let nick_vars = [
        ("id", "1234"),
        ("nick", "Test Nick"),
        ("tag", "5678"),
        ("username", "testuser"),
    ];
    assert_eq!(
        apply_pattern_string("[Slack] :nick", &nick_vars),
        "[Slack] Test Nick"
    );
}

#[test]
fn build_matrix_message_embed_creates_proper_embed() {
    let embed = build_matrix_message_embed(
        "Alice",
        Some("https://example.com/avatar.png"),
        "Hello world",
        Some(("Bob", "Hi there")),
    );

    assert!(embed.description.is_some());
    assert!(embed.author.is_some());
    assert_eq!(embed.fields.len(), 1);
}

#[test]
fn reply_embed_carries_footer_and_color() {
    let embed = build_reply_embed("Bob", "original text", Some("$orig"));
    assert_eq!(embed.description.as_deref(), Some("original text"));
    assert_eq!(embed.footer.as_ref().unwrap().text, "Reply to Bob");
    assert_eq!(embed.color, Some(0x2D2D2D));
}

#[test]
fn embed_builder_sets_fields() {
    let embed = SlackEmbed::new()
        .title("t")
        .description("d")
        .author(EmbedAuthor {
            name: "Alice".to_string(),
            icon_url: None,
            url: None,
        })
        .field("k", "v", true)
        .color(7);
    assert_eq!(embed.title.as_deref(), Some("t"));
    assert_eq!(embed.description.as_deref(), Some("d"));
    assert_eq!(embed.author.as_ref().unwrap().name, "Alice");
    assert_eq!(embed.fields.len(), 1);
    assert!(embed.fields[0].inline);
    assert_eq!(embed.color, Some(7));
}

#[test]
fn parse_matrix_event_extracts_reply_and_attachment() {
    let mut content = MatrixEventContent::empty();
    content.text = MessageText {
        msgtype: Some("m.image".to_string()),
        body: Some("cat.png".to_string()),
        url: Some("mxc://example.org/cat".to_string()),
    };
    content.relates_to = Some(RelatesTo {
        in_reply_to_event_id: Some("$source".to_string()),
        rel_type: None,
        event_id: None,
    });
    let event = MatrixEvent {
        event_id: Some("$event".to_string()),
        event_type: "m.room.message".to_string(),
        room_id: "!room:example.org".to_string(),
        sender: "@alice:example.org".to_string(),
        state_key: None,
        content: Some(content),
        timestamp: None,
    };

    let parsed = MessageFlow::parse_matrix_event(&event).expect("matrix message should parse");
    assert_eq!(
        parsed.relation,
        Some(MessageRelation::Reply {
            event_id: "$source".to_string()
        })
    );
    assert_eq!(parsed.attachments.len(), 1);
    assert_eq!(parsed.attachments[0].url, "mxc://example.org/cat");
}

#[test]
fn matrix_to_slack_marks_edit_messages() {
    let flow = MessageFlow::new();
    let mut content = MatrixEventContent::empty();
    content.text = MessageText {
        msgtype: Some("m.text".to_string()),
        body: Some("new body".to_string()),
        url: None,
    };
    content.relates_to = Some(RelatesTo {
        in_reply_to_event_id: None,
        rel_type: Some("m.replace".to_string()),
        event_id: Some("$old".to_string()),
    });
    content.new_content = Some(MessageText {
        msgtype: Some("m.text".to_string()),
        body: Some("new body".to_string()),
        url: None,
    });
    let event = MatrixEvent {
        event_id: Some("$event".to_string()),
        event_type: "m.room.message".to_string(),
        room_id: "!room:example.org".to_string(),
        sender: "@alice:example.org".to_string(),
        state_key: None,
        content: Some(content),
        timestamp: None,
    };
    let inbound = MessageFlow::parse_matrix_event(&event).expect("matrix message");
    let outbound = flow.matrix_to_slack(&inbound);
    assert_eq!(outbound.edit_of, Some("$old".to_string()));
    assert_eq!(outbound.content, "new body".to_string());
}

#[test]
fn slack_to_matrix_sanitizes_markdown_and_keeps_reply() {
    let flow = MessageFlow::new();
    let outbound = flow.slack_to_matrix(&SlackInboundMessage {
        channel_id: "123".to_string(),
        sender_id: "55".to_string(),
        content: "*bold*".to_string(),
        attachments: vec!["https://example.org/a.png".to_string()],
        reply_to: Some("slack-msg-1".to_string()),
        edit_of: None,
    });

    assert_eq!(outbound.body, "*bold*".to_string());
    assert_eq!(outbound.reply_to, Some("slack-msg-1".to_string()));
    assert_eq!(
        outbound.attachments,
        vec!["https://example.org/a.png".to_string()]
    );
}

#[test]
fn render_content_joins_parts_in_order() {
    let outbound = OutboundSlackMessage {
        content: "hello".to_string(),
        reply_to: Some("100.1".to_string()),
        edit_of: Some("100.2".to_string()),
        attachments: vec!["https://a".to_string(), "https://b".to_string()],
        embed: None,
        use_embed: false,
    };
    assert_eq!(
        outbound.render_content(),
        "(reply:100.1)\n(edit:100.2)\nhello\nhttps://a https://b"
    );
    let bare = OutboundSlackMessage::new("only".to_string());
    assert_eq!(bare.render_content(), "only");
}

#[test]
fn render_body_marks_replies_and_edits() {
    let reply = OutboundMatrixMessage {
        body: "hello".to_string(),
        reply_to: Some("100.1".to_string()),
        edit_of: None,
        attachments: vec![],
    };
    assert_eq!(reply.render_body(), "> reply to 100.1\nhello");

    let edit = OutboundMatrixMessage {
        body: "fixed".to_string(),
        reply_to: None,
        edit_of: Some("100.2".to_string()),
        attachments: vec!["https://a".to_string()],
    };
    assert_eq!(edit.render_body(), "* fixed\n(edit:100.2)\nhttps://a");
}

#[test]
fn socket_frames_ack_and_disconnect() {
    let plan = plan_socket_frame(SocketFrame {
        envelope_id: Some("env-1".to_string()),
        frame_type: Some("events_api".to_string()),
        event: Some(SlackEvent::empty("message".to_string())),
    });
    assert_eq!(plan.ack_envelope_id, Some("env-1".to_string()));
    assert!(!plan.disconnect);
    assert!(plan.dispatch.is_some());

    let bye = plan_socket_frame(SocketFrame {
        envelope_id: Some("env-2".to_string()),
        frame_type: Some("disconnect".to_string()),
        event: Some(SlackEvent::empty("message".to_string())),
    });
    assert_eq!(bye.ack_envelope_id, Some("env-2".to_string()));
    assert!(bye.disconnect);
    assert!(bye.dispatch.is_none());
}

#[test]
fn message_subtype_rules_route_correctly() {
    let mut event = SlackEvent::empty("message".to_string());
    assert_eq!(
        route_slack_event(&event),
        SlackEventRoute::ForwardMessage { is_edit: false }
    );
    event.subtype = Some("message_changed".to_string());
    assert_eq!(
        route_slack_event(&event),
        SlackEventRoute::ForwardMessage { is_edit: true }
    );
    event.subtype = Some("message_deleted".to_string());
    assert_eq!(route_slack_event(&event), SlackEventRoute::DeleteMessage);
    event.subtype = Some("bot_message".to_string());
    assert_eq!(route_slack_event(&event), SlackEventRoute::Ignore);

    let typing = SlackEvent::empty("user_typing".to_string());
    assert_eq!(route_slack_event(&typing), SlackEventRoute::Typing);
    let unknown = SlackEvent::empty("goal_created".to_string());
    assert_eq!(route_slack_event(&unknown), SlackEventRoute::Ignore);
}

#[test]
fn backoff_doubles_to_ceiling() {
    let mut delay = 2;
    let mut seen = Vec::new();
    for _ in 0..10 {
        seen.push(delay);
        delay = next_retry_seconds(delay);
    }
    assert_eq!(seen, vec![2, 4, 8, 16, 32, 64, 128, 256, 300, 300]);
}

#[test]
fn own_messages_are_suppressed() {
    let me = "U_SELF".to_string();
    let bot = "B_SELF".to_string();
    let other = "U_OTHER".to_string();
    assert!(is_own_message(Some(&me), None, Some(&me), Some(&bot)));
    assert!(is_own_message(None, Some(&bot), Some(&me), Some(&bot)));
    assert!(!is_own_message(Some(&other), None, Some(&me), Some(&bot)));
    assert!(!is_own_message(None, None, Some(&me), Some(&bot)));
}

#[test]
fn file_links_pick_first_available_and_dedupe() {
    let files = vec![
        FileLinks {
            permalink_public: None,
            permalink: Some("https://p1".to_string()),
            url_private_download: Some("https://d1".to_string()),
            url_private: None,
        },
        FileLinks {
            permalink_public: None,
            permalink: Some("https://p1".to_string()),
            url_private_download: None,
            url_private: None,
        },
        FileLinks {
            permalink_public: None,
            permalink: None,
            url_private_download: None,
            url_private: None,
        },
    ];
    let links = slack_bridge::transport::extract_slack_attachments(&files);
    assert_eq!(links, vec!["https://p1".to_string()]);
}
