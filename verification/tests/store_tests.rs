use slack_bridge::emoji::{
    emoji_to_matrix_html, emoji_to_matrix_plain, emoji_upload_decision, record_emoji_upload,
    EmojiDecision,
};
use slack_bridge::errors::AppError;
use slack_bridge::models::{DatabaseError, EmojiMapping, MessageMapping, RoomMapping, UserMapping};
use slack_bridge::provisioning::{ProvisioningCoordinator, ProvisioningError};
use slack_bridge::store::MappingStore;

fn room(matrix: &str, channel: &str, team: &str) -> RoomMapping {
    RoomMapping {
        id: 0,
        matrix_room_id: matrix.to_string(),
        slack_channel_id: channel.to_string(),
        slack_channel_name: "general".to_string(),
        slack_team_id: team.to_string(),
        created_at: 0,
        updated_at: 0,
    }
}

#[test]
fn room_mappings_are_unique_per_side() {
    let mut store = MappingStore::new();
    assert!(store.create_room_mapping(&room("!a:x", "C1", "T1")).is_ok());
    assert!(store.create_room_mapping(&room("!a:x", "C2", "T1")).is_err());
    assert!(store.create_room_mapping(&room("!b:x", "C1", "T1")).is_err());
    assert!(store.create_room_mapping(&room("!b:x", "C2", "T1")).is_ok());
    assert_eq!(store.count_rooms(), 2);

    let found = store.get_room_by_matrix_room("!a:x").unwrap();
    assert_eq!(found.slack_channel_id, "C1");
    let by_channel = store.get_room_by_slack_channel("C2").unwrap();
    assert_eq!(by_channel.matrix_room_id, "!b:x");
    assert!(store.get_room_by_matrix_room("!zzz:x").is_none());

    let by_guild = store.get_rooms_by_guild("T1");
    assert_eq!(by_guild.len(), 2);

    let id = found.id;
    assert!(store.delete_room_mapping(id).is_ok());
    assert!(store.delete_room_mapping(id).is_err());
    assert_eq!(store.count_rooms(), 1);
}

#[test]
fn message_upsert_refreshes_in_place() {
    let mut store = MappingStore::new();
    let first = MessageMapping {
        id: 0,
        slack_message_id: "100.1".to_string(),
        matrix_room_id: "!a:x".to_string(),
        matrix_event_id: "$one".to_string(),
        created_at: 1,
        updated_at: 1,
    };
    store.upsert_message_mapping(&first).unwrap();
    let second = MessageMapping {
        matrix_event_id: "$two".to_string(),
        updated_at: 2,
        ..first.clone()
    };
    store.upsert_message_mapping(&second).unwrap();
    assert_eq!(store.count_messages(), 1);
    let found = store.get_by_slack_message_id("100.1").unwrap();
    assert_eq!(found.matrix_event_id, "$two");
    let reverse = store.get_by_matrix_event_id("$two").unwrap();
    assert_eq!(reverse.slack_message_id, "100.1");

    assert!(store.delete_by_slack_message_id("100.1"));
    assert!(!store.delete_by_slack_message_id("100.1"));
}

#[test]
fn user_mappings_key_on_remote_id() {
    let mut store = MappingStore::new();
    let user = UserMapping {
        id: 0,
        matrix_user_id: "@_slack_U1:x".to_string(),
        slack_user_id: "U1".to_string(),
        slack_username: "seven".to_string(),
        slack_discriminator: "0000".to_string(),
        slack_avatar: None,
        created_at: 0,
        updated_at: 0,
    };
    assert!(store.create_user_mapping(&user).is_ok());
    assert!(store.create_user_mapping(&user).is_err());
    assert_eq!(store.count_users(), 1);
    let found = store.get_user_by_slack_id("U1").unwrap();
    assert_eq!(found.slack_username, "seven");

    let mut updated = found.clone();
    updated.slack_username = "eight".to_string();
    assert!(store.update_user_mapping(&updated).is_ok());
    assert_eq!(store.get_user_by_slack_id("U1").unwrap().slack_username, "eight");
}

#[test]
fn emoji_cache_short_circuits_second_fetch() {
    let mut store = MappingStore::new();
    match emoji_upload_decision(&store, "123", false) {
        EmojiDecision::FetchAndUpload {
            source_url,
            content_type,
        } => {
            assert_eq!(source_url, "https://cdn.slackapp.com/emojis/123.png");
            assert_eq!(content_type, "image/png");
        }
        other => panic!("expected a fetch, got {:?}", other),
    }
    assert!(record_emoji_upload(
        &mut store,
        "123",
        "smile",
        false,
        "mxc://example.org/abc123",
        5
    ));
    match emoji_upload_decision(&store, "123", false) {
        EmojiDecision::Cached(mxc) => assert_eq!(mxc, "mxc://example.org/abc123"),
        other => panic!("expected the cached upload, got {:?}", other),
    }
    assert!(matches!(
        emoji_upload_decision(&store, "not-numeric", false),
        EmojiDecision::RejectedNonNumericId
    ));
    match emoji_upload_decision(&store, "99", true) {
        EmojiDecision::FetchAndUpload {
            source_url,
            content_type,
        } => {
            assert_eq!(source_url, "https://cdn.slackapp.com/emojis/99.gif");
            assert_eq!(content_type, "image/gif");
        }
        other => panic!("expected a fetch, got {:?}", other),
    }
}

#[test]
fn emoji_to_matrix_html_creates_correct_format() {
    let html = emoji_to_matrix_html("mxc://example.org/abc123", "smile");
    assert!(html.contains("mxc://example.org/abc123"));
    assert!(html.contains(":smile:"));
    assert!(html.contains("data-mx-emoticon"));
}

#[test]
fn emoji_to_matrix_plain_creates_correct_format() {
    let plain = emoji_to_matrix_plain("smile");
    assert_eq!(plain, ":smile:");
}

#[test]
fn emoji_mapping_source_address_follows_animation() {
    let frame = EmojiMapping::new("55".to_string(), "party".to_string(), true, "mxc://x/1".to_string(), 0);
    assert_eq!(frame.slack_url(), "https://cdn.slackapp.com/emojis/55.gif");
    let still = EmojiMapping::new("55".to_string(), "party".to_string(), false, "mxc://x/1".to_string(), 0);
    assert_eq!(still.slack_url(), "https://cdn.slackapp.com/emojis/55.png");
}

#[test]
fn error_messages_carry_their_family() {
    assert_eq!(
        AppError::Config("bad port".to_string()).message(),
        "Configuration error: bad port"
    );
    assert_eq!(
        DatabaseError::NotFound("room mapping".to_string()).message(),
        "Not found: room mapping"
    );
    assert_eq!(
        ProvisioningError::TimedOut.message(),
        "Timed out waiting for a response from the Slack owners."
    );
    assert_eq!(
        ProvisioningError::DeliveryFailed.message(),
        "Could not send bridge permission request to Slack."
    );
}

#[test]
fn provisioning_prompt_rounds_deadline_up_to_minutes() {
    let coordinator = ProvisioningCoordinator::new(300_000);
    let prompt = coordinator.prompt_message("@alice:example.org");
    assert!(prompt.starts_with("@alice:example.org on matrix would like to bridge this channel."));
    assert!(prompt.ends_with("in the next 5 minutes."));

    let short = ProvisioningCoordinator::new(10_000);
    assert!(short.prompt_message("x").ends_with("in the next 1 minutes."));

    let uneven = ProvisioningCoordinator::new(150_000);
    assert!(uneven.prompt_message("x").ends_with("in the next 3 minutes."));
}

#[test]
fn delivery_failure_clears_pending_entry() {
    let mut coordinator = ProvisioningCoordinator::default();
    assert!(coordinator.register_request("C1"));
    assert!(coordinator.has_pending_request("C1"));
    let err = coordinator.delivery_failed("C1");
    assert_eq!(err, ProvisioningError::DeliveryFailed);
    assert!(!coordinator.has_pending_request("C1"));
}
