use slack_bridge::events::MatrixEvent;
use slack_bridge::matrix::{
    build_matrix_message_content, check_event_age, ghost_user_id, is_namespaced_user,
    route_matrix_event, slack_user_id_from_mxid, MatrixEventRoute,
};
use slack_bridge::user_sync::sanitize_for_mxid;

const AGE_LIMIT_MS: i64 = 900_000;

fn make_event(ts: Option<i64>) -> MatrixEvent {
    MatrixEvent {
        event_id: Some("$test".to_string()),
        event_type: "m.room.message".to_string(),
        room_id: "!room:example.org".to_string(),
        sender: "@user:example.org".to_string(),
        state_key: None,
        content: None,
        timestamp: ts,
    }
}

#[test]
fn message_content_adds_reply_relation() {
    let content = build_matrix_message_content("hello", Some("$event123"), None);
    assert_eq!(content.text.msgtype.as_deref(), Some("m.text"));
    assert_eq!(content.text.body.as_deref(), Some("hello"));
    let relates = content.relates_to.expect("reply relation");
    assert_eq!(relates.in_reply_to_event_id.as_deref(), Some("$event123"));
    assert!(content.new_content.is_none());
}

#[test]
fn message_content_adds_edit_relation() {
    let content = build_matrix_message_content("new body", None, Some("$old_event"));
    assert_eq!(content.text.msgtype.as_deref(), Some("m.text"));
    assert_eq!(content.text.body.as_deref(), Some("* new body"));
    let new_content = content.new_content.expect("replacement content");
    assert_eq!(new_content.body.as_deref(), Some("new body"));
    let relates = content.relates_to.expect("edit relation");
    assert_eq!(relates.rel_type.as_deref(), Some("m.replace"));
    assert_eq!(relates.event_id.as_deref(), Some("$old_event"));
}

#[test]
fn message_content_prefers_edit_relation_over_reply_relation() {
    let content = build_matrix_message_content("edited", Some("$reply_target"), Some("$edit_target"));

    assert_eq!(content.text.body.as_deref(), Some("* edited"));
    let relates = content.relates_to.expect("edit relation");
    assert_eq!(relates.rel_type.as_deref(), Some("m.replace"));
    assert_eq!(relates.event_id.as_deref(), Some("$edit_target"));
    assert!(relates.in_reply_to_event_id.is_none());
}

#[test]
fn ghost_user_id_uses_expected_namespace() {
    let user_id = ghost_user_id("12345", "example.org");
    assert_eq!(user_id, "@_slack_12345:example.org");
}

#[test]
fn is_namespaced_user_detects_ghost_users() {
    assert!(is_namespaced_user("@_slack_12345:example.org"));
    assert!(is_namespaced_user("@_slack_:example.org"));
    assert!(!is_namespaced_user("@alice:example.org"));
    assert!(!is_namespaced_user("@_slack:example.org"));
}

#[test]
fn check_event_age_allows_recent_events() {
    let now: i64 = 1_700_000_000_000;
    let event = make_event(Some(now));
    assert!(check_event_age(&event, AGE_LIMIT_MS, now));
}

#[test]
fn check_event_age_rejects_old_events() {
    let now: i64 = 1_700_000_000_000;
    let event = make_event(Some(now - 1_000_000));
    assert!(!check_event_age(&event, AGE_LIMIT_MS, now));
}

#[test]
fn check_event_age_allows_events_without_timestamp() {
    let now: i64 = 1_700_000_000_000;
    let event = make_event(None);
    assert!(check_event_age(&event, AGE_LIMIT_MS, now));
}

#[test]
fn check_event_age_allows_future_events() {
    let now: i64 = 1_700_000_000_000;
    let event = make_event(Some(now + 60_000));
    assert!(check_event_age(&event, AGE_LIMIT_MS, now));
}

#[test]
fn sanitize_for_mxid_replaces_special_chars() {
    let result = sanitize_for_mxid("hello world!");
    assert_eq!(result, "hello_world_");
}

#[test]
fn sanitize_for_mxid_keeps_alphanumeric() {
    let result = sanitize_for_mxid("User123");
    assert_eq!(result, "User123");
}

#[test]
fn sanitize_for_mxid_keeps_special_allowed() {
    let result = sanitize_for_mxid("user-name.test_123");
    assert_eq!(result, "user-name.test_123");
}

#[test]
fn ghost_ids_round_trip_through_decomposition() {
    let gid = ghost_user_id("U123", "example.org");
    assert_eq!(
        slack_user_id_from_mxid(&gid, "example.org"),
        Some("U123".to_string())
    );
    assert_eq!(slack_user_id_from_mxid("@alice:example.org", "example.org"), None);
    assert_eq!(slack_user_id_from_mxid("@_slack_:example.org", "example.org"), None);
}

#[test]
fn matrix_event_dispatch_table() {
    assert_eq!(route_matrix_event("m.room.message"), MatrixEventRoute::RoomMessage);
    assert_eq!(route_matrix_event("m.room.member"), MatrixEventRoute::RoomMember);
    assert_eq!(route_matrix_event("m.room.encryption"), MatrixEventRoute::RoomEncryption);
    assert_eq!(route_matrix_event("m.room.name"), MatrixEventRoute::RoomName);
    assert_eq!(route_matrix_event("m.room.topic"), MatrixEventRoute::RoomTopic);
    assert_eq!(route_matrix_event("m.room.power_levels"), MatrixEventRoute::RoomPowerLevels);
    assert_eq!(route_matrix_event("m.somewhere.else"), MatrixEventRoute::Unhandled);
}
