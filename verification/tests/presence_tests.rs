use slack_bridge::presence::{
    MatrixPresenceState, PresenceHandler, SlackActivity, SlackPresence, SlackPresenceState,
};

fn presence(user_id: &str, state: SlackPresenceState) -> SlackPresence {
    SlackPresence {
        user_id: user_id.to_string(),
        username: Some("alice".to_string()),
        state,
        activities: vec![],
    }
}

#[test]
fn enqueue_replaces_stale_presence() {
    let mut handler = PresenceHandler::new(None);
    let first = presence("1", SlackPresenceState::Online);
    let second = presence("1", SlackPresenceState::Idle);

    handler.enqueue_user(first);
    handler.enqueue_user(second);
    assert_eq!(handler.queue_count(), 1);
}

#[test]
fn dnd_maps_to_online_with_prefix() {
    let presence = SlackPresence {
        user_id: "1".to_string(),
        username: None,
        state: SlackPresenceState::Dnd,
        activities: vec![SlackActivity {
            kind: "STREAMING".to_string(),
            name: "Rust".to_string(),
            url: Some("https://example.org".to_string()),
        }],
    };

    let decision = PresenceHandler::map_presence(&presence);
    assert_eq!(decision.presence, MatrixPresenceState::Online);
    assert_eq!(
        decision.status_message,
        "Do not disturb | Streaming Rust | https://example.org"
    );
}

#[test]
fn offline_presence_is_dropped_after_processing() {
    let mut handler = PresenceHandler::new(None);
    handler.enqueue_user(presence("1", SlackPresenceState::Offline));

    let processed = handler.process_next();
    assert!(processed.is_some());
    assert_eq!(handler.queue_count(), 0);
}

#[test]
fn non_offline_presence_requeues() {
    let mut handler = PresenceHandler::new(None);
    handler.enqueue_user(presence("1", SlackPresenceState::Online));

    let processed = handler.process_next();
    assert!(processed.is_some());
    assert_eq!(handler.queue_count(), 1);
}

#[test]
fn only_offline_yields_should_drop() {
    assert!(PresenceHandler::map_presence(&presence("1", SlackPresenceState::Offline)).should_drop);
    assert!(!PresenceHandler::map_presence(&presence("1", SlackPresenceState::Online)).should_drop);
    assert!(!PresenceHandler::map_presence(&presence("1", SlackPresenceState::Dnd)).should_drop);
    assert!(!PresenceHandler::map_presence(&presence("1", SlackPresenceState::Idle)).should_drop);
}

#[test]
fn dnd_without_activity_is_bare_do_not_disturb() {
    let decision = PresenceHandler::map_presence(&presence("1", SlackPresenceState::Dnd));
    assert_eq!(decision.status_message, "Do not disturb");
    assert!(decision.status_message.starts_with("Do not disturb"));
}

#[test]
fn idle_maps_to_unavailable_with_activity_line() {
    let mut p = presence("1", SlackPresenceState::Idle);
    p.activities = vec![SlackActivity {
        kind: "playing".to_string(),
        name: "chess".to_string(),
        url: None,
    }];
    let decision = PresenceHandler::map_presence(&p);
    assert_eq!(decision.presence, MatrixPresenceState::Unavailable);
    assert_eq!(decision.status_message, "Playing chess");
}

#[test]
fn bot_updates_are_dropped_at_the_door() {
    let mut handler = PresenceHandler::new(Some("bot-1".to_string()));
    handler.enqueue_user(presence("bot-1", SlackPresenceState::Online));
    assert_eq!(handler.queue_count(), 0);
    handler.enqueue_user(presence("user-2", SlackPresenceState::Online));
    assert_eq!(handler.queue_count(), 1);
}

#[test]
fn dequeue_user_removes_queued_entry() {
    let mut handler = PresenceHandler::new(None);
    handler.enqueue_user(presence("1", SlackPresenceState::Online));
    handler.enqueue_user(presence("2", SlackPresenceState::Online));
    assert!(handler.dequeue_user("1"));
    assert!(!handler.dequeue_user("1"));
    assert_eq!(handler.queue_count(), 1);
}
