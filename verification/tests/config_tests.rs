use slack_bridge::config::{
    default_bind_address, default_channel_name_pattern, default_invalid_token_message,
    default_kick_for, default_line_date_format, default_log_format, default_log_level,
    default_nick_pattern, default_port, default_presence_interval, default_username_pattern,
    default_webhook_name, looks_like_placeholder_bot_token, sanitize_bot_token, AuthConfig,
    BridgeConfig, ChannelConfig, ChannelDeleteOptionsConfig, Config, ConfigError, DatabaseConfig,
    DbType, GhostsConfig, LimitsConfig, LoggingConfig, MetricsConfig, RegistrationConfig,
    RoomConfig,
};

#[test]
fn sanitize_bot_token_removes_prefix_and_whitespace() {
    let sanitized = sanitize_bot_token("  Bot abc123  ");
    assert_eq!(sanitized, "abc123");
}

#[test]
fn placeholder_detection_matches_common_values() {
    assert!(looks_like_placeholder_bot_token("YOUR_SLACK_BOT_TOKEN"));
    assert!(looks_like_placeholder_bot_token("your_bot_token_here"));
    assert!(!looks_like_placeholder_bot_token("mfa.x.y"));
}

#[test]
fn database_config_selects_backend_from_connection_string() {
    let sqlite = DatabaseConfig {
        url: None,
        conn_string: None,
        filename: Some("bridge.db".to_string()),
        user_store_path: None,
        room_store_path: None,
        max_connections: Some(5),
        min_connections: Some(2),
    };
    assert_eq!(sqlite.connection_string(), "sqlite://bridge.db");
    assert_eq!(sqlite.db_type(), DbType::Sqlite);
    assert_eq!(sqlite.sqlite_path(), Some("bridge.db".to_string()));
    assert_eq!(sqlite.max_connections(), Some(1));
    assert_eq!(sqlite.min_connections(), Some(1));

    let postgres = DatabaseConfig {
        url: Some("postgres://localhost/bridge".to_string()),
        conn_string: None,
        filename: None,
        user_store_path: None,
        room_store_path: None,
        max_connections: Some(5),
        min_connections: Some(2),
    };
    assert_eq!(postgres.db_type(), DbType::Postgres);
    assert_eq!(postgres.sqlite_path(), None);
    assert_eq!(postgres.max_connections(), Some(5));

    let mysql = DatabaseConfig {
        url: Some("mysql://localhost/bridge".to_string()),
        conn_string: None,
        filename: None,
        user_store_path: None,
        room_store_path: None,
        max_connections: None,
        min_connections: None,
    };
    assert_eq!(mysql.db_type(), DbType::Mysql);
}

#[test]
fn validate_reports_first_failure() {
    let mut config = Config {
        bridge: BridgeConfig {
            domain: "example.org".to_string(),
            port: default_port(),
            bind_address: default_bind_address(),
            homeserver_url: "http://localhost:8008".to_string(),
            presence_interval: default_presence_interval(),
            disable_presence: false,
            disable_typing_notifications: false,
            disable_slack_mentions: false,
            disable_deletion_forwarding: false,
            enable_self_service_bridging: false,
            disable_portal_bridging: false,
            disable_read_receipts: false,
            disable_everyone_mention: false,
            disable_here_mention: false,
            disable_join_leave_notifications: false,
            disable_invite_notifications: false,
            disable_room_topic_notifications: false,
            determine_code_language: false,
            user_limit: None,
            admin_mxid: None,
            invalid_token_message: default_invalid_token_message(),
        },
        registration: RegistrationConfig {
            bridge_id: "bridge-1".to_string(),
            appservice_token: "as".to_string(),
            homeserver_token: "hs".to_string(),
            ..RegistrationConfig::default()
        },
        auth: AuthConfig {
            bot_token: "  Bot real-token  ".to_string(),
            app_token: Some("xapp-1".to_string()),
            client_id: None,
            client_secret: None,
            use_privileged_intents: false,
        },
        logging: LoggingConfig {
            level: default_log_level(),
            line_date_format: default_line_date_format(),
            format: default_log_format(),
            file: None,
            files: Vec::new(),
        },
        database: DatabaseConfig {
            url: Some("postgres://localhost/bridge".to_string()),
            conn_string: None,
            filename: None,
            user_store_path: None,
            room_store_path: None,
            max_connections: None,
            min_connections: None,
        },
        room: RoomConfig {
            default_visibility: "private".to_string(),
            room_alias_prefix: "_slack".to_string(),
            enable_room_creation: true,
            kick_for: default_kick_for(),
        },
        channel: ChannelConfig {
            name_pattern: default_channel_name_pattern(),
            enable_channel_creation: false,
            channel_name_format: ":name".to_string(),
            topic_format: ":topic".to_string(),
            delete_options: ChannelDeleteOptionsConfig::default(),
            enable_webhook: true,
            webhook_name: default_webhook_name(),
            webhook_avatar: String::new(),
        },
        limits: LimitsConfig::default(),
        ghosts: GhostsConfig {
            nick_pattern: default_nick_pattern(),
            username_pattern: default_username_pattern(),
            username_template: "_slack_:id".to_string(),
            displayname_template: ":username".to_string(),
            avatar_url_template: None,
        },
        metrics: MetricsConfig::default(),
    };
    config.normalize();
    assert_eq!(config.auth.bot_token, "real-token");
    assert!(config.validate().is_ok());

    config.bridge.domain = String::new();
    match config.validate() {
        Err(ConfigError::InvalidConfig(message)) => {
            assert_eq!(message, "bridge.domain cannot be empty");
        }
        other => panic!("expected an invalid-config error, got {:?}", other),
    }

    config.bridge.domain = "example.org".to_string();
    config.auth.bot_token = "your_bot_token".to_string();
    match config.validate() {
        Err(ConfigError::InvalidConfig(message)) => {
            assert!(message.contains("placeholder"));
        }
        other => panic!("expected a placeholder rejection, got {:?}", other),
    }

    config.auth.bot_token = "real".to_string();
    config.bridge.port = 0;
    assert!(config.validate().is_err());
}

#[test]
fn limits_and_delete_options_defaults() {
    let limits = LimitsConfig::default();
    assert_eq!(limits.room_ghost_join_delay, 6000);
    assert_eq!(limits.slack_send_delay, 1500);
    assert_eq!(limits.room_count, -1);
    assert_eq!(limits.matrix_event_age_limit_ms, 900_000);

    let delete_options = ChannelDeleteOptionsConfig::default();
    assert!(delete_options.unset_room_alias);
    assert!(delete_options.unlist_from_directory);
    assert!(delete_options.set_invite_only);
    assert!(delete_options.ghosts_leave);
    assert!(!delete_options.disable_messaging);
}
