//! The bridge configuration: the settings tree, the defaults, the token
//! hygiene rules and the validation that gates startup. File loading,
//! environment overrides and the registration file live outside the library
//! and hand a populated tree in.

use vstd::prelude::*;

use crate::text::ascii_lower;
use crate::text::spec_ascii_lower;
use crate::text::spec_starts_with;
use crate::text::spec_trim;
use crate::text::trim;

verus! {

#[derive(Debug, Clone, PartialEq, Eq)]
pub struct BridgeConfig {
    pub domain: String,
    pub port: u16,
    pub bind_address: String,
    pub homeserver_url: String,
    pub presence_interval: u64,
    pub disable_presence: bool,
    pub disable_typing_notifications: bool,
    pub disable_slack_mentions: bool,
    pub disable_deletion_forwarding: bool,
    pub enable_self_service_bridging: bool,
    pub disable_portal_bridging: bool,
    pub disable_read_receipts: bool,
    pub disable_everyone_mention: bool,
    pub disable_here_mention: bool,
    pub disable_join_leave_notifications: bool,
    pub disable_invite_notifications: bool,
    pub disable_room_topic_notifications: bool,
    pub determine_code_language: bool,
    pub user_limit: Option<u32>,
    pub admin_mxid: Option<String>,
    pub invalid_token_message: String,
}

#[derive(Debug, Clone, PartialEq, Eq)]
pub struct RegistrationNamespaceEntry {
    pub exclusive: bool,
    pub regex: String,
}

#[derive(Debug, Clone, PartialEq, Eq)]
pub struct RegistrationNamespaces {
    pub users: Vec<RegistrationNamespaceEntry>,
    pub aliases: Vec<RegistrationNamespaceEntry>,
    pub rooms: Vec<RegistrationNamespaceEntry>,
}

impl RegistrationNamespaces {
    pub fn is_empty(&self) -> (r: bool)
        ensures
            r == (self.users@.len() == 0 && self.aliases@.len() == 0 && self.rooms@.len() == 0),
    {
        self.users.len() == 0 && self.aliases.len() == 0 && self.rooms.len() == 0
    }
}

impl Default for RegistrationNamespaces {
    fn default() -> (r: RegistrationNamespaces)
        ensures
            r.users@.len() == 0,
            r.aliases@.len() == 0,
            r.rooms@.len() == 0,
    {
        RegistrationNamespaces { users: Vec::new(), aliases: Vec::new(), rooms: Vec::new() }
    }
}

#[derive(Debug, Clone, PartialEq, Eq)]
pub struct RegistrationConfig {
    pub bridge_id: String,
    pub appservice_token: String,
    pub homeserver_token: String,
    pub sender_localpart: String,
    pub namespaces: RegistrationNamespaces,
    pub rate_limited: bool,
    pub protocols: Vec<String>,
}

impl Default for RegistrationConfig {
    fn default() -> (r: RegistrationConfig)
        ensures
            r.bridge_id@.len() == 0,
            r.appservice_token@.len() == 0,
            r.homeserver_token@.len() == 0,
            r.sender_localpart@ == "_slack_"@,
            !r.rate_limited,
            r.protocols@.len() == 1 && r.protocols@[0]@ == "slack"@,
    {
        let mut protocols: Vec<String> = Vec::new();
        protocols.push("slack".to_owned());
        RegistrationConfig {
            bridge_id: String::new(),
            appservice_token: String::new(),
            homeserver_token: String::new(),
            sender_localpart: default_sender_localpart(),
            namespaces: RegistrationNamespaces {
                users: Vec::new(),
                aliases: Vec::new(),
                rooms: Vec::new(),
            },
            rate_limited: false,
            protocols,
        }
    }
}

#[derive(Debug, Clone, PartialEq, Eq)]
pub struct UserActivityConfig {
    pub min_user_active_days: u64,
    pub inactive_after_days: u64,
}

#[derive(Debug, Clone, PartialEq, Eq)]
pub struct AuthConfig {
    pub bot_token: String,
    pub app_token: Option<String>,
    pub client_id: Option<String>,
    pub client_secret: Option<String>,
    pub use_privileged_intents: bool,
}

#[derive(Debug, Clone, PartialEq, Eq)]
pub struct LoggingFileConfig {
    pub file: String,
    pub level: String,
    pub max_files: String,
    pub max_size: String,
    pub date_pattern: String,
    pub enabled: Vec<String>,
    pub disabled: Vec<String>,
}

#[derive(Debug, Clone, PartialEq, Eq)]
pub struct LoggingConfig {
    pub level: String,
    pub line_date_format: String,
    pub format: String,
    pub file: Option<String>,
    pub files: Vec<LoggingFileConfig>,
}

#[derive(Debug, Clone, PartialEq, Eq)]
pub struct DatabaseConfig {
    pub url: Option<String>,
    pub conn_string: Option<String>,
    pub filename: Option<String>,
    pub user_store_path: Option<String>,
    pub room_store_path: Option<String>,
    pub max_connections: Option<u32>,
    pub min_connections: Option<u32>,
}

/// Which store backend a connection string selects.
#[derive(Debug, Clone, Copy, PartialEq, Eq, Structural)]
pub enum DbType {
    Postgres,
    Sqlite,
    Mysql,
}

/// The effective connection string: the url, else the explicit string, else
/// the sqlite file path, else empty.
pub open spec fn spec_connection_string(d: DatabaseConfig) -> Seq<char> {
    match d.url {
        Some(u) => u@,
        None => match d.conn_string {
            Some(c) => c@,
            None => match d.filename {
                Some(f) => "sqlite://"@ + f@,
                None => Seq::empty(),
            },
        },
    }
}

pub open spec fn spec_db_type(d: DatabaseConfig) -> DbType {
    let url = spec_connection_string(d);
    if spec_starts_with(url, "sqlite://"@) {
        DbType::Sqlite
    } else if spec_starts_with(url, "mysql://"@) || spec_starts_with(url, "mariadb://"@) {
        DbType::Mysql
    } else {
        DbType::Postgres
    }
}

impl DatabaseConfig {
    pub fn connection_string(&self) -> (r: String)
        ensures
            r@ == spec_connection_string(*self),
    {
        match &self.url {
            Some(u) => u.clone(),
            None => match &self.conn_string {
                Some(c) => c.clone(),
                None => match &self.filename {
                    Some(f) => {
                        let mut out = "sqlite://".to_owned();
                        out.append(f.as_str());
                        out
                    },
                    None => String::new(),
                },
            },
        }
    }

    pub fn db_type(&self) -> (r: DbType)
        ensures
            r == spec_db_type(*self),
    {
        let url = self.connection_string();
        if crate::text::starts_with(url.as_str(), "sqlite://") {
            DbType::Sqlite
        } else if crate::text::starts_with(url.as_str(), "mysql://") || crate::text::starts_with(
            url.as_str(),
            "mariadb://",
        ) {
            DbType::Mysql
        } else {
            DbType::Postgres
        }
    }

    /// The on-disk path of a sqlite store, for the sqlite backend only.
    pub fn sqlite_path(&self) -> (r: Option<String>)
        ensures
            match r {
                Some(p) => spec_db_type(*self) == DbType::Sqlite && p@ == (
                if spec_starts_with(spec_connection_string(*self), "sqlite://"@) {
                    spec_connection_string(*self).subrange(
                        "sqlite://"@.len() as int,
                        spec_connection_string(*self).len() as int,
                    )
                } else {
                    spec_connection_string(*self)
                }),
                None => spec_db_type(*self) != DbType::Sqlite,
            },
    {
        let kind = self.db_type();
        if matches!(kind, DbType::Sqlite) {
            let url = self.connection_string();
            match crate::text::strip_prefix_str(url.as_str(), "sqlite://") {
                Some(p) => Some(p),
                None => Some(url),
            }
        } else {
            None
        }
    }

    /// The pool ceiling: sqlite is pinned to one connection.
    pub fn max_connections(&self) -> (r: Option<u32>)
        ensures
            spec_db_type(*self) == DbType::Sqlite ==> r == Some(1u32),
            spec_db_type(*self) != DbType::Sqlite ==> r == self.max_connections,
    {
        match self.db_type() {
            DbType::Postgres => self.max_connections,
            DbType::Mysql => self.max_connections,
            DbType::Sqlite => Some(1),
        }
    }

    /// The pool floor: sqlite is pinned to one connection.
    pub fn min_connections(&self) -> (r: Option<u32>)
        ensures
            spec_db_type(*self) == DbType::Sqlite ==> r == Some(1u32),
            spec_db_type(*self) != DbType::Sqlite ==> r == self.min_connections,
    {
        match self.db_type() {
            DbType::Postgres => self.min_connections,
            DbType::Mysql => self.min_connections,
            DbType::Sqlite => Some(1),
        }
    }
}

#[derive(Debug, Clone, PartialEq, Eq)]
pub struct RoomConfig {
    pub default_visibility: String,
    pub room_alias_prefix: String,
    pub enable_room_creation: bool,
    pub kick_for: u64,
}

#[derive(Debug, Clone, PartialEq, Eq)]
pub struct ChannelDeleteOptionsConfig {
    pub name_prefix: Option<String>,
    pub topic_prefix: Option<String>,
    pub disable_messaging: bool,
    pub unset_room_alias: bool,
    pub unlist_from_directory: bool,
    pub set_invite_only: bool,
    pub ghosts_leave: bool,
}

impl Default for ChannelDeleteOptionsConfig {
    fn default() -> (r: ChannelDeleteOptionsConfig)
        ensures
            r.name_prefix is None,
            r.topic_prefix is None,
            !r.disable_messaging,
            r.unset_room_alias,
            r.unlist_from_directory,
            r.set_invite_only,
            r.ghosts_leave,
    {
        ChannelDeleteOptionsConfig {
            name_prefix: None,
            topic_prefix: None,
            disable_messaging: false,
            unset_room_alias: true,
            unlist_from_directory: true,
            set_invite_only: true,
            ghosts_leave: true,
        }
    }
}

#[derive(Debug, Clone, PartialEq, Eq)]
pub struct ChannelConfig {
    pub name_pattern: String,
    pub enable_channel_creation: bool,
    pub channel_name_format: String,
    pub topic_format: String,
    pub delete_options: ChannelDeleteOptionsConfig,
    pub enable_webhook: bool,
    pub webhook_name: String,
    pub webhook_avatar: String,
}

#[derive(Debug, Clone, PartialEq, Eq)]
pub struct LimitsConfig {
    pub room_ghost_join_delay: u64,
    pub slack_send_delay: u64,
    pub room_count: i32,
    pub matrix_event_age_limit_ms: u64,
}

impl Default for LimitsConfig {
    fn default() -> (r: LimitsConfig)
        ensures
            r.room_ghost_join_delay == 6000,
            r.slack_send_delay == 1500,
            r.room_count == -1,
            r.matrix_event_age_limit_ms == 900_000,
    {
        LimitsConfig {
            room_ghost_join_delay: 6000,
            slack_send_delay: 1500,
            room_count: -1,
            matrix_event_age_limit_ms: 900_000,
        }
    }
}

#[derive(Debug, Clone, PartialEq, Eq)]
pub struct GhostsConfig {
    pub nick_pattern: String,
    pub username_pattern: String,
    pub username_template: String,
    pub displayname_template: String,
    pub avatar_url_template: Option<String>,
}

#[derive(Debug, Clone, PartialEq, Eq)]
pub struct MetricsConfig {
    pub enabled: bool,
    pub port: u16,
    pub bind_address: String,
}

impl Default for MetricsConfig {
    fn default() -> (r: MetricsConfig)
        ensures
            !r.enabled,
            r.port == 9006,
            r.bind_address@ == "127.0.0.1"@,
    {
        MetricsConfig { enabled: false, port: default_metrics_port(), bind_address: default_metrics_bind_address() }
    }
}

/// The whole configuration tree.
#[derive(Debug, Clone, PartialEq, Eq)]
pub struct Config {
    pub bridge: BridgeConfig,
    pub registration: RegistrationConfig,
    pub auth: AuthConfig,
    pub logging: LoggingConfig,
    pub database: DatabaseConfig,
    pub room: RoomConfig,
    pub channel: ChannelConfig,
    pub limits: LimitsConfig,
    pub ghosts: GhostsConfig,
    pub metrics: MetricsConfig,
}

/// A configuration failure at load time.
#[derive(Debug, Clone, PartialEq, Eq)]
pub enum ConfigError {
    InvalidConfig(String),
    Io(String),
    Parse(String),
}

pub fn default_port() -> (r: u16)
    ensures
        r == 9005,
{
    9005
}

pub fn default_bind_address() -> (r: String)
    ensures
        r@ == "127.0.0.1"@,
{
    "127.0.0.1".to_owned()
}

pub fn default_sender_localpart() -> (r: String)
    ensures
        r@ == "_slack_"@,
{
    "_slack_".to_owned()
}

pub fn default_presence_interval() -> (r: u64)
    ensures
        r == 500,
{
    500
}

pub fn default_invalid_token_message() -> (r: String)
    ensures
        r@ == "Your Slack bot token seems to be invalid"@,
{
    "Your Slack bot token seems to be invalid".to_owned()
}

pub fn default_use_privileged_intents() -> (r: bool)
    ensures
        !r,
{
    false
}

pub fn default_log_level() -> (r: String)
    ensures
        r@ == "info"@,
{
    "info".to_owned()
}

pub fn default_line_date_format() -> (r: String)
    ensures
        r@ == "MMM-D HH:mm:ss.SSS"@,
{
    "MMM-D HH:mm:ss.SSS".to_owned()
}

pub fn default_log_format() -> (r: String)
    ensures
        r@ == "pretty"@,
{
    "pretty".to_owned()
}

pub fn default_log_file_level() -> (r: String)
    ensures
        r@ == "info"@,
{
    "info".to_owned()
}

pub fn default_log_max_files() -> (r: String)
    ensures
        r@ == "14"@,
{
    "14".to_owned()
}

pub fn default_log_max_size() -> (r: String)
    ensures
        r@ == "50m"@,
{
    "50m".to_owned()
}

pub fn default_log_date_pattern() -> (r: String)
    ensures
        r@ == "YYYY-MM-DD"@,
{
    "YYYY-MM-DD".to_owned()
}

pub fn default_kick_for() -> (r: u64)
    ensures
        r == 30000,
{
    30000
}

pub fn default_channel_name_pattern() -> (r: String)
    ensures
        r@ == "[Slack] :guild :name"@,
{
    "[Slack] :guild :name".to_owned()
}

pub fn default_unset_room_alias() -> (r: bool)
    ensures
        r,
{
    true
}

pub fn default_unlist_from_directory() -> (r: bool)
    ensures
        r,
{
    true
}

pub fn default_set_invite_only() -> (r: bool)
    ensures
        r,
{
    true
}

pub fn default_ghosts_leave() -> (r: bool)
    ensures
        r,
{
    true
}

pub fn default_room_ghost_join_delay() -> (r: u64)
    ensures
        r == 6000,
{
    6000
}

pub fn default_slack_send_delay() -> (r: u64)
    ensures
        r == 1500,
{
    1500
}

pub fn default_room_count() -> (r: i32)
    ensures
        r == -1,
{
    -1i32
}

pub fn default_matrix_event_age_limit_ms() -> (r: u64)
    ensures
        r == 900_000,
{
    900_000
}

pub fn default_nick_pattern() -> (r: String)
    ensures
        r@ == ":nick"@,
{
    ":nick".to_owned()
}

pub fn default_username_pattern() -> (r: String)
    ensures
        r@ == ":username#:tag"@,
{
    ":username#:tag".to_owned()
}

pub fn default_metrics_port() -> (r: u16)
    ensures
        r == 9006,
{
    9006
}

pub fn default_metrics_bind_address() -> (r: String)
    ensures
        r@ == "127.0.0.1"@,
{
    "127.0.0.1".to_owned()
}

pub fn default_webhook_name() -> (r: String)
    ensures
        r@ == "_matrix"@,
{
    "_matrix".to_owned()
}

/// The token with surrounding whitespace and a leading `Bot ` marker
/// removed.
pub open spec fn spec_sanitize_bot_token(token: Seq<char>) -> Seq<char> {
    let trimmed = spec_trim(token);
    if spec_starts_with(trimmed, "Bot "@) || spec_starts_with(trimmed, "bot "@) {
        spec_trim(trimmed.subrange("Bot "@.len() as int, trimmed.len() as int))
    } else {
        spec_trim(trimmed)
    }
}

/// Strips whitespace and a pasted `Bot ` prefix from a bot token.
pub fn sanitize_bot_token(token: &str) -> (r: String)
    ensures
        r@ == spec_sanitize_bot_token(token@),
{
    let trimmed = trim(token);
    let without_prefix: String = match crate::text::strip_prefix_str(trimmed.as_str(), "Bot ") {
        Some(rest) => rest,
        None => match crate::text::strip_prefix_str(trimmed.as_str(), "bot ") {
            Some(rest) => {
                proof {
                    reveal_strlit("Bot ");
                    reveal_strlit("bot ");
                }
                rest
            },
            None => trimmed,
        },
    };
    trim(without_prefix.as_str())
}

/// The placeholder values shipped in sample configurations.
pub open spec fn spec_is_placeholder_token(token: Seq<char>) -> bool {
    let lower = spec_ascii_lower(spec_trim(token));
    ||| lower == "your_slack_bot_token"@
    ||| lower == "your_bot_token_here"@
    ||| lower == "your_bot_token"@
    ||| lower == "your-token-here"@
    ||| lower == "changeme"@
}

/// Whether a bot token still reads as a sample placeholder.
pub fn looks_like_placeholder_bot_token(token: &str) -> (r: bool)
    ensures
        r == spec_is_placeholder_token(token@),
{
    let trimmed = trim(token);
    let lower = ascii_lower(trimmed.as_str());
    crate::text::string_eq_str(&lower, "your_slack_bot_token") || crate::text::string_eq_str(
        &lower,
        "your_bot_token_here",
    ) || crate::text::string_eq_str(&lower, "your_bot_token") || crate::text::string_eq_str(
        &lower,
        "your-token-here",
    ) || crate::text::string_eq_str(&lower, "changeme")
}

/// The first reason this configuration cannot start a bridge, if any: an
/// empty domain, missing registration identifiers or tokens, an empty or
/// placeholder bot token, no socket-mode app token, an empty store
/// connection string, or port zero.
pub open spec fn spec_validate(c: Config) -> Option<Seq<char>> {
    if c.bridge.domain@.len() == 0 {
        Some("bridge.domain cannot be empty"@)
    } else if c.registration.bridge_id@.len() == 0 {
        Some(
            "registration id cannot be empty (set registration.id or provide slack-registration.yaml)"@,
        )
    } else if c.registration.appservice_token@.len() == 0 {
        Some(
            "registration as_token cannot be empty (set registration.as_token or provide slack-registration.yaml)"@,
        )
    } else if c.registration.homeserver_token@.len() == 0 {
        Some(
            "registration hs_token cannot be empty (set registration.hs_token or provide slack-registration.yaml)"@,
        )
    } else if c.auth.bot_token@.len() == 0 {
        Some("auth.bot_token cannot be empty"@)
    } else if spec_is_placeholder_token(c.auth.bot_token@) {
        Some("auth.bot_token is still using a placeholder value; set a real Slack bot token"@)
    } else if !(c.auth.app_token matches Some(t) && spec_trim(t@).len() > 0) && !(
    c.auth.client_secret matches Some(t) && spec_trim(t@).len() > 0) {
        Some("auth.app_token cannot be empty for Slack Socket Mode (xapp- token)"@)
    } else if spec_connection_string(c.database).len() == 0 {
        Some("database connection string cannot be empty"@)
    } else if c.bridge.port == 0 {
        Some("bridge.port must be between 1 and 65535"@)
    } else {
        None
    }
}

impl Config {
    /// Checks the configuration; the error carries the first reason it
    /// cannot start a bridge.
    pub fn validate(&self) -> (r: Result<(), ConfigError>)
        ensures
            match r {
                Ok(()) => spec_validate(*self) is None,
                Err(e) => spec_validate(*self) matches Some(m) && (e matches
                ConfigError::InvalidConfig(t) && t@ == m),
            },
    {
        if self.bridge.domain.as_str().is_empty() {
            return Err(ConfigError::InvalidConfig("bridge.domain cannot be empty".to_owned()));
        }
        if self.registration.bridge_id.as_str().is_empty() {
            return Err(
                ConfigError::InvalidConfig(
                    "registration id cannot be empty (set registration.id or provide slack-registration.yaml)".to_owned(),
                ),
            );
        }
        if self.registration.appservice_token.as_str().is_empty() {
            return Err(
                ConfigError::InvalidConfig(
                    "registration as_token cannot be empty (set registration.as_token or provide slack-registration.yaml)".to_owned(),
                ),
            );
        }
        if self.registration.homeserver_token.as_str().is_empty() {
            return Err(
                ConfigError::InvalidConfig(
                    "registration hs_token cannot be empty (set registration.hs_token or provide slack-registration.yaml)".to_owned(),
                ),
            );
        }
        if self.auth.bot_token.as_str().is_empty() {
            return Err(ConfigError::InvalidConfig("auth.bot_token cannot be empty".to_owned()));
        }
        if looks_like_placeholder_bot_token(self.auth.bot_token.as_str()) {
            return Err(
                ConfigError::InvalidConfig(
                    "auth.bot_token is still using a placeholder value; set a real Slack bot token".to_owned(),
                ),
            );
        }
        let app_token_present: bool = match &self.auth.app_token {
            Some(t) => {
                let trimmed = trim(t.as_str());
                !trimmed.as_str().is_empty()
            },
            None => false,
        };
        let client_secret_present: bool = match &self.auth.client_secret {
            Some(t) => {
                let trimmed = trim(t.as_str());
                !trimmed.as_str().is_empty()
            },
            None => false,
        };
        if !app_token_present && !client_secret_present {
            return Err(
                ConfigError::InvalidConfig(
                    "auth.app_token cannot be empty for Slack Socket Mode (xapp- token)".to_owned(),
                ),
            );
        }
        let conn = self.database.connection_string();
        if conn.as_str().is_empty() {
            return Err(
                ConfigError::InvalidConfig("database connection string cannot be empty".to_owned()),
            );
        }
        if self.bridge.port == 0 {
            return Err(
                ConfigError::InvalidConfig("bridge.port must be between 1 and 65535".to_owned()),
            );
        }
        Ok(())
    }

    /// Normalization at load time: the bot token is sanitized in place.
    pub fn normalize(&mut self)
        ensures
            final(self).auth.bot_token@ == spec_sanitize_bot_token(old(self).auth.bot_token@),
            final(self).bridge == old(self).bridge,
            final(self).registration == old(self).registration,
            final(self).database == old(self).database,
            final(self).room == old(self).room,
            final(self).channel == old(self).channel,
            final(self).limits == old(self).limits,
            final(self).ghosts == old(self).ghosts,
            final(self).metrics == old(self).metrics,
            final(self).logging == old(self).logging,
            final(self).auth.app_token == old(self).auth.app_token,
            final(self).auth.client_id == old(self).auth.client_id,
            final(self).auth.client_secret == old(self).auth.client_secret,
            final(self).auth.use_privileged_intents == old(self).auth.use_privileged_intents,
    {
        let sanitized = sanitize_bot_token(self.auth.bot_token.as_str());
        self.auth.bot_token = sanitized;
    }
}

} // verus!
