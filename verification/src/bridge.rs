//! The event router: the top-level dispatcher that consumes inbound events
//! from both platforms, consults the cache and the mapping store, runs the
//! translator and the command handlers, and hands the caller the outbound
//! work to perform. Network sends, media transfers and the async machinery
//! run outside the library; every decision they act on is made here.

use vstd::prelude::*;

use crate::cache::TimedCache;
use crate::cache::cache_has_key;
use crate::cache::entry_valid;
use crate::config::Config;
use crate::events::MatrixEvent;
use crate::logic::RedactionRequest;
use crate::logic::TypingRequest;
use crate::logic::apply_message_relation_mappings;
use crate::logic::apply_slack_relation_mappings;
use crate::logic::build_slack_typing_request;
use crate::logic::slack_delete_redaction_request;
use crate::matrix_commands::MatrixCommandHandler;
use crate::matrix_commands::MatrixCommandOutcome;
use crate::matrix_commands::matrix_outcome_matches;
use crate::matrix_commands::spec_matrix_handle;
use crate::message_flow::MessageFlow;
use crate::message_flow::OutboundMatrixMessage;
use crate::message_flow::OutboundSlackMessage;
use crate::message_flow::SlackInboundMessage;
use crate::models::MessageMapping;
use crate::models::RoomMapping;
use crate::models::DatabaseError;
use crate::presence::PresenceDecision;
use crate::presence::PresenceHandler;
use crate::presence::SlackPresence;
use crate::provisioning::ProvisioningCoordinator;
use crate::queue::ChannelQueue;
use crate::slack_commands::SlackCommandHandler;
use crate::slack_commands::SlackCommandOutcome;
use crate::slack_commands::slack_outcome_matches;
use crate::slack_commands::spec_slack_handle;
use crate::store::MappingStore;
use crate::store::has_message_for_matrix;
use crate::store::has_user_for_slack;
use crate::store::has_message_for_slack;
use crate::store::has_room_for_channel;
use crate::store::has_room_for_matrix;

verus! {

/// How long a room-mapping cache entry stays live.
pub const ROOM_CACHE_TTL_MS: i64 = 900_000;

/// One inbound Slack message with everything the router reads, as the
/// transport adapter hands it over.
#[derive(Debug, Clone, PartialEq, Eq)]
pub struct SlackMessageContext {
    pub channel_id: String,
    pub source_message_id: Option<String>,
    pub sender_id: String,
    pub content: String,
    pub attachments: Vec<String>,
    pub reply_to: Option<String>,
    pub edit_of: Option<String>,
    pub permissions: Vec<String>,
}

/// The plain body of an event, for command detection.
pub open spec fn spec_event_body(event: MatrixEvent) -> Seq<char> {
    match event.content {
        Some(c) => c.spec_plain_text(),
        None => Seq::empty(),
    }
}

/// How an origin-space id was resolved against the message mappings into the
/// Slack id space: a recorded mapping's destination id on a hit, the foreign
/// id passed through unresolved on a miss.
pub open spec fn spec_resolved_slack_ref(
    messages: Seq<MessageMapping>,
    origin: Option<Seq<char>>,
    resolved: Option<Seq<char>>,
) -> bool {
    match origin {
        None => resolved is None,
        Some(mid) => match resolved {
            Some(rid) => (exists|k: int|
                0 <= k < messages.len() && messages[k].matrix_event_id@ == mid && (
                #[trigger] messages[k]).slack_message_id@ == rid) || (!has_message_for_matrix(
                messages,
                mid,
            ) && rid == mid),
            None => false,
        },
    }
}

/// The mirror-image resolution into the Matrix id space.
pub open spec fn spec_resolved_matrix_ref(
    messages: Seq<MessageMapping>,
    origin: Option<Seq<char>>,
    resolved: Option<Seq<char>>,
) -> bool {
    match origin {
        None => resolved is None,
        Some(sid) => match resolved {
            Some(rid) => (exists|k: int|
                0 <= k < messages.len() && messages[k].slack_message_id@ == sid && (
                #[trigger] messages[k]).matrix_event_id@ == rid) || (!has_message_for_slack(
                messages,
                sid,
            ) && rid == sid),
            None => false,
        },
    }
}

/// What the router decided for one inbound Matrix message event.
#[derive(Debug, Clone, PartialEq, Eq)]
pub enum MatrixInboundDisposition {
    /// The sender is one of the bridge's own ghosts: echo, dropped silently.
    DroppedGhostEcho,
    /// A command line: the caller delivers the outcome's reply or starts the
    /// requested flow.
    Command(MatrixCommandOutcome),
    /// The room is not bridged: a normal drop, not an error.
    DroppedNoMapping,
    /// Not a message the translator accepts (wrong type, no content, or
    /// empty body with no attachments).
    DroppedNotAMessage,
    /// Cross-post this to the mapped channel, through the channel queue.
    Forward { slack_channel_id: String, outbound: OutboundSlackMessage },
}

/// What the router decided for one inbound Slack message.
#[derive(Debug, Clone, PartialEq, Eq)]
pub enum SlackInboundDisposition {
    /// A command line for the Slack-side handler.
    Command(SlackCommandOutcome),
    /// The channel is not bridged: a normal drop, not an error.
    DroppedNoMapping,
    /// Cross-post this to the mapped room; after the send succeeds the
    /// caller records the new event id against the source message id.
    Forward {
        matrix_room_id: String,
        sender_id: String,
        source_message_id: Option<String>,
        outbound: OutboundMatrixMessage,
    },
}

/// A reaction to mirror on the Matrix side.
#[derive(Debug, Clone, PartialEq, Eq)]
pub struct ReactionForward {
    pub matrix_room_id: String,
    pub matrix_event_id: String,
    pub slack_user_id: String,
    pub emoji: String,
}

/// The reaction name with one wrapping pair of colons removed.
pub open spec fn spec_strip_colons(s: Seq<char>) -> Seq<char> {
    if s.len() >= 2 && s[0] == ':' && s[s.len() - 1] == ':' {
        s.subrange(1, s.len() - 1)
    } else {
        s
    }
}

fn strip_colons(s: &str) -> (r: String)
    ensures
        r@ == spec_strip_colons(s@),
{
    let n = s.unicode_len();
    if n >= 2 && s.get_char(0) == ':' && s.get_char(n - 1) == ':' {
        s.substring_char(1, n - 1).to_owned()
    } else {
        s.to_owned()
    }
}

/// The rendered per-user lines of a power-level change: each user whose id
/// decomposes as one of the bridge's ghosts contributes one
/// `<slack id> -> <level>` entry, in table order.
pub open spec fn spec_power_level_lines(users: Seq<(String, i64)>, domain: Seq<char>) -> Seq<
    Seq<char>,
>
    decreases users.len(),
{
    if users.len() == 0 {
        Seq::empty()
    } else {
        let rest = spec_power_level_lines(users.drop_first(), domain);
        match crate::matrix::spec_ghost_mxid_parts(users[0].0@, domain) {
            Some(id) => seq![id + " -> "@ + crate::text::spec_i64_str(users[0].1 as int)] + rest,
            None => rest,
        }
    }
}

/// The bridge bot's own Matrix id under a configuration.
pub open spec fn spec_bot_mxid(core: BridgeCore) -> Seq<char> {
    "@"@ + core.spec_config().registration.sender_localpart@ + ":"@
        + core.spec_config().bridge.domain@
}

/// The notice posted in the channel after a Matrix-side kick or ban of one
/// of the bridge's ghosts.
pub open spec fn spec_member_moderation_notice(
    target: Seq<char>,
    banned: bool,
    sender: Seq<char>,
    reason: Option<Seq<char>>,
) -> Seq<char> {
    "Matrix moderation: `"@ + target + "` was "@ + (if banned {
        "banned"@
    } else {
        "kicked"@
    }) + " by `"@ + sender + "`. Reason: "@ + (match reason {
        Some(text) => text,
        None => "No reason provided"@,
    })
}

/// Whether a Matrix event's body opens with the Matrix-side command prefix.
pub open spec fn spec_is_matrix_command(event: MatrixEvent) -> bool {
    crate::text::spec_starts_with(
        crate::text::spec_trim_start(spec_event_body(event)),
        "!slack"@,
    )
}

/// Whether a Slack message opens with the Slack-side command prefix.
pub open spec fn spec_is_slack_command(content: Seq<char>) -> bool {
    crate::text::spec_starts_with(crate::text::spec_trim_start(content), "!matrix"@)
}

/// Whether resolving a Matrix room succeeds at this instant: a live cache
/// entry answers first, the store answers a miss. A cached answer may lag a
/// store mutation until the owner invalidates it.
pub open spec fn spec_room_lookup_hit(core: BridgeCore, room_id: Seq<char>, now_ms: i64) -> bool {
    ||| exists|k: int|
        0 <= k < core.spec_room_cache().entries().len() && (
        #[trigger] core.spec_room_cache().entries()[k]).key@ == room_id && entry_valid(
            core.spec_room_cache().entries()[k],
            core.spec_room_cache().ttl(),
            now_ms,
        )
    ||| has_room_for_matrix(core.spec_store().rooms(), room_id)
}

/// The event router. It owns the mapping store, the room cache, the presence
/// relay, the provisioning table and the send-order ledger; the caller owns
/// the sockets and performs the sends the router hands back.
pub struct BridgeCore {
    config: Config,
    store: MappingStore,
    room_cache: TimedCache<RoomMapping>,
    presence_handler: PresenceHandler,
    provisioning: ProvisioningCoordinator,
    message_queue: ChannelQueue,
    matrix_command_handler: MatrixCommandHandler,
    slack_command_handler: SlackCommandHandler,
}

impl BridgeCore {
    pub closed spec fn spec_store(&self) -> MappingStore {
        self.store
    }

    pub closed spec fn spec_config(&self) -> Config {
        self.config
    }

    pub closed spec fn spec_room_cache(&self) -> TimedCache<RoomMapping> {
        self.room_cache
    }

    pub closed spec fn spec_presence(&self) -> PresenceHandler {
        self.presence_handler
    }

    pub closed spec fn spec_provisioning(&self) -> ProvisioningCoordinator {
        self.provisioning
    }

    pub closed spec fn spec_queue(&self) -> ChannelQueue {
        self.message_queue
    }

    pub closed spec fn wf(&self) -> bool {
        &&& self.store.wf()
        &&& self.room_cache.wf()
        &&& self.room_cache.ttl() == ROOM_CACHE_TTL_MS
        &&& self.presence_handler.wf()
        &&& self.provisioning.wf()
        &&& self.message_queue.wf()
        &&& self.matrix_command_handler.wf()
        &&& self.matrix_command_handler.spec_self_service_enabled()
            == self.config.bridge.enable_self_service_bridging
        &&& self.slack_command_handler.wf()
    }

    /// A fresh router over an empty store, with the configured self-service
    /// switch and provisioning timeout.
    pub fn new(config: Config) -> (r: BridgeCore)
        ensures
            r.wf(),
            r.spec_config() == config,
            r.spec_store().rooms().len() == 0,
            r.spec_store().users().len() == 0,
            r.spec_store().messages().len() == 0,
            r.spec_store().ids_available(),
            r.spec_room_cache().entries().len() == 0,
            r.spec_presence().queue().len() == 0,
            r.spec_provisioning().pending().len() == 0,
    {
        let self_service = config.bridge.enable_self_service_bridging;
        BridgeCore {
            config,
            store: MappingStore::new(),
            room_cache: TimedCache::new(ROOM_CACHE_TTL_MS),
            presence_handler: PresenceHandler::new(None),
            provisioning: ProvisioningCoordinator::new(
                crate::provisioning::DEFAULT_PERMISSION_TIMEOUT_MS,
            ),
            message_queue: ChannelQueue::new(),
            matrix_command_handler: MatrixCommandHandler::new(self_service, None),
            slack_command_handler: SlackCommandHandler::new(),
        }
    }

    /// Sets the bridge's own remote identity once the transport has
    /// authenticated: presence updates for it are echo and dropped.
    pub fn set_own_slack_identity(&mut self, bot_slack_user_id: Option<String>)
        requires
            old(self).wf(),
        ensures
            final(self).wf(),
            final(self).spec_store() == old(self).spec_store(),
            final(self).spec_config() == old(self).spec_config(),
            final(self).spec_provisioning() == old(self).spec_provisioning(),
            final(self).spec_queue() == old(self).spec_queue(),
            final(self).spec_room_cache() == old(self).spec_room_cache(),
            final(self).spec_presence().queue() == old(self).spec_presence().queue(),
            final(self).spec_presence().bot_id() == bot_slack_user_id,
    {
        self.presence_handler.set_bot_id(bot_slack_user_id);
    }

    /// Syncs one remote profile event into the ghost-identity records: an
    /// unseen sender gains a mapping (created on the first inbound message
    /// from an unseen remote sender), a known one has its record refreshed.
    /// The returned plan carries the profile work (displayname, avatar) for
    /// the caller to perform on the Matrix side.
    pub fn sync_remote_user_profile(
        &mut self,
        slack_user_id: &str,
        slack_username: Option<&str>,
        slack_avatar_url: Option<&str>,
        is_webhook: bool,
        now_ms: i64,
    ) -> (r: Result<crate::user_sync::UserProfilePlan, DatabaseError>)
        requires
            old(self).wf(),
        ensures
            final(self).wf(),
            final(self).spec_config() == old(self).spec_config(),
            final(self).spec_presence() == old(self).spec_presence(),
            final(self).spec_provisioning() == old(self).spec_provisioning(),
            final(self).spec_queue() == old(self).spec_queue(),
            final(self).spec_room_cache() == old(self).spec_room_cache(),
            final(self).spec_store().rooms() == old(self).spec_store().rooms(),
            final(self).spec_store().messages() == old(self).spec_store().messages(),
            match r {
                Ok(plan) => {
                    &&& plan.slack_id@ == crate::user_sync::spec_ghost_local_id(
                        slack_user_id@,
                        match slack_username {
                            Some(n) => Some(n@),
                            None => None,
                        },
                        is_webhook,
                    )
                    &&& plan.create == !has_user_for_slack(
                        old(self).spec_store().users(),
                        plan.slack_id@,
                    )
                    &&& has_user_for_slack(final(self).spec_store().users(), plan.slack_id@)
                    &&& (plan.create ==> final(self).spec_store().users().len() == old(
                        self,
                    ).spec_store().users().len() + 1)
                    &&& (!plan.create ==> final(self).spec_store().users().len() == old(
                        self,
                    ).spec_store().users().len())
                },
                Err(_) => final(self).spec_store().users() == old(self).spec_store().users()
                    && !old(self).spec_store().ids_available(),
            },
    {
        let lookup_key = crate::user_sync::ghost_local_id(
            slack_user_id,
            slack_username,
            is_webhook,
        );
        let existing = self.store.get_user_by_slack_id(lookup_key.as_str());
        let plan = crate::user_sync::plan_user_profile_update(
            existing.as_ref(),
            slack_user_id,
            slack_username,
            slack_avatar_url,
            is_webhook,
            self.config.ghosts.username_pattern.as_str(),
            self.config.bridge.domain.as_str(),
        );
        proof {
            match &existing {
                Some(e) => {
                    let users = self.spec_store().users();
                    let k = choose|k: int| 0 <= k < users.len() && users[k] == *e;
                    assert((#[trigger] users[k]).slack_user_id@ == plan.slack_id@);
                },
                None => {
                },
            }
        }
        match existing {
            None => {
                let record = crate::models::UserMapping {
                    id: 0,
                    matrix_user_id: plan.mx_user_id.clone(),
                    slack_user_id: plan.slack_id.clone(),
                    slack_username: match &plan.set_displayname {
                        Some(d) => d.clone(),
                        None => String::new(),
                    },
                    slack_discriminator: "0000".to_owned(),
                    slack_avatar: match slack_avatar_url {
                        Some(u) => Some(u.to_owned()),
                        None => None,
                    },
                    created_at: now_ms,
                    updated_at: now_ms,
                };
                match self.store.create_user_mapping(&record) {
                    Ok(()) => {
                        proof {
                            let users = self.spec_store().users();
                            assert((#[trigger] users[users.len() - 1]).slack_user_id@
                                == plan.slack_id@);
                        }
                        Ok(plan)
                    },
                    Err(e) => Err(e),
                }
            },
            Some(found) => {
                let mut updated = crate::store::clone_user(&found);
                if let Some(d) = &plan.set_displayname {
                    updated.slack_username = d.clone();
                }
                updated.slack_avatar = match slack_avatar_url {
                    Some(u) => Some(u.to_owned()),
                    None => None,
                };
                updated.updated_at = now_ms;
                proof {
                    assert(old(self).spec_store().users().contains(found));
                    crate::store::lemma_wf_exports(old(self).spec_store());
                    let users = old(self).spec_store().users();
                    let km = choose|km: int| 0 <= km < users.len() && users[km] == found;
                    assert forall|k: int|
                        0 <= k < users.len() && users[k].id == updated.id implies users[k].slack_user_id@
                        == updated.slack_user_id@ by {
                        if k < km {
                            assert(users[k].id != users[km].id);
                        } else if km < k {
                            assert(users[km].id != users[k].id);
                        }
                    }
                }
                let upd = self.store.update_user_mapping(&updated);
                proof {
                    let old_users = old(self).spec_store().users();
                    match upd {
                        Ok(()) => {
                            let k = choose|k: int|
                                0 <= k < old_users.len() && old_users[k].id == updated.id
                                    && self.spec_store().users() == old_users.update(k, updated);
                            assert(self.spec_store().users()[k].slack_user_id@ == plan.slack_id@);
                            assert(has_user_for_slack(self.spec_store().users(), plan.slack_id@));
                        },
                        Err(_) => {
                            assert(old_users.contains(found));
                            let k = choose|k: int|
                                0 <= k < old_users.len() && old_users[k] == found;
                            assert(self.spec_store().users()[k].slack_user_id@ == plan.slack_id@);
                            assert(has_user_for_slack(self.spec_store().users(), plan.slack_id@));
                        },
                    }
                }
                Ok(plan)
            },
        }
    }

    /// The room mapping for a Matrix room: the cache answers while its entry
    /// is fresh, the store answers a miss and refills the cache. A cached
    /// answer may lag a store mutation until the owner invalidates it.
    pub fn get_room_mapping_cached(&mut self, matrix_room_id: &str, now_ms: i64) -> (r: Option<
        RoomMapping,
    >)
        requires
            old(self).wf(),
        ensures
            final(self).wf(),
            final(self).spec_store() == old(self).spec_store(),
            final(self).spec_config() == old(self).spec_config(),
            final(self).spec_presence() == old(self).spec_presence(),
            final(self).spec_provisioning() == old(self).spec_provisioning(),
            final(self).spec_queue() == old(self).spec_queue(),
            match r {
                Some(m) => (exists|k: int|
                    0 <= k < old(self).spec_room_cache().entries().len() && (#[trigger] old(
                        self,
                    ).spec_room_cache().entries()[k]).key@ == matrix_room_id@ && entry_valid(
                        old(self).spec_room_cache().entries()[k],
                        old(self).spec_room_cache().ttl(),
                        now_ms,
                    ) && old(self).spec_room_cache().entries()[k].value == m) || (old(
                    self,
                ).spec_store().rooms().contains(m) && m.matrix_room_id@ == matrix_room_id@),
                None => !spec_room_lookup_hit(*old(self), matrix_room_id@, now_ms),
            },
            r is None ==> final(self).spec_room_cache() == old(self).spec_room_cache(),
            r matches Some(m) ==> exists|k: int|
                0 <= k < final(self).spec_room_cache().entries().len() && (#[trigger] final(self).spec_room_cache().entries()[k]).key@ == matrix_room_id@ && entry_valid(
                    final(self).spec_room_cache().entries()[k],
                    final(self).spec_room_cache().ttl(),
                    now_ms,
                ) && final(self).spec_room_cache().entries()[k].value == m,
    {
        let cached: Option<RoomMapping> = match self.room_cache.get(matrix_room_id, now_ms) {
            Some(m) => {
                let copy = crate::store::clone_room(m);
                proof {
                    let entries = self.spec_room_cache().entries();
                    let k = choose|k: int|
                        0 <= k < entries.len() && entries[k].key@ == matrix_room_id@ && entry_valid(
                            entries[k],
                            self.spec_room_cache().ttl(),
                            now_ms,
                        ) && *m == entries[k].value;
                    assert((#[trigger] entries[k]).key@ == matrix_room_id@ && entry_valid(
                        entries[k],
                        self.spec_room_cache().ttl(),
                        now_ms,
                    ) && entries[k].value == copy);
                }
                Some(copy)
            },
            None => None,
        };
        if let Some(m) = cached {
            return Some(m);
        }
        match self.store.get_room_by_matrix_room(matrix_room_id) {
            Some(m) => {
                let copy = crate::store::clone_room(&m);
                let ghost before = self.room_cache;
                self.room_cache.insert(matrix_room_id, copy, now_ms);
                proof {
                    let entries = self.spec_room_cache().entries();
                    if crate::cache::cache_has_key(before.entries(), matrix_room_id@) {
                        let k = choose|k: int|
                            {
                                &&& 0 <= k < before.entries().len()
                                &&& before.entries()[k].key@ == matrix_room_id@
                                &&& entries[k].key@ == matrix_room_id@
                                &&& entries[k].value == copy
                                &&& entries[k].inserted_at == now_ms
                                &&& forall|j: int|
                                    0 <= j < before.entries().len() && j != k ==> entries[j]
                                        == before.entries()[j]
                            };
                        assert((#[trigger] entries[k]).key@ == matrix_room_id@ && entry_valid(
                            entries[k],
                            self.spec_room_cache().ttl(),
                            now_ms,
                        ) && entries[k].value == m);
                    } else {
                        let k = entries.len() - 1;
                        assert((#[trigger] entries[k]).key@ == matrix_room_id@ && entry_valid(
                            entries[k],
                            self.spec_room_cache().ttl(),
                            now_ms,
                        ) && entries[k].value == m);
                    }
                }
                Some(m)
            },
            None => None,
        }
    }

    /// Drops a room's cache entry; the owner calls this on every mapping
    /// mutation that can race with a cached read.
    pub fn invalidate_room_cache(&mut self, matrix_room_id: &str)
        requires
            old(self).wf(),
        ensures
            final(self).wf(),
            final(self).spec_store() == old(self).spec_store(),
            final(self).spec_config() == old(self).spec_config(),
            final(self).spec_presence() == old(self).spec_presence(),
            final(self).spec_provisioning() == old(self).spec_provisioning(),
            final(self).spec_queue() == old(self).spec_queue(),
            !cache_has_key(final(self).spec_room_cache().entries(), matrix_room_id@),
    {
        let _ = self.room_cache.remove(matrix_room_id);
    }

    /// Sweeps expired room-cache entries at the instant the clock reads now.
    pub fn sweep_room_cache(&mut self)
        requires
            old(self).wf(),
        ensures
            final(self).wf(),
            final(self).spec_store() == old(self).spec_store(),
            final(self).spec_config() == old(self).spec_config(),
            final(self).spec_presence() == old(self).spec_presence(),
            final(self).spec_provisioning() == old(self).spec_provisioning(),
            final(self).spec_queue() == old(self).spec_queue(),
            exists|now_ms: i64|
                final(self).spec_room_cache().entries() == old(
                    self,
                ).spec_room_cache().entries().filter(
                    crate::cache::valid_pred(old(self).spec_room_cache().ttl(), now_ms),
                ),
    {
        let now_ms = crate::clock::now_unix_millis();
        self.room_cache.cleanup_expired(now_ms);
        proof {
            assert(self.spec_room_cache().entries() == old(self).spec_room_cache().entries().filter(
                crate::cache::valid_pred(old(self).spec_room_cache().ttl(), now_ms),
            ));
        }
    }

    /// Routes one inbound Matrix message event: ghost echo is dropped first,
    /// a command line goes to the command handler, an unmapped room is a
    /// silent drop with no store write and no outbound call, and a parsed
    /// message becomes an outbound Slack descriptor with its reply and edit
    /// ids resolved through the message mappings.
    pub fn handle_matrix_message(
        &mut self,
        event: &MatrixEvent,
        sender_has_permission: bool,
        now_ms: i64,
    ) -> (r: MatrixInboundDisposition)
        requires
            old(self).wf(),
        ensures
            final(self).wf(),
            final(self).spec_store() == old(self).spec_store(),
            final(self).spec_config() == old(self).spec_config(),
            final(self).spec_presence() == old(self).spec_presence(),
            final(self).spec_provisioning() == old(self).spec_provisioning(),
            final(self).spec_queue() == old(self).spec_queue(),
            crate::text::spec_starts_with(event.sender@, "@_slack_"@) ==> r
                is DroppedGhostEcho && *final(self) == *old(self),
            !crate::text::spec_starts_with(event.sender@, "@_slack_"@) && spec_is_matrix_command(
                *event,
            ) ==> r is Command,
            !crate::text::spec_starts_with(event.sender@, "@_slack_"@)
                && !spec_is_matrix_command(*event) && !spec_room_lookup_hit(
                *old(self),
                event.room_id@,
                now_ms,
            ) ==> r is DroppedNoMapping && final(self).spec_room_cache() == old(
                self,
            ).spec_room_cache(),
            !crate::text::spec_starts_with(event.sender@, "@_slack_"@)
                && !spec_is_matrix_command(*event) && spec_room_lookup_hit(
                *old(self),
                event.room_id@,
                now_ms,
            ) ==> (if crate::message_flow::spec_parses_as_message(*event) {
                r is Forward
            } else {
                r is DroppedNotAMessage
            }),
            match r {
                MatrixInboundDisposition::DroppedGhostEcho => crate::text::spec_starts_with(
                    event.sender@,
                    "@_slack_"@,
                ),
                MatrixInboundDisposition::Command(outcome) => matrix_outcome_matches(
                    outcome,
                    spec_matrix_handle(
                        "!slack"@,
                        spec_event_body(*event),
                        spec_room_lookup_hit(*old(self), event.room_id@, now_ms),
                        old(self).spec_config().bridge.enable_self_service_bridging,
                        Ok(sender_has_permission),
                    ),
                ),
                MatrixInboundDisposition::DroppedNoMapping => !spec_room_lookup_hit(
                    *old(self),
                    event.room_id@,
                    now_ms,
                ),
                MatrixInboundDisposition::DroppedNotAMessage => spec_room_lookup_hit(
                    *old(self),
                    event.room_id@,
                    now_ms,
                ),
                MatrixInboundDisposition::Forward { slack_channel_id, outbound } => {
                    &&& event.content is Some
                    &&& ((exists|k: int|
                        0 <= k < old(self).spec_room_cache().entries().len() && (#[trigger] old(
                            self,
                        ).spec_room_cache().entries()[k]).key@ == event.room_id@ && entry_valid(
                            old(self).spec_room_cache().entries()[k],
                            old(self).spec_room_cache().ttl(),
                            now_ms,
                        ) && old(self).spec_room_cache().entries()[k].value.slack_channel_id@
                            == slack_channel_id@) || (exists|k: int|
                        0 <= k < old(self).spec_store().rooms().len() && (#[trigger] old(
                            self,
                        ).spec_store().rooms()[k]).matrix_room_id@ == event.room_id@ && old(
                            self,
                        ).spec_store().rooms()[k].slack_channel_id@ == slack_channel_id@))
                    &&& outbound.embed is None
                    &&& !outbound.use_embed
                    &&& spec_resolved_slack_ref(
                        old(self).spec_store().messages(),
                        match crate::message_flow::spec_parse_relation(
                            event.content.unwrap(),
                        ) {
                            Some(crate::message_flow::MessageRelation::Reply { event_id }) => Some(
                                event_id@,
                            ),
                            _ => None,
                        },
                        match outbound.reply_to {
                            Some(t) => Some(t@),
                            None => None,
                        },
                    )
                    &&& spec_resolved_slack_ref(
                        old(self).spec_store().messages(),
                        match crate::message_flow::spec_parse_relation(
                            event.content.unwrap(),
                        ) {
                            Some(
                                crate::message_flow::MessageRelation::Replace { event_id },
                            ) => Some(event_id@),
                            _ => None,
                        },
                        match outbound.edit_of {
                            Some(t) => Some(t@),
                            None => None,
                        },
                    )
                },
            },
    {
        if crate::matrix::is_namespaced_user(event.sender.as_str()) {
            return MatrixInboundDisposition::DroppedGhostEcho;
        }

        let body: String = match &event.content {
            Some(c) => c.plain_text(),
            None => String::new(),
        };

        let lookup = self.get_room_mapping_cached(event.room_id.as_str(), now_ms);
        let room_is_bridged = lookup.is_some();
        proof {
            match &lookup {
                Some(m) => {
                    let rooms = old(self).spec_store().rooms();
                    if rooms.contains(*m) && m.matrix_room_id@ == event.room_id@ {
                        let k = choose|k: int| 0 <= k < rooms.len() && rooms[k] == *m;
                        assert((#[trigger] rooms[k]).matrix_room_id@ == event.room_id@);
                    }
                    assert(spec_room_lookup_hit(*old(self), event.room_id@, now_ms));
                },
                None => {
                },
            }
        }

        if self.matrix_command_handler.is_command(body.as_str()) {
            let outcome = self.matrix_command_handler.handle(
                body.as_str(),
                room_is_bridged,
                Ok(sender_has_permission),
            );
            return MatrixInboundDisposition::Command(outcome);
        }

        let mapping = match lookup {
            Some(m) => m,
            None => {
                return MatrixInboundDisposition::DroppedNoMapping;
            },
        };

        let message = match MessageFlow::parse_matrix_event(event) {
            Some(m) => m,
            None => {
                return MatrixInboundDisposition::DroppedNotAMessage;
            },
        };

        let flow = MessageFlow::new();
        let mut outbound = flow.matrix_to_slack(&message);

        let reply_mapping: Option<MessageMapping> = match &outbound.reply_to {
            Some(id) => self.store.get_by_matrix_event_id(id.as_str()),
            None => None,
        };
        let edit_mapping: Option<MessageMapping> = match &outbound.edit_of {
            Some(id) => self.store.get_by_matrix_event_id(id.as_str()),
            None => None,
        };
        apply_slack_relation_mappings(
            &mut outbound,
            reply_mapping.as_ref(),
            edit_mapping.as_ref(),
        );

        proof {
            let rooms = old(self).spec_store().rooms();
            if rooms.contains(mapping) && mapping.matrix_room_id@ == event.room_id@ {
                let k = choose|k: int| 0 <= k < rooms.len() && rooms[k] == mapping;
                assert((#[trigger] rooms[k]).matrix_room_id@ == event.room_id@
                    && rooms[k].slack_channel_id@ == mapping.slack_channel_id@);
            }
        }
        MatrixInboundDisposition::Forward {
            slack_channel_id: mapping.slack_channel_id,
            outbound,
        }
    }

    /// Routes one inbound Slack message: a command line goes to the Slack
    /// command handler, an unmapped channel is a silent drop with no store
    /// write and no outbound call, and anything else becomes an outbound
    /// Matrix descriptor with its reply and edit ids resolved through the
    /// message mappings.
    pub fn prepare_slack_inbound(&self, ctx: &SlackMessageContext) -> (r: SlackInboundDisposition)
        requires
            self.wf(),
        ensures
            spec_is_slack_command(ctx.content@) ==> r is Command,
            !spec_is_slack_command(ctx.content@) && !has_room_for_channel(
                self.spec_store().rooms(),
                ctx.channel_id@,
            ) ==> r is DroppedNoMapping,
            !spec_is_slack_command(ctx.content@) && has_room_for_channel(
                self.spec_store().rooms(),
                ctx.channel_id@,
            ) ==> r is Forward,
            match r {
                SlackInboundDisposition::Command(outcome) => slack_outcome_matches(
                    outcome,
                    spec_slack_handle(
                        "!matrix"@,
                        ctx.content@,
                        has_room_for_channel(self.spec_store().rooms(), ctx.channel_id@),
                        ctx.permissions@,
                    ),
                ),
                SlackInboundDisposition::DroppedNoMapping => !has_room_for_channel(
                    self.spec_store().rooms(),
                    ctx.channel_id@,
                ),
                SlackInboundDisposition::Forward {
                    matrix_room_id,
                    sender_id,
                    source_message_id,
                    outbound,
                } => {
                    &&& exists|k: int|
                        0 <= k < self.spec_store().rooms().len() && (
                        #[trigger] self.spec_store().rooms()[k]).slack_channel_id@
                            == ctx.channel_id@ && self.spec_store().rooms()[k].matrix_room_id@
                            == matrix_room_id@
                    &&& sender_id@ == ctx.sender_id@
                    &&& source_message_id == ctx.source_message_id
                    &&& outbound.body == ctx.content
                    &&& outbound.attachments@ == ctx.attachments@
                    &&& spec_resolved_matrix_ref(
                        self.spec_store().messages(),
                        match ctx.reply_to {
                            Some(t) => Some(t@),
                            None => None,
                        },
                        match outbound.reply_to {
                            Some(t) => Some(t@),
                            None => None,
                        },
                    )
                    &&& spec_resolved_matrix_ref(
                        self.spec_store().messages(),
                        match ctx.edit_of {
                            Some(t) => Some(t@),
                            None => None,
                        },
                        match outbound.edit_of {
                            Some(t) => Some(t@),
                            None => None,
                        },
                    )
                },
            },
    {
        let lookup = self.store.get_room_by_slack_channel(ctx.channel_id.as_str());
        let channel_is_bridged = lookup.is_some();
        proof {
            match lookup {
                Some(m) => {
                    let rooms = self.spec_store().rooms();
                    let k = choose|k: int| 0 <= k < rooms.len() && rooms[k] == m;
                    assert((#[trigger] rooms[k]).slack_channel_id@ == ctx.channel_id@);
                    assert(has_room_for_channel(rooms, ctx.channel_id@));
                },
                None => {
                },
            }
        }

        if self.slack_command_handler.is_command(ctx.content.as_str()) {
            let outcome = self.slack_command_handler.handle(
                ctx.content.as_str(),
                channel_is_bridged,
                &ctx.permissions,
            );
            return SlackInboundDisposition::Command(outcome);
        }

        let mapping = match self.store.get_room_by_slack_channel(ctx.channel_id.as_str()) {
            Some(m) => m,
            None => {
                return SlackInboundDisposition::DroppedNoMapping;
            },
        };

        let flow = MessageFlow::new();
        let inbound = SlackInboundMessage {
            channel_id: ctx.channel_id.clone(),
            sender_id: ctx.sender_id.clone(),
            content: ctx.content.clone(),
            attachments: crate::text::clone_string_vec(&ctx.attachments),
            reply_to: ctx.reply_to.clone(),
            edit_of: ctx.edit_of.clone(),
        };
        let mut outbound = flow.slack_to_matrix(&inbound);

        let reply_mapping: Option<MessageMapping> = match &outbound.reply_to {
            Some(id) => self.store.get_by_slack_message_id(id.as_str()),
            None => None,
        };
        let edit_mapping: Option<MessageMapping> = match &outbound.edit_of {
            Some(id) => self.store.get_by_slack_message_id(id.as_str()),
            None => None,
        };
        apply_message_relation_mappings(
            &mut outbound,
            reply_mapping.as_ref(),
            edit_mapping.as_ref(),
        );

        proof {
            assert(self.spec_store().rooms().contains(mapping));
        }
        SlackInboundDisposition::Forward {
            matrix_room_id: mapping.matrix_room_id,
            sender_id: ctx.sender_id.clone(),
            source_message_id: ctx.source_message_id.clone(),
            outbound,
        }
    }

    /// Routes a bare Slack message without transport context: no source id,
    /// no relations, no granted permissions.
    pub fn handle_slack_message(
        &self,
        slack_channel_id: &str,
        slack_sender: &str,
        content: &str,
    ) -> (r: SlackInboundDisposition)
        requires
            self.wf(),
        ensures
            r matches SlackInboundDisposition::DroppedNoMapping ==> !has_room_for_channel(
                self.spec_store().rooms(),
                slack_channel_id@,
            ),
    {
        let ctx = SlackMessageContext {
            channel_id: slack_channel_id.to_owned(),
            source_message_id: None,
            sender_id: slack_sender.to_owned(),
            content: content.to_owned(),
            attachments: Vec::new(),
            reply_to: None,
            edit_of: None,
            permissions: Vec::new(),
        };
        self.prepare_slack_inbound(&ctx)
    }

    /// After a successful cross-post of a Slack message, upserts the message
    /// mapping: a known source message id is refreshed in place, never
    /// duplicated.
    pub fn record_slack_message_sent(
        &mut self,
        source_message_id: &str,
        matrix_room_id: &str,
        matrix_event_id: &str,
        now_ms: i64,
    ) -> (r: Result<(), DatabaseError>)
        requires
            old(self).wf(),
        ensures
            final(self).wf(),
            final(self).spec_store().rooms() == old(self).spec_store().rooms(),
            final(self).spec_store().users() == old(self).spec_store().users(),
            final(self).spec_config() == old(self).spec_config(),
            final(self).spec_presence() == old(self).spec_presence(),
            final(self).spec_provisioning() == old(self).spec_provisioning(),
            final(self).spec_queue() == old(self).spec_queue(),
            has_message_for_slack(old(self).spec_store().messages(), source_message_id@) ==> {
                &&& r is Ok
                &&& final(self).spec_store().messages().len() == old(
                    self,
                ).spec_store().messages().len()
                &&& exists|k: int|
                    0 <= k < old(self).spec_store().messages().len() && (#[trigger] old(self).spec_store().messages()[k]).slack_message_id@ == source_message_id@ && final(self).spec_store().messages()[k].slack_message_id@ == source_message_id@ && final(self).spec_store().messages()[k].matrix_event_id@ == matrix_event_id@ && final(self).spec_store().messages()[k].matrix_room_id@ == matrix_room_id@
            },
            (!has_message_for_slack(old(self).spec_store().messages(), source_message_id@) && r
                is Ok) ==> {
                &&& final(self).spec_store().messages().len() == old(
                    self,
                ).spec_store().messages().len() + 1
                &&& final(self).spec_store().messages().last().slack_message_id@
                    == source_message_id@
                &&& final(self).spec_store().messages().last().matrix_event_id@
                    == matrix_event_id@
                &&& final(self).spec_store().messages().last().matrix_room_id@ == matrix_room_id@
            },
            r is Err ==> final(self).spec_store().messages() == old(self).spec_store().messages()
                && !old(self).spec_store().ids_available(),
    {
        let mapping = MessageMapping {
            id: 0,
            slack_message_id: source_message_id.to_owned(),
            matrix_room_id: matrix_room_id.to_owned(),
            matrix_event_id: matrix_event_id.to_owned(),
            created_at: now_ms,
            updated_at: now_ms,
        };
        self.store.upsert_message_mapping(&mapping)
    }

    /// A Slack-side delete keyed by the deleted message's id: the redaction
    /// to mirror on the Matrix side, when the message was bridged. The
    /// mapping itself is removed by `confirm_slack_message_delete` once the
    /// redaction went through.
    pub fn handle_slack_message_delete(&self, slack_message_id: &str) -> (r: Option<
        RedactionRequest,
    >)
        requires
            self.wf(),
        ensures
            match r {
                Some(req) => exists|k: int|
                    0 <= k < self.spec_store().messages().len() && (
                    #[trigger] self.spec_store().messages()[k]).slack_message_id@
                        == slack_message_id@ && req.room_id@
                        == self.spec_store().messages()[k].matrix_room_id@ && req.event_id@
                        == self.spec_store().messages()[k].matrix_event_id@ && req.reason@
                        == "Deleted on Slack"@,
                None => !has_message_for_slack(self.spec_store().messages(), slack_message_id@),
            },
    {
        let link = self.store.get_by_slack_message_id(slack_message_id);
        proof {
            match &link {
                Some(m) => {
                    let messages = self.spec_store().messages();
                    let k = choose|k: int| 0 <= k < messages.len() && messages[k] == *m;
                    assert((#[trigger] messages[k]).slack_message_id@ == slack_message_id@);
                },
                None => {
                },
            }
        }
        slack_delete_redaction_request(link.as_ref())
    }

    /// Removes the mapping of a deleted message after its redaction.
    pub fn confirm_slack_message_delete(&mut self, slack_message_id: &str) -> (r: bool)
        requires
            old(self).wf(),
        ensures
            final(self).wf(),
            final(self).spec_store().rooms() == old(self).spec_store().rooms(),
            final(self).spec_config() == old(self).spec_config(),
            final(self).spec_presence() == old(self).spec_presence(),
            final(self).spec_provisioning() == old(self).spec_provisioning(),
            final(self).spec_queue() == old(self).spec_queue(),
            !has_message_for_slack(final(self).spec_store().messages(), slack_message_id@),
            r == has_message_for_slack(old(self).spec_store().messages(), slack_message_id@),
    {
        let r = self.store.delete_by_slack_message_id(slack_message_id);
        proof {
            crate::store::lemma_wf_exports(old(self).spec_store());
            if r {
                let removed = self.spec_store().messages();
                assert forall|j: int|
                    0 <= j < removed.len() implies removed[j].slack_message_id@
                    != slack_message_id@ by {
                    let k = choose|k: int|
                        0 <= k < old(self).spec_store().messages().len() && old(
                            self,
                        ).spec_store().messages()[k].slack_message_id@ == slack_message_id@ && removed
                            == old(self).spec_store().messages().remove(k);
                    let j0: int = if j < k {
                        j
                    } else {
                        j + 1
                    };
                    assert(removed[j] == old(self).spec_store().messages()[j0]);
                    if j0 < k {
                        assert(old(self).spec_store().messages()[j0].slack_message_id@ != old(
                            self,
                        ).spec_store().messages()[k].slack_message_id@);
                    } else if k < j0 {
                        assert(old(self).spec_store().messages()[k].slack_message_id@ != old(
                            self,
                        ).spec_store().messages()[j0].slack_message_id@);
                    }
                }
            }
        }
        r
    }

    /// A Slack typing burst: forwarded as a Matrix typing request only when
    /// typing notifications are on and the channel is mapped. An unmapped
    /// channel sees no store write and no outbound call.
    pub fn handle_slack_typing(&self, slack_channel_id: &str, slack_sender_id: &str) -> (r: Option<
        TypingRequest,
    >)
        requires
            self.wf(),
        ensures
            match r {
                Some(req) => {
                    &&& !self.spec_config().bridge.disable_typing_notifications
                    &&& exists|k: int|
                        0 <= k < self.spec_store().rooms().len() && (
                        #[trigger] self.spec_store().rooms()[k]).slack_channel_id@
                            == slack_channel_id@ && req.room_id@
                            == self.spec_store().rooms()[k].matrix_room_id@
                    &&& req.slack_user_id@ == slack_sender_id@
                    &&& req.typing
                    &&& req.timeout_ms == Some(crate::logic::SLACK_TYPING_TIMEOUT_MS)
                },
                None => self.spec_config().bridge.disable_typing_notifications
                    || !has_room_for_channel(self.spec_store().rooms(), slack_channel_id@),
            },
    {
        let mapping = self.store.get_room_by_slack_channel(slack_channel_id);
        if !crate::logic::should_forward_slack_typing(
            self.config.bridge.disable_typing_notifications,
            mapping.as_ref(),
        ) {
            return None;
        }
        let mapping = match mapping {
            Some(m) => m,
            None => {
                return None;
            },
        };
        proof {
            assert(self.spec_store().rooms().contains(mapping));
        }
        Some(build_slack_typing_request(mapping.matrix_room_id.as_str(), slack_sender_id))
    }

    /// A Slack reaction to mirror: needs both a room mapping and a message
    /// mapping; the reaction name loses one wrapping pair of colons. An
    /// unmapped channel or message is a silent drop.
    pub fn handle_slack_reaction_added(
        &self,
        slack_channel_id: &str,
        slack_message_id: &str,
        slack_user_id: &str,
        reaction: &str,
    ) -> (r: Option<ReactionForward>)
        requires
            self.wf(),
        ensures
            match r {
                Some(f) => {
                    &&& exists|k: int|
                        0 <= k < self.spec_store().rooms().len() && (
                        #[trigger] self.spec_store().rooms()[k]).slack_channel_id@
                            == slack_channel_id@ && f.matrix_room_id@
                            == self.spec_store().rooms()[k].matrix_room_id@
                    &&& exists|k: int|
                        0 <= k < self.spec_store().messages().len() && (
                        #[trigger] self.spec_store().messages()[k]).slack_message_id@
                            == slack_message_id@ && f.matrix_event_id@
                            == self.spec_store().messages()[k].matrix_event_id@
                    &&& f.slack_user_id@ == slack_user_id@
                    &&& f.emoji@ == spec_strip_colons(reaction@)
                },
                None => !has_room_for_channel(self.spec_store().rooms(), slack_channel_id@)
                    || !has_message_for_slack(self.spec_store().messages(), slack_message_id@),
            },
    {
        let mapping = match self.store.get_room_by_slack_channel(slack_channel_id) {
            Some(m) => m,
            None => {
                return None;
            },
        };
        let message_mapping = match self.store.get_by_slack_message_id(slack_message_id) {
            Some(m) => m,
            None => {
                return None;
            },
        };
        proof {
            assert(self.spec_store().rooms().contains(mapping));
            assert(self.spec_store().messages().contains(message_mapping));
        }
        Some(
            ReactionForward {
                matrix_room_id: mapping.matrix_room_id,
                matrix_event_id: message_mapping.matrix_event_id,
                slack_user_id: slack_user_id.to_owned(),
                emoji: strip_colons(reaction),
            },
        )
    }

    /// The mirror of `handle_slack_reaction_added` for a removed reaction;
    /// the caller redacts the ghost's reaction instead of sending one.
    pub fn handle_slack_reaction_removed(
        &self,
        slack_channel_id: &str,
        slack_message_id: &str,
        slack_user_id: &str,
        reaction: &str,
    ) -> (r: Option<ReactionForward>)
        requires
            self.wf(),
        ensures
            match r {
                Some(f) => {
                    &&& exists|k: int|
                        0 <= k < self.spec_store().rooms().len() && (
                        #[trigger] self.spec_store().rooms()[k]).slack_channel_id@
                            == slack_channel_id@ && f.matrix_room_id@
                            == self.spec_store().rooms()[k].matrix_room_id@
                    &&& exists|k: int|
                        0 <= k < self.spec_store().messages().len() && (
                        #[trigger] self.spec_store().messages()[k]).slack_message_id@
                            == slack_message_id@ && f.matrix_event_id@
                            == self.spec_store().messages()[k].matrix_event_id@
                    &&& f.slack_user_id@ == slack_user_id@
                    &&& f.emoji@ == spec_strip_colons(reaction@)
                },
                None => !has_room_for_channel(self.spec_store().rooms(), slack_channel_id@)
                    || !has_message_for_slack(self.spec_store().messages(), slack_message_id@),
            },
    {
        self.handle_slack_reaction_added(
            slack_channel_id,
            slack_message_id,
            slack_user_id,
            reaction,
        )
    }

    /// Hands a presence update to the relay queue.
    pub fn enqueue_slack_presence(&mut self, presence: SlackPresence)
        requires
            old(self).wf(),
        ensures
            final(self).wf(),
            final(self).spec_store() == old(self).spec_store(),
            final(self).spec_config() == old(self).spec_config(),
            final(self).spec_provisioning() == old(self).spec_provisioning(),
            final(self).spec_queue() == old(self).spec_queue(),
            final(self).spec_room_cache() == old(self).spec_room_cache(),
            old(self).spec_presence().is_own_update(presence.user_id@) ==> final(self).spec_presence().queue() == old(self).spec_presence().queue(),
            !old(self).spec_presence().is_own_update(presence.user_id@) ==> {
                &&& final(self).spec_presence().queue().last() == presence
                &&& if exists|k: int|
                    0 <= k < old(self).spec_presence().queue().len() && (#[trigger] old(
                        self,
                    ).spec_presence().queue()[k]).user_id@ == presence.user_id@ {
                    exists|k: int|
                        0 <= k < old(self).spec_presence().queue().len() && (#[trigger] old(
                            self,
                        ).spec_presence().queue()[k]).user_id@ == presence.user_id@ && final(self).spec_presence().queue() == old(self).spec_presence().queue().remove(
                            k,
                        ).push(presence)
                } else {
                    final(self).spec_presence().queue() == old(self).spec_presence().queue().push(
                        presence,
                    )
                }
            },
    {
        self.presence_handler.enqueue_user(presence);
    }

    /// One presence delivery tick: the front entry and its decision. The
    /// entry is re-queued at the back unless the decision drops the user; the
    /// delivery attempt itself happens outside, after this returns.
    pub fn process_next_presence(&mut self) -> (r: Option<(SlackPresence, PresenceDecision)>)
        requires
            old(self).wf(),
        ensures
            final(self).wf(),
            final(self).spec_store() == old(self).spec_store(),
            final(self).spec_config() == old(self).spec_config(),
            final(self).spec_provisioning() == old(self).spec_provisioning(),
            final(self).spec_queue() == old(self).spec_queue(),
            final(self).spec_room_cache() == old(self).spec_room_cache(),
            old(self).spec_presence().queue().len() == 0 ==> r is None && final(self).spec_presence().queue() == old(self).spec_presence().queue(),
            old(self).spec_presence().queue().len() > 0 ==> match r {
                Some(pair) => {
                    &&& crate::presence::presence_view_eq(
                        pair.0,
                        old(self).spec_presence().queue()[0],
                    )
                    &&& pair.1.should_drop == (pair.0.state
                        == crate::presence::SlackPresenceState::Offline)
                    &&& pair.1.presence == crate::presence::spec_presence_target(pair.0.state)
                    &&& pair.1.status_message@ == crate::presence::spec_status_message(pair.0)
                    &&& pair.1.should_drop ==> final(self).spec_presence().queue() == old(
                        self,
                    ).spec_presence().queue().drop_first()
                    &&& !pair.1.should_drop ==> final(self).spec_presence().queue() == old(
                        self,
                    ).spec_presence().queue().drop_first().push(
                        old(self).spec_presence().queue()[0],
                    )
                },
                None => false,
            },
    {
        self.presence_handler.process_next()
    }

    /// Takes a ticket on the destination's send lane; the caller runs the
    /// unit when its ticket is the lane's next to complete. Tickets for one
    /// key are handed out consecutively from zero.
    pub fn enqueue_outbound(&mut self, channel_id: &str) -> (r: Option<u64>)
        requires
            old(self).wf(),
        ensures
            final(self).wf(),
            final(self).spec_store() == old(self).spec_store(),
            final(self).spec_config() == old(self).spec_config(),
            final(self).spec_presence() == old(self).spec_presence(),
            final(self).spec_provisioning() == old(self).spec_provisioning(),
            final(self).spec_room_cache() == old(self).spec_room_cache(),
            final(self).spec_queue().lanes().len() == (if crate::queue::has_lane(
                old(self).spec_queue().lanes(),
                channel_id@,
            ) {
                old(self).spec_queue().lanes().len() as int
            } else {
                old(self).spec_queue().lanes().len() as int + 1
            }),
            match r {
                Some(ticket) => {
                    &&& exists|k: int|
                        {
                            &&& 0 <= k < final(self).spec_queue().lanes().len()
                            &&& (#[trigger] final(self).spec_queue().lanes()[k]).key@
                                == channel_id@
                            &&& final(self).spec_queue().lanes()[k].submitted == ticket + 1
                            &&& (crate::queue::has_lane(old(self).spec_queue().lanes(), channel_id@)
                                ==> 0 <= k < old(self).spec_queue().lanes().len() && old(
                                self,
                            ).spec_queue().lanes()[k].key@ == channel_id@ && ticket == old(
                                self,
                            ).spec_queue().lanes()[k].submitted)
                        }
                    &&& !crate::queue::has_lane(old(self).spec_queue().lanes(), channel_id@)
                        ==> ticket == 0
                },
                None => final(self).spec_queue().lanes() == old(self).spec_queue().lanes()
                    && crate::queue::has_lane(old(self).spec_queue().lanes(), channel_id@),
            },
    {
        let r = self.message_queue.enqueue(channel_id);
        proof {
            let lanes = self.spec_queue().lanes();
            match r {
                Some(ticket) => {
                    let k = choose|k: int|
                        {
                            &&& 0 <= k < lanes.len()
                            &&& lanes[k].key@ == channel_id@
                            &&& lanes[k].submitted == ticket + 1
                            &&& lanes[k].completed == (if crate::queue::has_lane(
                                old(self).spec_queue().lanes(),
                                channel_id@,
                            ) {
                                old(self).spec_queue().lanes()[k].completed
                            } else {
                                0u64
                            })
                            &&& (crate::queue::has_lane(old(self).spec_queue().lanes(), channel_id@)
                                ==> 0 <= k < old(self).spec_queue().lanes().len() && old(
                                self,
                            ).spec_queue().lanes()[k].key@ == channel_id@ && ticket == old(
                                self,
                            ).spec_queue().lanes()[k].submitted)
                            &&& forall|j: int|
                                0 <= j < old(self).spec_queue().lanes().len() && j != k
                                    ==> lanes[j] == old(self).spec_queue().lanes()[j]
                        };
                    assert((#[trigger] lanes[k]).key@ == channel_id@);
                },
                None => {
                },
            }
        }
        r
    }

    /// Retires the destination's next ticket after its unit completed:
    /// completions for one key happen strictly in ticket order.
    pub fn complete_outbound(&mut self, channel_id: &str) -> (r: Option<u64>)
        requires
            old(self).wf(),
        ensures
            final(self).wf(),
            final(self).spec_store() == old(self).spec_store(),
            final(self).spec_config() == old(self).spec_config(),
            final(self).spec_presence() == old(self).spec_presence(),
            final(self).spec_provisioning() == old(self).spec_provisioning(),
            final(self).spec_room_cache() == old(self).spec_room_cache(),
            final(self).spec_queue().lanes().len() == old(self).spec_queue().lanes().len(),
            match r {
                Some(ticket) => exists|k: int|
                    {
                        &&& 0 <= k < old(self).spec_queue().lanes().len()
                        &&& (#[trigger] old(self).spec_queue().lanes()[k]).key@ == channel_id@
                        &&& old(self).spec_queue().lanes()[k].completed < old(
                            self,
                        ).spec_queue().lanes()[k].submitted
                        &&& ticket == old(self).spec_queue().lanes()[k].completed
                        &&& final(self).spec_queue().lanes()[k].completed == ticket + 1
                        &&& final(self).spec_queue().lanes()[k].submitted == old(
                            self,
                        ).spec_queue().lanes()[k].submitted
                    },
                None => final(self).spec_queue().lanes() == old(self).spec_queue().lanes() && (
                forall|k: int|
                    0 <= k < old(self).spec_queue().lanes().len() && (#[trigger] old(
                        self,
                    ).spec_queue().lanes()[k]).key@ == channel_id@ ==> old(
                        self,
                    ).spec_queue().lanes()[k].completed == old(
                        self,
                    ).spec_queue().lanes()[k].submitted),
            },
    {
        let r = self.message_queue.complete_next(channel_id);
        proof {
            let old_lanes = old(self).spec_queue().lanes();
            match r {
                Some(ticket) => {
                    let k = choose|k: int|
                        {
                            &&& 0 <= k < old_lanes.len()
                            &&& old_lanes[k].key@ == channel_id@
                            &&& old_lanes[k].completed < old_lanes[k].submitted
                            &&& ticket == old_lanes[k].completed
                            &&& self.spec_queue().lanes()[k].completed == ticket + 1
                            &&& self.spec_queue().lanes()[k].submitted == old_lanes[k].submitted
                            &&& self.spec_queue().lanes()[k].key@ == channel_id@
                            &&& self.spec_queue().lanes()[k].completions@
                                == old_lanes[k].completions@.push(ticket)
                            &&& forall|j: int|
                                0 <= j < old_lanes.len() && j != k ==> self.spec_queue().lanes()[j]
                                    == old_lanes[j]
                        };
                    assert((#[trigger] old_lanes[k]).key@ == channel_id@);
                },
                None => {
                    assert forall|k: int|
                        0 <= k < old_lanes.len() && (#[trigger] old_lanes[k]).key@ == channel_id@
                            implies old_lanes[k].completed == old_lanes[k].submitted by {
                    }
                },
            }
        }
        r
    }

    /// How many rooms are currently bridged.
    pub fn bridged_room_count(&self) -> (r: usize)
        ensures
            r == self.spec_store().rooms().len(),
    {
        self.store.count_rooms()
    }

    /// How many cross-posted messages the store remembers.
    pub fn message_mapping_count(&self) -> (r: usize)
        ensures
            r == self.spec_store().messages().len(),
    {
        self.store.count_messages()
    }

    /// The admission gate of bridge creation: the configured room ceiling,
    /// disabled when negative, yields a refusal message once the store holds
    /// that many rooms.
    pub fn check_room_limit(&self) -> (r: Option<String>)
        requires
            self.wf(),
        ensures
            match r {
                Some(m) => self.spec_config().limits.room_count >= 0 && self.spec_store().rooms().len()
                    >= self.spec_config().limits.room_count && m@ == spec_room_limit_message(
                    self.spec_config().limits.room_count as int,
                ),
                None => self.spec_config().limits.room_count < 0 || self.spec_store().rooms().len()
                    < self.spec_config().limits.room_count,
            },
    {
        let room_count_limit = self.config.limits.room_count;
        if room_count_limit < 0 {
            return None;
        }
        let current_count = self.store.count_rooms();
        if current_count >= room_count_limit as usize {
            let mut msg = "This bridge has reached its room limit of ".to_owned();
            let rendered = crate::text::u64_to_string(room_count_limit as u64);
            msg.append(rendered.as_str());
            msg.append(". Unbridge another room to allow for new connections.");
            Some(msg)
        } else {
            None
        }
    }

    /// Commits a bridge between a Matrix room and a Slack channel. An
    /// already-bridged channel always gets the already-bridged reply, ahead
    /// of every other check; a reached room ceiling and a channel the remote
    /// side could not find each yield their reply; all three leave the store
    /// untouched. Otherwise the mapping is recorded and the room is renamed
    /// after the configured pattern.
    pub fn bridge_matrix_room(
        &mut self,
        matrix_room_id: &str,
        guild_id: &str,
        channel_id: &str,
        channel: Option<&crate::slack::SlackChannel>,
        now_ms: i64,
    ) -> (r: Result<BridgeRoomResult, DatabaseError>)
        requires
            old(self).wf(),
        ensures
            final(self).wf(),
            final(self).spec_config() == old(self).spec_config(),
            final(self).spec_store().messages() == old(self).spec_store().messages(),
            final(self).spec_store().users() == old(self).spec_store().users(),
            final(self).spec_presence() == old(self).spec_presence(),
            final(self).spec_provisioning() == old(self).spec_provisioning(),
            final(self).spec_queue() == old(self).spec_queue(),
            has_room_for_channel(old(self).spec_store().rooms(), channel_id@) ==> (r matches Ok(
                out,
            ) && out.reply@ == "This Slack channel is already bridged."@ && out.room_name_update
                is None && final(self).spec_store() == old(self).spec_store()),
            !has_room_for_channel(old(self).spec_store().rooms(), channel_id@)
                && spec_at_room_ceiling(*old(self)) ==> (r matches Ok(out) && out.reply@
                == spec_room_limit_message(old(self).spec_config().limits.room_count as int)
                && out.room_name_update is None && final(self).spec_store() == old(
                self,
            ).spec_store()),
            !has_room_for_channel(old(self).spec_store().rooms(), channel_id@)
                && !spec_at_room_ceiling(*old(self)) && channel is None ==> (r matches Ok(out)
                && out.reply@
                == "There was a problem bridging that channel - channel was not found."@
                && out.room_name_update is None && final(self).spec_store() == old(
                self,
            ).spec_store()),
            !has_room_for_channel(old(self).spec_store().rooms(), channel_id@)
                && !spec_at_room_ceiling(*old(self)) ==> (channel matches Some(c) ==> {
                &&& (!has_room_for_channel(old(self).spec_store().rooms(), c.id@)
                    && !has_room_for_matrix(old(self).spec_store().rooms(), matrix_room_id@)
                    && old(self).spec_store().ids_available()) ==> r is Ok
                &&& r matches Err(_) ==> (final(self).spec_store().rooms() == old(
                    self,
                ).spec_store().rooms() && (has_room_for_channel(
                    old(self).spec_store().rooms(),
                    c.id@,
                ) || has_room_for_matrix(old(self).spec_store().rooms(), matrix_room_id@) || !old(
                    self,
                ).spec_store().ids_available()))
                &&& r matches Ok(out) ==> {
                    &&& out.reply@ == "I have bridged this room to your channel"@
                    &&& out.room_name_update matches Some(update) && update.0@ == matrix_room_id@
                        && update.1@ == crate::formatting::spec_apply_pattern(
                        old(self).spec_config().channel.name_pattern@,
                        seq![("guild"@, c.guild_id@), ("name"@, "#"@ + c.name@)],
                    )
                    &&& final(self).spec_store().rooms().len() == old(
                        self,
                    ).spec_store().rooms().len() + 1
                    &&& final(self).spec_store().rooms().subrange(
                        0,
                        old(self).spec_store().rooms().len() as int,
                    ) == old(self).spec_store().rooms()
                    &&& final(self).spec_store().rooms().last().matrix_room_id@ == matrix_room_id@
                    &&& final(self).spec_store().rooms().last().slack_channel_id@ == c.id@
                    &&& final(self).spec_store().rooms().last().slack_channel_name@ == c.name@
                    &&& final(self).spec_store().rooms().last().slack_team_id@ == guild_id@
                }
            }),
            r is Err ==> final(self).spec_store().rooms() == old(self).spec_store().rooms(),
    {
        if self.store.get_room_by_slack_channel(channel_id).is_some() {
            return Ok(
                BridgeRoomResult {
                    reply: "This Slack channel is already bridged.".to_owned(),
                    room_name_update: None,
                },
            );
        }
        if let Some(limit_message) = self.check_room_limit() {
            return Ok(BridgeRoomResult { reply: limit_message, room_name_update: None });
        }
        let channel = match channel {
            Some(c) => c,
            None => {
                return Ok(
                    BridgeRoomResult {
                        reply:
                            "There was a problem bridging that channel - channel was not found.".to_owned(),
                        room_name_update: None,
                    },
                );
            },
        };

        let mapping = RoomMapping {
            id: 0,
            matrix_room_id: matrix_room_id.to_owned(),
            slack_channel_id: channel.id.clone(),
            slack_channel_name: channel.name.clone(),
            slack_team_id: guild_id.to_owned(),
            created_at: now_ms,
            updated_at: now_ms,
        };
        match self.store.create_room_mapping(&mapping) {
            Ok(()) => {},
            Err(e) => {
                return Err(e);
            },
        }

        let mut hashed_name = "#".to_owned();
        hashed_name.append(channel.name.as_str());
        let vars: [(&str, &str); 2] = [
            ("guild", channel.guild_id.as_str()),
            ("name", hashed_name.as_str()),
        ];
        let formatted_name = crate::formatting::apply_pattern_string(
            self.config.channel.name_pattern.as_str(),
            &vars,
        );
        proof {
            assert(vars@.map_values(|p: (&str, &str)| (p.0@, p.1@)) =~= seq![
                ("guild"@, channel.guild_id@),
                ("name"@, "#"@ + channel.name@),
            ]);
        }

        Ok(
            BridgeRoomResult {
                reply: "I have bridged this room to your channel".to_owned(),
                room_name_update: Some((matrix_room_id.to_owned(), formatted_name)),
            },
        )
    }

    /// Unbridges a Matrix room: the mapping leaves the store and the cache,
    /// and the caller applies the configured delete-time courtesies (name
    /// and topic prefixes, alias removal). An unmapped room only gets the
    /// not-bridged reply.
    pub fn unbridge_matrix_room(&mut self, matrix_room_id: &str) -> (r: (String, UnbridgeActions))
        requires
            old(self).wf(),
        ensures
            final(self).wf(),
            final(self).spec_config() == old(self).spec_config(),
            final(self).spec_presence() == old(self).spec_presence(),
            final(self).spec_provisioning() == old(self).spec_provisioning(),
            final(self).spec_queue() == old(self).spec_queue(),
            final(self).spec_store().messages() == old(self).spec_store().messages(),
            final(self).spec_store().users() == old(self).spec_store().users(),
            !has_room_for_matrix(old(self).spec_store().rooms(), matrix_room_id@) ==> r.0@
                == "This room is not bridged."@ && final(self).spec_store().rooms() == old(
                self,
            ).spec_store().rooms(),
            has_room_for_matrix(old(self).spec_store().rooms(), matrix_room_id@) ==> {
                &&& r.0@ == "This room has been unbridged"@
                &&& final(self).spec_store().rooms().len() == old(self).spec_store().rooms().len()
                    - 1
                &&& !has_room_for_matrix(final(self).spec_store().rooms(), matrix_room_id@)
                &&& !cache_has_key(final(self).spec_room_cache().entries(), matrix_room_id@)
            },
    {
        let mapping = match self.store.get_room_by_matrix_room(matrix_room_id) {
            Some(m) => m,
            None => {
                return (
                    "This room is not bridged.".to_owned(),
                    UnbridgeActions {
                        prefix_room_name: None,
                        prefix_room_topic: None,
                        remove_alias: None,
                    },
                );
            },
        };
        proof {
            let rooms = self.spec_store().rooms();
            let k = choose|k: int| 0 <= k < rooms.len() && rooms[k] == mapping;
            assert((#[trigger] rooms[k]).matrix_room_id@ == matrix_room_id@);
        }

        let delete_result = self.store.delete_room_mapping(mapping.id);
        proof {
            crate::store::lemma_wf_exports(old(self).spec_store());
            match delete_result {
                Ok(()) => {
                    let k = choose|k: int|
                        0 <= k < old(self).spec_store().rooms().len() && old(
                            self,
                        ).spec_store().rooms()[k].id == mapping.id && self.spec_store().rooms()
                            == old(self).spec_store().rooms().remove(k);
                    crate::store::lemma_room_removal(old(self).spec_store().rooms(), mapping, k);
                },
                Err(_) => {
                    assert(old(self).spec_store().rooms().contains(mapping));
                    let km = choose|km: int|
                        0 <= km < old(self).spec_store().rooms().len() && old(
                            self,
                        ).spec_store().rooms()[km] == mapping;
                    assert(old(self).spec_store().rooms()[km].id == mapping.id);
                    assert(false);
                },
            }
        }
        let _ = self.room_cache.remove(matrix_room_id);

        let delete_options = &self.config.channel.delete_options;
        let remove_alias: Option<String> = if delete_options.unset_room_alias {
            let mut alias = "#".to_owned();
            alias.append(self.config.room.room_alias_prefix.as_str());
            alias.append(mapping.slack_channel_id.as_str());
            alias.append(":");
            alias.append(self.config.bridge.domain.as_str());
            Some(alias)
        } else {
            None
        };
        (
            "This room has been unbridged".to_owned(),
            UnbridgeActions {
                prefix_room_name: delete_options.name_prefix.clone(),
                prefix_room_topic: delete_options.topic_prefix.clone(),
                remove_alias,
            },
        )
    }

    /// Starts a self-service bridge request: the admission checks run first,
    /// then a pending entry is registered and the caller delivers the prompt
    /// to the remote channel. A channel with a live pending request is
    /// rejected outright.
    pub fn begin_bridge_request(
        &mut self,
        channel_id: &str,
        channel: Option<&crate::slack::SlackChannel>,
        requestor: &str,
    ) -> (r: BridgeRequestStart)
        requires
            old(self).wf(),
        ensures
            final(self).wf(),
            final(self).spec_config() == old(self).spec_config(),
            final(self).spec_presence() == old(self).spec_presence(),
            final(self).spec_queue() == old(self).spec_queue(),
            final(self).spec_store() == old(self).spec_store(),
            has_room_for_channel(old(self).spec_store().rooms(), channel_id@) ==> (r matches
                BridgeRequestStart::Rejected(m) && m@ == "This Slack channel is already bridged."@),
            !has_room_for_channel(old(self).spec_store().rooms(), channel_id@)
                && spec_at_room_ceiling(*old(self)) ==> (r matches BridgeRequestStart::Rejected(m)
                && m@ == spec_room_limit_message(old(self).spec_config().limits.room_count as int)),
            !has_room_for_channel(old(self).spec_store().rooms(), channel_id@)
                && !spec_at_room_ceiling(*old(self)) && channel is None ==> (r matches
                BridgeRequestStart::Rejected(m) && m@
                == "There was a problem bridging that channel - channel was not found."@),
            !has_room_for_channel(old(self).spec_store().rooms(), channel_id@)
                && !spec_at_room_ceiling(*old(self)) ==> (channel matches Some(c) ==> {
                &&& crate::provisioning::pending_has(
                    old(self).spec_provisioning().pending(),
                    c.id@,
                ) ==> (r matches BridgeRequestStart::Rejected(m) && m@
                    == "There was a problem bridging that channel - has the guild owner approved the bridge?"@)
                &&& !crate::provisioning::pending_has(
                    old(self).spec_provisioning().pending(),
                    c.id@,
                ) ==> (r matches BridgeRequestStart::AskPermission {
                    channel_id: pending_channel,
                    prompt,
                    notice,
                } && pending_channel@ == c.id@ && prompt@ == requestor@
                    + " on matrix would like to bridge this channel. Someone with permission to manage webhooks please reply with `!matrix approve` or `!matrix deny` in the next "@
                    + crate::text::spec_u64_str(
                    ({
                        let secs: int = if old(self).spec_provisioning().timeout() / 1000 >= 60 {
                            old(self).spec_provisioning().timeout() as int / 1000
                        } else {
                            60int
                        };
                        (secs + 59) / 60
                    }),
                ) + " minutes."@)
            }),
            match r {
                BridgeRequestStart::Rejected(_) => final(self).spec_provisioning().pending() == old(
                    self,
                ).spec_provisioning().pending(),
                BridgeRequestStart::AskPermission { channel_id: pending_channel, prompt, notice } => {
                    &&& channel matches Some(c) && pending_channel@ == c.id@
                    &&& !crate::provisioning::pending_has(
                        old(self).spec_provisioning().pending(),
                        pending_channel@,
                    )
                    &&& crate::provisioning::pending_has(
                        final(self).spec_provisioning().pending(),
                        pending_channel@,
                    )
                    &&& notice@
                        == "I'm asking permission from the guild administrators to make this bridge."@
                },
            },
    {
        if self.store.get_room_by_slack_channel(channel_id).is_some() {
            return BridgeRequestStart::Rejected(
                "This Slack channel is already bridged.".to_owned(),
            );
        }
        if let Some(limit_message) = self.check_room_limit() {
            return BridgeRequestStart::Rejected(limit_message);
        }
        let channel = match channel {
            Some(c) => c,
            None => {
                return BridgeRequestStart::Rejected(
                    "There was a problem bridging that channel - channel was not found.".to_owned(),
                );
            },
        };
        if !self.provisioning.register_request(channel.id.as_str()) {
            return BridgeRequestStart::Rejected(
                "There was a problem bridging that channel - has the guild owner approved the bridge?".to_owned(),
            );
        }
        let prompt = self.provisioning.prompt_message(requestor);
        BridgeRequestStart::AskPermission {
            channel_id: channel.id.clone(),
            prompt,
            notice:
                "I'm asking permission from the guild administrators to make this bridge.".to_owned(),
        }
    }

    /// The prompt could not be delivered: the pending entry leaves the table
    /// and the requestor gets the delivery-failure reply immediately.
    pub fn bridge_request_delivery_failed(&mut self, channel_id: &str) -> (r: String)
        requires
            old(self).wf(),
        ensures
            final(self).wf(),
            final(self).spec_config() == old(self).spec_config(),
            final(self).spec_presence() == old(self).spec_presence(),
            final(self).spec_queue() == old(self).spec_queue(),
            final(self).spec_store() == old(self).spec_store(),
            !crate::provisioning::pending_has(
                final(self).spec_provisioning().pending(),
                channel_id@,
            ),
            r@ == "Failed to send approval request to Slack. Ensure the bot can send messages in that channel."@,
    {
        let _ = self.provisioning.delivery_failed(channel_id);
        "Failed to send approval request to Slack. Ensure the bot can send messages in that channel.".to_owned()
    }

    /// Finishes a bridge request once the wait resolved: approval commits
    /// the mapping, every failure maps to its user-facing reply, and an
    /// elapsed deadline clears the pending entry.
    pub fn finish_bridge_request(
        &mut self,
        matrix_room_id: &str,
        guild_id: &str,
        channel_id: &str,
        channel: Option<&crate::slack::SlackChannel>,
        outcome: crate::provisioning::WaitOutcome,
        now_ms: i64,
    ) -> (r: Result<BridgeRoomResult, DatabaseError>)
        requires
            old(self).wf(),
        ensures
            final(self).wf(),
            final(self).spec_config() == old(self).spec_config(),
            final(self).spec_presence() == old(self).spec_presence(),
            final(self).spec_queue() == old(self).spec_queue(),
            outcome == crate::provisioning::WaitOutcome::Decision(false) ==> (r matches Ok(out)
                && out.reply@ == "The bridge has been declined by the Slack guild."@ && final(self).spec_store() == old(self).spec_store()),
            outcome == crate::provisioning::WaitOutcome::TimedOut ==> (r matches Ok(out)
                && out.reply@ == "Timed out waiting for a response from the Slack owners."@
                && final(self).spec_store() == old(self).spec_store()),
            outcome == crate::provisioning::WaitOutcome::SignalDropped ==> (r matches Ok(out)
                && out.reply@
                == "There was a problem bridging that channel - has the guild owner approved the bridge?"@
                && final(self).spec_store() == old(self).spec_store()),
            outcome == crate::provisioning::WaitOutcome::Decision(true) ==> {
                &&& has_room_for_channel(old(self).spec_store().rooms(), channel_id@) ==> (
                r matches Ok(out) && out.reply@ == "This Slack channel is already bridged."@
                    && final(self).spec_store() == old(self).spec_store())
                &&& !has_room_for_channel(old(self).spec_store().rooms(), channel_id@)
                    && !spec_at_room_ceiling(*old(self)) ==> (channel matches Some(c) ==> {
                    &&& (!has_room_for_channel(old(self).spec_store().rooms(), c.id@)
                        && !has_room_for_matrix(old(self).spec_store().rooms(), matrix_room_id@)
                        && old(self).spec_store().ids_available()) ==> r is Ok
                    &&& r matches Ok(out) ==> {
                        &&& out.reply@ == "I have bridged this room to your channel"@
                        &&& out.room_name_update matches Some(update) && update.0@
                            == matrix_room_id@
                        &&& final(self).spec_store().rooms().len() == old(
                            self,
                        ).spec_store().rooms().len() + 1
                        &&& final(self).spec_store().rooms().last().matrix_room_id@
                            == matrix_room_id@
                        &&& final(self).spec_store().rooms().last().slack_channel_id@ == c.id@
                    }
                })
            },
    {
        let wait = self.provisioning.finish_wait(channel_id, outcome);
        match wait {
            Ok(()) => self.bridge_matrix_room(matrix_room_id, guild_id, channel_id, channel, now_ms),
            Err(e) => {
                let reply: String = match e {
                    crate::provisioning::ProvisioningError::TimedOut => {
                        "Timed out waiting for a response from the Slack owners.".to_owned()
                    },
                    crate::provisioning::ProvisioningError::Declined => {
                        "The bridge has been declined by the Slack guild.".to_owned()
                    },
                    crate::provisioning::ProvisioningError::DeliveryFailed => {
                        "Failed to send approval request to Slack. Ensure the bot can send messages in that channel.".to_owned()
                    },
                    crate::provisioning::ProvisioningError::Cancelled => {
                        "There was a problem bridging that channel - has the guild owner approved the bridge?".to_owned()
                    },
                };
                Ok(BridgeRoomResult { reply, room_name_update: None })
            },
        }
    }

    /// Resolves an approval or denial from the remote channel's owners: the
    /// pending entry pops exactly once, and a second or late answer gets the
    /// after-the-deadline reply.
    pub fn mark_provisioning_approval(&mut self, channel_id: &str, allow: bool) -> (r: (
        crate::provisioning::ApprovalResponseStatus,
        String,
    ))
        requires
            old(self).wf(),
        ensures
            final(self).wf(),
            final(self).spec_config() == old(self).spec_config(),
            final(self).spec_presence() == old(self).spec_presence(),
            final(self).spec_queue() == old(self).spec_queue(),
            final(self).spec_store() == old(self).spec_store(),
            !crate::provisioning::pending_has(
                final(self).spec_provisioning().pending(),
                channel_id@,
            ),
            r.0 == (if crate::provisioning::pending_has(
                old(self).spec_provisioning().pending(),
                channel_id@,
            ) {
                crate::provisioning::ApprovalResponseStatus::Applied
            } else {
                crate::provisioning::ApprovalResponseStatus::Expired
            }),
            r.0 == crate::provisioning::ApprovalResponseStatus::Applied && allow ==> r.1@
                == "Thanks for your response! The matrix bridge has been approved."@,
            r.0 == crate::provisioning::ApprovalResponseStatus::Applied && !allow ==> r.1@
                == "Thanks for your response! The matrix bridge has been declined."@,
            r.0 == crate::provisioning::ApprovalResponseStatus::Expired ==> r.1@
                == "Thanks for your response, however it has arrived after the deadline - sorry!"@,
    {
        let status = self.provisioning.mark_approval(channel_id, allow);
        let reply: String = match status {
            crate::provisioning::ApprovalResponseStatus::Applied => {
                if allow {
                    "Thanks for your response! The matrix bridge has been approved.".to_owned()
                } else {
                    "Thanks for your response! The matrix bridge has been declined.".to_owned()
                }
            },
            crate::provisioning::ApprovalResponseStatus::Expired => {
                "Thanks for your response, however it has arrived after the deadline - sorry!".to_owned()
            },
        };
        (status, reply)
    }

    /// A Slack-side unbridge: the mapping leaves the store and the cache,
    /// and the channel gets the confirmation or the not-bridged reply.
    pub fn handle_slack_unbridge(&mut self, channel_id: &str) -> (r: String)
        requires
            old(self).wf(),
        ensures
            final(self).wf(),
            final(self).spec_config() == old(self).spec_config(),
            final(self).spec_presence() == old(self).spec_presence(),
            final(self).spec_provisioning() == old(self).spec_provisioning(),
            final(self).spec_queue() == old(self).spec_queue(),
            final(self).spec_store().messages() == old(self).spec_store().messages(),
            final(self).spec_store().users() == old(self).spec_store().users(),
            !has_room_for_channel(old(self).spec_store().rooms(), channel_id@) ==> r@
                == "This channel is not bridged to a plumbed matrix room"@ && final(self).spec_store().rooms() == old(self).spec_store().rooms(),
            has_room_for_channel(old(self).spec_store().rooms(), channel_id@) ==> r@
                == "This channel has been unbridged"@ && !has_room_for_channel(
                final(self).spec_store().rooms(),
                channel_id@,
            ) && exists|k: int|
                {
                    &&& 0 <= k < old(self).spec_store().rooms().len()
                    &&& (#[trigger] old(self).spec_store().rooms()[k]).slack_channel_id@
                        == channel_id@
                    &&& final(self).spec_store().rooms() == old(self).spec_store().rooms().remove(
                        k,
                    )
                    &&& !cache_has_key(
                        final(self).spec_room_cache().entries(),
                        old(self).spec_store().rooms()[k].matrix_room_id@,
                    )
                },
    {
        let mapping = match self.store.get_room_by_slack_channel(channel_id) {
            Some(m) => m,
            None => {
                return "This channel is not bridged to a plumbed matrix room".to_owned();
            },
        };
        proof {
            let rooms = self.spec_store().rooms();
            let k = choose|k: int| 0 <= k < rooms.len() && rooms[k] == mapping;
            assert((#[trigger] rooms[k]).slack_channel_id@ == channel_id@);
        }
        let delete_result = self.store.delete_room_mapping(mapping.id);
        proof {
            crate::store::lemma_wf_exports(old(self).spec_store());
            match delete_result {
                Ok(()) => {
                    let k = choose|k: int|
                        0 <= k < old(self).spec_store().rooms().len() && old(
                            self,
                        ).spec_store().rooms()[k].id == mapping.id && self.spec_store().rooms()
                            == old(self).spec_store().rooms().remove(k);
                    crate::store::lemma_room_removal(old(self).spec_store().rooms(), mapping, k);
                },
                Err(_) => {
                    assert(old(self).spec_store().rooms().contains(mapping));
                    let km = choose|km: int|
                        0 <= km < old(self).spec_store().rooms().len() && old(
                            self,
                        ).spec_store().rooms()[km] == mapping;
                    assert(old(self).spec_store().rooms()[km].id == mapping.id);
                    assert(false);
                },
            }
        }
        let _ = self.room_cache.remove(mapping.matrix_room_id.as_str());
        "This channel has been unbridged".to_owned()
    }

    /// The rooms a moderation action fans out to: every room mapped to the
    /// team, the requesting channel's own room when the team has none.
    pub fn moderation_target_rooms(&self, team_id: &str, fallback_room_id: &str) -> (r: Vec<String>)
        requires
            self.wf(),
        ensures
            r@.len() > 0,
            forall|i: int, j: int| 0 <= i < j < r@.len() ==> r@[i]@ != r@[j]@,
    {
        let guild_rooms = self.store.get_rooms_by_guild(team_id);
        let mut out: Vec<String> = Vec::new();
        if guild_rooms.len() == 0 {
            out.push(fallback_room_id.to_owned());
            return out;
        }
        proof {
            crate::store::lemma_wf_exports(self.spec_store());
            crate::seq_lemmas::lemma_filter_preserves_pairwise(
                self.spec_store().rooms(),
                crate::store::same_team(team_id@),
                |a: RoomMapping, b: RoomMapping| a.matrix_room_id@ != b.matrix_room_id@,
            );
        }
        let mut i: usize = 0;
        while i < guild_rooms.len()
            invariant
                i <= guild_rooms@.len(),
                guild_rooms@.len() > 0,
                i > 0 ==> out@.len() > 0,
                out@.len() == i,
                forall|a: int, b: int|
                    0 <= a < b < guild_rooms@.len() ==> guild_rooms@[a].matrix_room_id@
                        != guild_rooms@[b].matrix_room_id@,
                forall|a: int| 0 <= a < i ==> out@[a]@ == guild_rooms@[a].matrix_room_id@,
            decreases guild_rooms@.len() - i,
        {
            out.push(guild_rooms[i].matrix_room_id.clone());
            i = i + 1;
        }
        out
    }


    /// One Slack-side moderation fan-out, ready to run: the reason attached
    /// to each per-room action and the notice posted in each room where the
    /// action succeeded.
    pub fn moderation_plan(
        &self,
        action: crate::slack_commands::ModerationAction,
        matrix_user: &str,
        requestor_id: &str,
        request_channel_id: &str,
        team_id: &str,
        fallback_room_id: &str,
    ) -> (r: ModerationPlan)
        requires
            self.wf(),
        ensures
            r.action == action,
            r.matrix_user@ == matrix_user@,
            r.rooms@.len() > 0,
            forall|i: int, j: int| 0 <= i < j < r.rooms@.len() ==> r.rooms@[i]@ != r.rooms@[j]@,
            r.reason@ == "Slack moderation request by "@ + requestor_id@ + " from channel "@
                + request_channel_id@,
            r.notice@ == "Slack moderation request: "@ + crate::slack_commands::spec_action_keyword(
                action,
            ) + " "@ + matrix_user@ + " (requested by "@ + requestor_id@ + ")"@,
    {
        let rooms = self.moderation_target_rooms(team_id, fallback_room_id);
        let mut reason = "Slack moderation request by ".to_owned();
        reason.append(requestor_id);
        reason.append(" from channel ");
        reason.append(request_channel_id);
        let mut notice = "Slack moderation request: ".to_owned();
        notice.append(crate::slack_commands::action_keyword(&action));
        notice.append(" ");
        notice.append(matrix_user);
        notice.append(" (requested by ");
        notice.append(requestor_id);
        notice.append(")");
        ModerationPlan {
            action,
            matrix_user: matrix_user.to_owned(),
            rooms,
            reason,
            notice,
        }
    }

    /// The reply a moderation command ends with: the per-room successes are
    /// tallied against the failures, and a failure count appears only when
    /// one room failed.
    pub fn moderation_reply(
        &self,
        action: crate::slack_commands::ModerationAction,
        matrix_user: &str,
        results: &Vec<bool>,
    ) -> (r: String)
        ensures
            r@ == spec_moderation_reply(
                action,
                matrix_user@,
                count_true(results@),
                results@.len() - count_true(results@),
            ),
    {
        let mut success_count: usize = 0;
        let mut failed_count: usize = 0;
        let mut i: usize = 0;
        proof {
            assert(results@.subrange(0, 0) =~= Seq::<bool>::empty());
        }
        while i < results.len()
            invariant
                i <= results@.len(),
                success_count == count_true(results@.subrange(0, i as int)),
                failed_count == i - count_true(results@.subrange(0, i as int)),
                count_true(results@.subrange(0, i as int)) <= i,
            decreases results@.len() - i,
        {
            proof {
                assert(results@.subrange(0, i as int + 1).drop_last() =~= results@.subrange(
                    0,
                    i as int,
                ));
                lemma_count_true_bound(results@.subrange(0, i as int + 1));
            }
            if results[i] {
                success_count = success_count + 1;
            } else {
                failed_count = failed_count + 1;
            }
            i = i + 1;
        }
        proof {
            assert(results@.subrange(0, results@.len() as int) =~= results@);
        }
        let action_word: &'static str = match action {
            crate::slack_commands::ModerationAction::Kick => "Kicked",
            crate::slack_commands::ModerationAction::Ban => "Banned",
            crate::slack_commands::ModerationAction::Unban => "Unbanned",
        };
        let mut out = action_word.to_owned();
        out.append(" ");
        out.append(matrix_user);
        out.append(" in ");
        let successes = crate::text::usize_to_string(success_count);
        out.append(successes.as_str());
        if failed_count == 0 {
            out.append(" bridged room(s).");
        } else {
            out.append(" room(s), failed in ");
            let failures = crate::text::usize_to_string(failed_count);
            out.append(failures.as_str());
            out.append(" room(s).");
        }
        out
    }

    /// A Matrix member event: an invite for the bridge's bot is answered by
    /// joining; ghost echo is dropped; a kick or ban of one of the bridge's
    /// ghosts in a mapped room is mirrored as a permission change and a
    /// notice, with a delayed restore after a kick.
    pub fn handle_matrix_member(&mut self, event: &MatrixEvent, now_ms: i64) -> (r:
        MatrixMemberDisposition)
        requires
            old(self).wf(),
        ensures
            final(self).wf(),
            final(self).spec_store() == old(self).spec_store(),
            final(self).spec_config() == old(self).spec_config(),
            final(self).spec_presence() == old(self).spec_presence(),
            final(self).spec_provisioning() == old(self).spec_provisioning(),
            final(self).spec_queue() == old(self).spec_queue(),
            event.content matches Some(c) ==> (c.membership matches Some(ms) ==> {
                &&& (ms@ == "invite"@ && (event.state_key matches Some(sk) && sk@
                    == spec_bot_mxid(*old(self)))) ==> (r matches
                    MatrixMemberDisposition::JoinInvitedRoom { room_id } && room_id@
                    == event.room_id@)
                &&& (ms@ == "invite"@ && !(event.state_key matches Some(sk) && sk@
                    == spec_bot_mxid(*old(self)))) ==> r is Ignored
                &&& (ms@ != "invite"@ && crate::text::spec_starts_with(
                    event.sender@,
                    "@_slack_"@,
                )) ==> r is DroppedGhostEcho
                &&& ((ms@ == "leave"@ || ms@ == "ban"@) && !crate::text::spec_starts_with(
                    event.sender@,
                    "@_slack_"@,
                ) && (event.state_key matches Some(sk) && sk@ != event.sender@
                    && crate::matrix::spec_ghost_mxid_parts(
                    sk@,
                    old(self).spec_config().bridge.domain@,
                ) is Some) && spec_room_lookup_hit(*old(self), event.room_id@, now_ms)) ==> r
                    is Moderation
                &&& (ms@ != "invite"@ && ms@ != "leave"@ && ms@ != "ban"@
                    && !crate::text::spec_starts_with(event.sender@, "@_slack_"@)) ==> r
                    is Ignored
            }),
            event.content is None || (event.content matches Some(c) && c.membership is None) ==> r
                is Ignored,
            match r {
                MatrixMemberDisposition::JoinInvitedRoom { room_id } => room_id@ == event.room_id@,
                MatrixMemberDisposition::DroppedGhostEcho => crate::text::spec_starts_with(
                    event.sender@,
                    "@_slack_"@,
                ),
                MatrixMemberDisposition::Ignored => true,
                MatrixMemberDisposition::Moderation {
                    slack_channel_id,
                    slack_user_id,
                    notice,
                    schedule_restore_ms,
                } => {
                    &&& !crate::text::spec_starts_with(event.sender@, "@_slack_"@)
                    &&& (event.state_key matches Some(sk)
                        && crate::matrix::spec_ghost_mxid_parts(
                        sk@,
                        old(self).spec_config().bridge.domain@,
                    ) == Some(slack_user_id@))
                    &&& (event.state_key matches Some(sk) && event.content matches Some(c)
                        && c.membership matches Some(ms) && notice@
                        == spec_member_moderation_notice(
                        sk@,
                        ms@ == "ban"@,
                        event.sender@,
                        match c.reason {
                            Some(text) => Some(text@),
                            None => None,
                        },
                    ))
                    &&& ((exists|k: int|
                        0 <= k < old(self).spec_room_cache().entries().len() && (#[trigger] old(
                            self,
                        ).spec_room_cache().entries()[k]).key@ == event.room_id@ && entry_valid(
                            old(self).spec_room_cache().entries()[k],
                            old(self).spec_room_cache().ttl(),
                            now_ms,
                        ) && old(self).spec_room_cache().entries()[k].value.slack_channel_id@
                            == slack_channel_id@) || (exists|k: int|
                        0 <= k < old(self).spec_store().rooms().len() && (#[trigger] old(
                            self,
                        ).spec_store().rooms()[k]).matrix_room_id@ == event.room_id@ && old(
                            self,
                        ).spec_store().rooms()[k].slack_channel_id@ == slack_channel_id@))
                    &&& schedule_restore_ms == (
                    if event.content matches Some(c) && c.membership matches Some(ms) && ms@
                        == "leave"@ && old(self).spec_config().room.kick_for > 0 {
                        Some(old(self).spec_config().room.kick_for)
                    } else {
                        None
                    })
                },
            },
    {
        let content = match &event.content {
            Some(c) => c,
            None => {
                return MatrixMemberDisposition::Ignored;
            },
        };
        let membership = match &content.membership {
            Some(m) => m,
            None => {
                return MatrixMemberDisposition::Ignored;
            },
        };
        proof {
            reveal_strlit("invite");
            reveal_strlit("leave");
            reveal_strlit("ban");
            assert("invite"@.len() == 6);
            assert("leave"@.len() == 5);
            assert("ban"@.len() == 3);
        }

        let bot = crate::matrix::bot_user_id(
            self.config.registration.sender_localpart.as_str(),
            self.config.bridge.domain.as_str(),
        );
        if crate::text::string_eq_str(membership, "invite") {
            let is_for_bot: bool = match &event.state_key {
                Some(sk) => crate::text::str_eq(sk.as_str(), bot.as_str()),
                None => false,
            };
            if is_for_bot {
                return MatrixMemberDisposition::JoinInvitedRoom {
                    room_id: event.room_id.clone(),
                };
            }
            return MatrixMemberDisposition::Ignored;
        }

        if crate::matrix::is_namespaced_user(event.sender.as_str()) {
            return MatrixMemberDisposition::DroppedGhostEcho;
        }

        let is_leave = crate::text::string_eq_str(membership, "leave");
        let is_ban = crate::text::string_eq_str(membership, "ban");
        if !is_leave && !is_ban {
            return MatrixMemberDisposition::Ignored;
        }
        let state_key = match &event.state_key {
            Some(sk) => sk,
            None => {
                return MatrixMemberDisposition::Ignored;
            },
        };
        if crate::text::str_eq(event.sender.as_str(), state_key.as_str()) {
            return MatrixMemberDisposition::Ignored;
        }

        let mapping = match self.get_room_mapping_cached(event.room_id.as_str(), now_ms) {
            Some(m) => m,
            None => {
                return MatrixMemberDisposition::Ignored;
            },
        };

        let slack_user_id = match crate::matrix::slack_user_id_from_mxid(
            state_key.as_str(),
            self.config.bridge.domain.as_str(),
        ) {
            Some(id) => id,
            None => {
                return MatrixMemberDisposition::Ignored;
            },
        };

        let reason: String = match &content.reason {
            Some(re) => re.clone(),
            None => "No reason provided".to_owned(),
        };
        let action_word: &'static str = if is_ban {
            "banned"
        } else {
            "kicked"
        };
        let mut notice = "Matrix moderation: `".to_owned();
        notice.append(state_key.as_str());
        notice.append("` was ");
        notice.append(action_word);
        notice.append(" by `");
        notice.append(event.sender.as_str());
        notice.append("`. Reason: ");
        notice.append(reason.as_str());

        let schedule_restore_ms: Option<u64> = if is_leave && self.config.room.kick_for > 0 {
            Some(self.config.room.kick_for)
        } else {
            None
        };

        MatrixMemberDisposition::Moderation {
            slack_channel_id: mapping.slack_channel_id,
            slack_user_id,
            notice,
            schedule_restore_ms,
        }
    }

    /// Encryption switched on in a mapped room locks the bridge out: the
    /// mapping is removed, the room is told why, and the bridge leaves. An
    /// unmapped room is ignored.
    pub fn handle_matrix_encryption(&mut self, event: &MatrixEvent) -> (r: Option<
        EncryptionLockout,
    >)
        requires
            old(self).wf(),
        ensures
            final(self).wf(),
            final(self).spec_config() == old(self).spec_config(),
            final(self).spec_presence() == old(self).spec_presence(),
            final(self).spec_provisioning() == old(self).spec_provisioning(),
            final(self).spec_queue() == old(self).spec_queue(),
            final(self).spec_store().messages() == old(self).spec_store().messages(),
            final(self).spec_store().users() == old(self).spec_store().users(),
            (r is Some) == has_room_for_matrix(old(self).spec_store().rooms(), event.room_id@),
            match r {
                Some(lockout) => {
                    &&& lockout.room_id@ == event.room_id@
                    &&& lockout.notice@
                        == "You have turned on encryption in this room, so the service will not bridge any new messages."@
                    &&& !has_room_for_matrix(final(self).spec_store().rooms(), event.room_id@)
                    &&& final(self).spec_store().rooms().len() == old(
                        self,
                    ).spec_store().rooms().len() - 1
                },
                None => final(self).spec_store().rooms() == old(self).spec_store().rooms(),
            },
    {
        let removed = self.unbridge_core(event.room_id.as_str());
        if removed {
            Some(
                EncryptionLockout {
                    room_id: event.room_id.clone(),
                    notice:
                        "You have turned on encryption in this room, so the service will not bridge any new messages.".to_owned(),
                },
            )
        } else {
            None
        }
    }

    /// Removes a room's mapping and cache entry; reports whether one was
    /// there.
    fn unbridge_core(&mut self, matrix_room_id: &str) -> (r: bool)
        requires
            old(self).wf(),
        ensures
            final(self).wf(),
            final(self).spec_config() == old(self).spec_config(),
            final(self).spec_presence() == old(self).spec_presence(),
            final(self).spec_provisioning() == old(self).spec_provisioning(),
            final(self).spec_queue() == old(self).spec_queue(),
            final(self).spec_store().messages() == old(self).spec_store().messages(),
            final(self).spec_store().users() == old(self).spec_store().users(),
            r == has_room_for_matrix(old(self).spec_store().rooms(), matrix_room_id@),
            !r ==> final(self).spec_store().rooms() == old(self).spec_store().rooms(),
            r ==> !has_room_for_matrix(final(self).spec_store().rooms(), matrix_room_id@) && final(self).spec_store().rooms().len() == old(self).spec_store().rooms().len() - 1,
    {
        let (reply, _) = self.unbridge_matrix_room(matrix_room_id);
        proof {
            reveal_strlit("This room has been unbridged");
            reveal_strlit("This room is not bridged.");
            if has_room_for_matrix(old(self).spec_store().rooms(), matrix_room_id@) {
                assert(reply@ == "This room has been unbridged"@);
            } else {
                assert(reply@ == "This room is not bridged."@);
            }
        }
        crate::text::string_eq_str(&reply, "This room has been unbridged")
    }

    /// A room rename or topic change in a mapped room becomes a notice in
    /// the channel, unless topic notifications are off. An unmapped room is
    /// a silent drop.
    pub fn handle_matrix_room_name(
        &mut self,
        event: &MatrixEvent,
        sender_displayname: &str,
        now_ms: i64,
    ) -> (r: Option<(String, String)>)
        requires
            old(self).wf(),
        ensures
            final(self).wf(),
            final(self).spec_store() == old(self).spec_store(),
            final(self).spec_config() == old(self).spec_config(),
            final(self).spec_presence() == old(self).spec_presence(),
            final(self).spec_provisioning() == old(self).spec_provisioning(),
            final(self).spec_queue() == old(self).spec_queue(),
            old(self).spec_config().bridge.disable_room_topic_notifications ==> r is None,
            (r is Some) == (!old(self).spec_config().bridge.disable_room_topic_notifications
                && spec_room_lookup_hit(*old(self), event.room_id@, now_ms)),
            match r {
                Some(pair) => ({
                    &&& pair.1@ == "**"@ + sender_displayname@ + "** changed the room name to: "@ + (
                    match event.content {
                        Some(c) => match c.name {
                            Some(n) => n@,
                            None => Seq::<char>::empty(),
                        },
                        None => Seq::<char>::empty(),
                    })
                    &&& ((exists|k: int|
                        0 <= k < old(self).spec_room_cache().entries().len() && (#[trigger] old(
                            self,
                        ).spec_room_cache().entries()[k]).key@ == event.room_id@ && entry_valid(
                            old(self).spec_room_cache().entries()[k],
                            old(self).spec_room_cache().ttl(),
                            now_ms,
                        ) && old(self).spec_room_cache().entries()[k].value.slack_channel_id@
                            == pair.0@) || (exists|k: int|
                        0 <= k < old(self).spec_store().rooms().len() && (#[trigger] old(
                            self,
                        ).spec_store().rooms()[k]).matrix_room_id@ == event.room_id@ && old(
                            self,
                        ).spec_store().rooms()[k].slack_channel_id@ == pair.0@))
                }),
                None => true,
            },
    {
        if self.config.bridge.disable_room_topic_notifications {
            return None;
        }
        let mapping = match self.get_room_mapping_cached(event.room_id.as_str(), now_ms) {
            Some(m) => m,
            None => {
                return None;
            },
        };
        let new_name: String = match &event.content {
            Some(c) => match &c.name {
                Some(n) => n.clone(),
                None => String::new(),
            },
            None => String::new(),
        };
        let mut message = "**".to_owned();
        message.append(sender_displayname);
        message.append("** changed the room name to: ");
        message.append(new_name.as_str());
        Some((mapping.slack_channel_id, message))
    }

    /// The topic counterpart of `handle_matrix_room_name`.
    pub fn handle_matrix_room_topic(
        &mut self,
        event: &MatrixEvent,
        sender_displayname: &str,
        now_ms: i64,
    ) -> (r: Option<(String, String)>)
        requires
            old(self).wf(),
        ensures
            final(self).wf(),
            final(self).spec_store() == old(self).spec_store(),
            final(self).spec_config() == old(self).spec_config(),
            final(self).spec_presence() == old(self).spec_presence(),
            final(self).spec_provisioning() == old(self).spec_provisioning(),
            final(self).spec_queue() == old(self).spec_queue(),
            old(self).spec_config().bridge.disable_room_topic_notifications ==> r is None,
            (r is Some) == (!old(self).spec_config().bridge.disable_room_topic_notifications
                && spec_room_lookup_hit(*old(self), event.room_id@, now_ms)),
            match r {
                Some(pair) => ({
                    &&& pair.1@ == "**"@ + sender_displayname@ + "** changed the room topic to: "@ + (
                    match event.content {
                        Some(c) => match c.topic {
                            Some(n) => n@,
                            None => Seq::<char>::empty(),
                        },
                        None => Seq::<char>::empty(),
                    })
                    &&& ((exists|k: int|
                        0 <= k < old(self).spec_room_cache().entries().len() && (#[trigger] old(
                            self,
                        ).spec_room_cache().entries()[k]).key@ == event.room_id@ && entry_valid(
                            old(self).spec_room_cache().entries()[k],
                            old(self).spec_room_cache().ttl(),
                            now_ms,
                        ) && old(self).spec_room_cache().entries()[k].value.slack_channel_id@
                            == pair.0@) || (exists|k: int|
                        0 <= k < old(self).spec_store().rooms().len() && (#[trigger] old(
                            self,
                        ).spec_store().rooms()[k]).matrix_room_id@ == event.room_id@ && old(
                            self,
                        ).spec_store().rooms()[k].slack_channel_id@ == pair.0@))
                }),
                None => true,
            },
    {
        if self.config.bridge.disable_room_topic_notifications {
            return None;
        }
        let mapping = match self.get_room_mapping_cached(event.room_id.as_str(), now_ms) {
            Some(m) => m,
            None => {
                return None;
            },
        };
        let new_topic: String = match &event.content {
            Some(c) => match &c.topic {
                Some(t) => t.clone(),
                None => String::new(),
            },
            None => String::new(),
        };
        let mut message = "**".to_owned();
        message.append(sender_displayname);
        message.append("** changed the room topic to: ");
        message.append(new_topic.as_str());
        Some((mapping.slack_channel_id, message))
    }

    /// A power-level change in a mapped room: the ghost users whose level
    /// changed are summarized in one notice to the channel; no mapping, no
    /// content or no changed ghost, no notice.
    pub fn handle_matrix_power_levels(
        &mut self,
        event: &MatrixEvent,
        sender_displayname: &str,
        now_ms: i64,
    ) -> (r: Option<(String, String)>)
        requires
            old(self).wf(),
        ensures
            final(self).wf(),
            final(self).spec_store() == old(self).spec_store(),
            final(self).spec_config() == old(self).spec_config(),
            final(self).spec_presence() == old(self).spec_presence(),
            final(self).spec_provisioning() == old(self).spec_provisioning(),
            final(self).spec_queue() == old(self).spec_queue(),
            (r is Some) == (spec_room_lookup_hit(*old(self), event.room_id@, now_ms) && (
            event.content matches Some(c) && spec_power_level_lines(
                c.power_level_users@,
                old(self).spec_config().bridge.domain@,
            ).len() > 0)),
            match r {
                Some(pair) => ({
                    &&& (event.content matches Some(c) && pair.1@ == "**"@ + sender_displayname@
                        + "** updated Matrix power levels for bridged users: "@
                        + crate::text::spec_join(
                        spec_power_level_lines(
                            c.power_level_users@,
                            old(self).spec_config().bridge.domain@,
                        ),
                        ", "@,
                    ))
                    &&& ((exists|k: int|
                        0 <= k < old(self).spec_room_cache().entries().len() && (#[trigger] old(
                            self,
                        ).spec_room_cache().entries()[k]).key@ == event.room_id@ && entry_valid(
                            old(self).spec_room_cache().entries()[k],
                            old(self).spec_room_cache().ttl(),
                            now_ms,
                        ) && old(self).spec_room_cache().entries()[k].value.slack_channel_id@
                            == pair.0@) || (exists|k: int|
                        0 <= k < old(self).spec_store().rooms().len() && (#[trigger] old(
                            self,
                        ).spec_store().rooms()[k]).matrix_room_id@ == event.room_id@ && old(
                            self,
                        ).spec_store().rooms()[k].slack_channel_id@ == pair.0@))
                }),
                None => true,
            },
    {
        let mapping = match self.get_room_mapping_cached(event.room_id.as_str(), now_ms) {
            Some(m) => m,
            None => {
                return None;
            },
        };
        let content = match &event.content {
            Some(c) => c,
            None => {
                return None;
            },
        };

        let ghost domain_view = self.config.bridge.domain@;
        let ghost all_users = content.power_level_users@;
        let mut changed_users: Vec<String> = Vec::new();
        let mut i: usize = 0;
        proof {
            assert(all_users.subrange(0, all_users.len() as int) =~= all_users);
            assert(changed_users@.map_values(|l: String| l@) + spec_power_level_lines(
                all_users.subrange(0, all_users.len() as int),
                domain_view,
            ) =~= spec_power_level_lines(all_users, domain_view));
        }
        while i < content.power_level_users.len()
            invariant
                i <= all_users.len(),
                all_users == content.power_level_users@,
                domain_view == self.config.bridge.domain@,
                self.config == old(self).spec_config(),
                changed_users@.map_values(|l: String| l@) + spec_power_level_lines(
                    all_users.subrange(i as int, all_users.len() as int),
                    domain_view,
                ) =~= spec_power_level_lines(all_users, domain_view),
            decreases all_users.len() - i,
        {
            let ghost rest = all_users.subrange(i as int, all_users.len() as int);
            let ghost prev_out = changed_users@;
            proof {
                assert(rest[0] == all_users[i as int]);
                assert(rest.drop_first() =~= all_users.subrange(
                    i as int + 1,
                    all_users.len() as int,
                ));
            }
            let (mxid, level) = &content.power_level_users[i];
            if let Some(slack_user_id) = crate::matrix::slack_user_id_from_mxid(
                mxid.as_str(),
                self.config.bridge.domain.as_str(),
            ) {
                let mut line = slack_user_id;
                line.append(" -> ");
                let rendered = crate::text::i64_to_string(*level);
                line.append(rendered.as_str());
                changed_users.push(line);
                proof {
                    assert(changed_users@.map_values(|l: String| l@) =~= prev_out.map_values(
                        |l: String| l@,
                    ).push(changed_users@.last()@));
                }
            }
            i = i + 1;
        }
        proof {
            assert(all_users.subrange(all_users.len() as int, all_users.len() as int) =~= Seq::<
                (String, i64),
            >::empty());
        }

        if changed_users.len() == 0 {
            return None;
        }
        let joined = crate::text::join_strings(&changed_users, ", ");
        let mut message = "**".to_owned();
        message.append(sender_displayname);
        message.append("** updated Matrix power levels for bridged users: ");
        message.append(joined.as_str());
        Some((mapping.slack_channel_id, message))
    }

    /// A member joining or leaving a channel mirrors as a ghost invite or
    /// kick in the mapped room, unless join/leave notifications are off.
    pub fn handle_slack_member_change(&self, slack_channel_id: &str, joined: bool) -> (r: Option<
        String,
    >)
        requires
            self.wf(),
        ensures
            match r {
                Some(room_id) => !self.spec_config().bridge.disable_join_leave_notifications
                    && exists|k: int|
                    0 <= k < self.spec_store().rooms().len() && (
                    #[trigger] self.spec_store().rooms()[k]).slack_channel_id@
                        == slack_channel_id@ && room_id@
                        == self.spec_store().rooms()[k].matrix_room_id@,
                None => self.spec_config().bridge.disable_join_leave_notifications
                    || !has_room_for_channel(self.spec_store().rooms(), slack_channel_id@),
            },
    {
        let _ = joined;
        let mapping = match self.store.get_room_by_slack_channel(slack_channel_id) {
            Some(m) => m,
            None => {
                return None;
            },
        };
        if self.config.bridge.disable_join_leave_notifications {
            return None;
        }
        proof {
            assert(self.spec_store().rooms().contains(mapping));
        }
        Some(mapping.matrix_room_id)
    }

    /// A channel-marked (read receipt) event calls for a registered ghost
    /// only in a mapped channel with read receipts on.
    pub fn handle_slack_channel_marked(&self, slack_channel_id: &str) -> (r: bool)
        requires
            self.wf(),
        ensures
            r == (has_room_for_channel(self.spec_store().rooms(), slack_channel_id@)
                && !self.spec_config().bridge.disable_read_receipts),
    {
        let mapped = self.store.get_room_by_slack_channel(slack_channel_id);
        let is_mapped = mapped.is_some();
        proof {
            match &mapped {
                Some(m) => {
                    let rooms = self.spec_store().rooms();
                    let k = choose|k: int| 0 <= k < rooms.len() && rooms[k] == *m;
                    assert((#[trigger] rooms[k]).slack_channel_id@ == slack_channel_id@);
                },
                None => {
                },
            }
        }
        is_mapped && !self.config.bridge.disable_read_receipts
    }

    /// A channel rename or topic change: the mapped room's name follows the
    /// configured pattern and the stored channel name is refreshed; the
    /// topic follows as-is. The caller hands in what the room currently
    /// shows so unchanged values are not re-sent.
    pub fn handle_slack_channel_update(
        &mut self,
        slack_channel_id: &str,
        new_name: &str,
        new_topic: Option<&str>,
        current_room_name: Option<&str>,
        current_room_topic: Option<&str>,
        now_ms: i64,
    ) -> (r: Option<ChannelUpdatePlan>)
        requires
            old(self).wf(),
        ensures
            final(self).wf(),
            final(self).spec_config() == old(self).spec_config(),
            final(self).spec_presence() == old(self).spec_presence(),
            final(self).spec_provisioning() == old(self).spec_provisioning(),
            final(self).spec_queue() == old(self).spec_queue(),
            final(self).spec_store().messages() == old(self).spec_store().messages(),
            final(self).spec_store().users() == old(self).spec_store().users(),
            (r is Some) == has_room_for_channel(old(self).spec_store().rooms(), slack_channel_id@),
            r is None ==> final(self).spec_store().rooms() == old(self).spec_store().rooms(),
            match r {
                Some(plan) => ({
                    &&& exists|k: int|
                        {
                            &&& 0 <= k < old(self).spec_store().rooms().len()
                            &&& (#[trigger] old(self).spec_store().rooms()[k]).slack_channel_id@
                                == slack_channel_id@
                            &&& plan.matrix_room_id@ == old(
                                self,
                            ).spec_store().rooms()[k].matrix_room_id@
                            &&& (plan.set_room_name matches Some(n) ==> n@
                                == crate::formatting::spec_apply_pattern(
                                old(self).spec_config().channel.name_pattern@,
                                seq![
                                    ("guild"@, old(self).spec_store().rooms()[k].slack_team_id@),
                                    ("name"@, "#"@ + new_name@),
                                ],
                            ))
                            &&& (plan.set_room_name is None ==> (
                            current_room_name matches Some(cur) && cur@
                                == crate::formatting::spec_apply_pattern(
                                old(self).spec_config().channel.name_pattern@,
                                seq![
                                    ("guild"@, old(self).spec_store().rooms()[k].slack_team_id@),
                                    ("name"@, "#"@ + new_name@),
                                ],
                            )))
                        }
                    &&& (match (plan.set_room_topic, new_topic) {
                        (Some(t), Some(new_value)) => t@ == new_value@,
                        (None, _) => true,
                        (Some(_), None) => false,
                    })
                    &&& final(self).spec_store().rooms().len() == old(
                        self,
                    ).spec_store().rooms().len()
                }),
                None => true,
            },
    {
        let mapping = match self.store.get_room_by_slack_channel(slack_channel_id) {
            Some(m) => m,
            None => {
                return None;
            },
        };
        proof {
            let rooms = self.spec_store().rooms();
            let k = choose|k: int| 0 <= k < rooms.len() && rooms[k] == mapping;
            assert((#[trigger] rooms[k]).slack_channel_id@ == slack_channel_id@);
        }

        let mut hashed_name = "#".to_owned();
        hashed_name.append(new_name);
        let vars: [(&str, &str); 2] = [
            ("guild", mapping.slack_team_id.as_str()),
            ("name", hashed_name.as_str()),
        ];
        let formatted_name = crate::formatting::apply_pattern_string(
            self.config.channel.name_pattern.as_str(),
            &vars,
        );
        proof {
            assert(vars@.map_values(|p: (&str, &str)| (p.0@, p.1@)) =~= seq![
                ("guild"@, mapping.slack_team_id@),
                ("name"@, "#"@ + new_name@),
            ]);
            let rooms = old(self).spec_store().rooms();
            let k = choose|k: int| 0 <= k < rooms.len() && rooms[k] == mapping;
            assert((#[trigger] rooms[k]).slack_channel_id@ == slack_channel_id@
                && rooms[k].matrix_room_id@ == mapping.matrix_room_id@ && rooms[k].slack_team_id@
                == mapping.slack_team_id@);
        }

        let name_changed: bool = match current_room_name {
            Some(cur) => !crate::text::str_eq(cur, formatted_name.as_str()),
            None => true,
        };
        let set_name: Option<String> = if name_changed {
            let mut updated = crate::store::clone_room(&mapping);
            updated.slack_channel_name = new_name.to_owned();
            updated.updated_at = now_ms;
            proof {
                assert(old(self).spec_store().rooms().contains(mapping));
                crate::store::lemma_wf_exports(old(self).spec_store());
                let rooms = old(self).spec_store().rooms();
                let km = choose|km: int| 0 <= km < rooms.len() && rooms[km] == mapping;
                assert forall|k: int|
                    0 <= k < rooms.len() && rooms[k].id == updated.id implies rooms[k].matrix_room_id@
                    == updated.matrix_room_id@ && rooms[k].slack_channel_id@
                    == updated.slack_channel_id@ by {
                    if k < km {
                        assert(rooms[k].id != rooms[km].id);
                    } else if km < k {
                        assert(rooms[km].id != rooms[k].id);
                    }
                }
            }
            let _ = self.store.update_room_mapping(&updated);
            Some(formatted_name)
        } else {
            None
        };

        let set_topic: Option<String> = match (new_topic, current_room_topic) {
            (Some(t), Some(cur)) => {
                if crate::text::str_eq(t, cur) {
                    None
                } else {
                    Some(t.to_owned())
                }
            },
            (Some(t), None) => Some(t.to_owned()),
            _ => None,
        };

        Some(
            ChannelUpdatePlan {
                matrix_room_id: mapping.matrix_room_id,
                set_room_name: set_name,
                set_room_topic: set_topic,
            },
        )
    }

    /// A deleted channel unbridges its room: the mapping leaves the store
    /// and cache and the caller applies the delete-time courtesies.
    pub fn handle_slack_channel_delete(&mut self, slack_channel_id: &str) -> (r: Option<
        ChannelDeletePlan,
    >)
        requires
            old(self).wf(),
        ensures
            final(self).wf(),
            final(self).spec_config() == old(self).spec_config(),
            final(self).spec_presence() == old(self).spec_presence(),
            final(self).spec_provisioning() == old(self).spec_provisioning(),
            final(self).spec_queue() == old(self).spec_queue(),
            final(self).spec_store().messages() == old(self).spec_store().messages(),
            final(self).spec_store().users() == old(self).spec_store().users(),
            (r is Some) == has_room_for_channel(old(self).spec_store().rooms(), slack_channel_id@),
            match r {
                Some(plan) => {
                    &&& !has_room_for_channel(final(self).spec_store().rooms(), slack_channel_id@)
                    &&& plan.prefix_room_name == old(
                        self,
                    ).spec_config().channel.delete_options.name_prefix
                    &&& plan.prefix_room_topic == old(
                        self,
                    ).spec_config().channel.delete_options.topic_prefix
                    &&& exists|k: int|
                        {
                            &&& 0 <= k < old(self).spec_store().rooms().len()
                            &&& (#[trigger] old(self).spec_store().rooms()[k]).slack_channel_id@
                                == slack_channel_id@
                            &&& plan.matrix_room_id@ == old(
                                self,
                            ).spec_store().rooms()[k].matrix_room_id@
                            &&& final(self).spec_store().rooms() == old(
                                self,
                            ).spec_store().rooms().remove(k)
                        }
                },
                None => final(self).spec_store().rooms() == old(self).spec_store().rooms(),
            },
    {
        let mapping = match self.store.get_room_by_slack_channel(slack_channel_id) {
            Some(m) => m,
            None => {
                return None;
            },
        };
        proof {
            let rooms = self.spec_store().rooms();
            let k = choose|k: int| 0 <= k < rooms.len() && rooms[k] == mapping;
            assert((#[trigger] rooms[k]).slack_channel_id@ == slack_channel_id@);
        }
        let reply = self.handle_slack_unbridge(slack_channel_id);
        proof {
            crate::store::lemma_wf_exports(old(self).spec_store());
            let rooms = old(self).spec_store().rooms();
            let k = choose|k: int|
                {
                    &&& 0 <= k < rooms.len()
                    &&& (#[trigger] rooms[k]).slack_channel_id@ == slack_channel_id@
                    &&& self.spec_store().rooms() == rooms.remove(k)
                    &&& !cache_has_key(
                        self.spec_room_cache().entries(),
                        rooms[k].matrix_room_id@,
                    )
                };
            assert(rooms.contains(mapping));
            let km = choose|km: int| 0 <= km < rooms.len() && rooms[km] == mapping;
            if km < k {
                assert(rooms[km].slack_channel_id@ != rooms[k].slack_channel_id@);
            } else if k < km {
                assert(rooms[k].slack_channel_id@ != rooms[km].slack_channel_id@);
            }
            assert(km == k);
            assert(rooms[k].matrix_room_id@ == mapping.matrix_room_id@);
        }
        let delete_options = &self.config.channel.delete_options;
        Some(
            ChannelDeletePlan {
                matrix_room_id: mapping.matrix_room_id,
                prefix_room_name: delete_options.name_prefix.clone(),
                prefix_room_topic: delete_options.topic_prefix.clone(),
            },
        )
    }

    /// A deleted team unbridges every room mapped to it, one channel at a
    /// time: one delete plan per mapped room of the team, no room of the team
    /// remains, and every other team's rooms survive untouched.
    pub fn handle_slack_guild_delete(&mut self, slack_team_id: &str) -> (r: Vec<ChannelDeletePlan>)
        requires
            old(self).wf(),
        ensures
            final(self).wf(),
            final(self).spec_config() == old(self).spec_config(),
            final(self).spec_presence() == old(self).spec_presence(),
            final(self).spec_provisioning() == old(self).spec_provisioning(),
            final(self).spec_queue() == old(self).spec_queue(),
            final(self).spec_store().messages() == old(self).spec_store().messages(),
            final(self).spec_store().users() == old(self).spec_store().users(),
            r@.len() == old(self).spec_store().rooms().filter(
                crate::store::same_team(slack_team_id@),
            ).len(),
            forall|k: int|
                0 <= k < final(self).spec_store().rooms().len() ==> (#[trigger] final(self).spec_store().rooms()[k]).slack_team_id@ != slack_team_id@,
            forall|j: int|
                0 <= j < old(self).spec_store().rooms().len() && (#[trigger] old(
                    self,
                ).spec_store().rooms()[j]).slack_team_id@ != slack_team_id@ ==> final(self).spec_store().rooms().contains(old(self).spec_store().rooms()[j]),
    {
        let ghost old_rooms = self.spec_store().rooms();
        let ghost team_pred = crate::store::same_team(slack_team_id@);
        let guild_rooms = self.store.get_rooms_by_guild(slack_team_id);
        proof {
            crate::store::lemma_wf_exports(old(self).spec_store());
            crate::seq_lemmas::lemma_filter_preserves_pairwise(
                old_rooms,
                team_pred,
                |a: RoomMapping, b: RoomMapping| a.slack_channel_id@ != b.slack_channel_id@,
            );
            assert forall|j: int|
                0 <= j < guild_rooms@.len() implies has_room_for_channel(
                self.spec_store().rooms(),
                (#[trigger] guild_rooms@[j]).slack_channel_id@,
            ) by {
                crate::seq_lemmas::lemma_filter_elem_from(old_rooms, team_pred, j);
                let a = choose|a: int| 0 <= a < old_rooms.len() && old_rooms[a] == guild_rooms@[j];
                assert(old_rooms[a].slack_channel_id@ == guild_rooms@[j].slack_channel_id@);
            }
        }
        let mut plans: Vec<ChannelDeletePlan> = Vec::new();
        let mut i: usize = 0;
        while i < guild_rooms.len()
            invariant
                self.wf(),
                self.spec_config() == old(self).spec_config(),
                self.spec_presence() == old(self).spec_presence(),
                self.spec_provisioning() == old(self).spec_provisioning(),
                self.spec_queue() == old(self).spec_queue(),
                self.spec_store().messages() == old(self).spec_store().messages(),
                self.spec_store().users() == old(self).spec_store().users(),
                i <= guild_rooms@.len(),
                old_rooms == old(self).spec_store().rooms(),
                crate::store::rooms_wf(old_rooms),
                guild_rooms@ == old_rooms.filter(crate::store::same_team(slack_team_id@)),
                plans@.len() == i,
                forall|a: int, b: int|
                    0 <= a < b < guild_rooms@.len() ==> guild_rooms@[a].slack_channel_id@
                        != guild_rooms@[b].slack_channel_id@,
                forall|j: int|
                    i <= j < guild_rooms@.len() ==> has_room_for_channel(
                        self.spec_store().rooms(),
                        (#[trigger] guild_rooms@[j]).slack_channel_id@,
                    ),
                forall|j: int|
                    0 <= j < i ==> !has_room_for_channel(
                        self.spec_store().rooms(),
                        (#[trigger] guild_rooms@[j]).slack_channel_id@,
                    ),
                forall|k: int|
                    0 <= k < self.spec_store().rooms().len() ==> old_rooms.contains(
                        #[trigger] self.spec_store().rooms()[k],
                    ),
                forall|j: int|
                    0 <= j < old_rooms.len() && (#[trigger] old_rooms[j]).slack_team_id@
                        != slack_team_id@ ==> self.spec_store().rooms().contains(old_rooms[j]),
            decreases guild_rooms@.len() - i,
        {
            let ghost pre = self.spec_store().rooms();
            let plan = self.handle_slack_channel_delete(guild_rooms[i].slack_channel_id.as_str());
            let plan = match plan {
                Some(p) => p,
                None => {
                    proof {
                        assert(false);
                    }
                    return plans;
                },
            };
            plans.push(plan);
            proof {
                let ch = guild_rooms@[i as int].slack_channel_id@;
                let k = choose|k: int|
                    {
                        &&& 0 <= k < pre.len()
                        &&& (#[trigger] pre[k]).slack_channel_id@ == ch
                        &&& self.spec_store().rooms() == pre.remove(k)
                    };
                let cur = self.spec_store().rooms();
                assert forall|j: int|
                    i + 1 <= j < guild_rooms@.len() implies has_room_for_channel(
                    cur,
                    (#[trigger] guild_rooms@[j]).slack_channel_id@,
                ) by {
                    let chj = guild_rooms@[j].slack_channel_id@;
                    let a = choose|a: int| 0 <= a < pre.len() && (#[trigger] pre[a]).slack_channel_id@ == chj;
                    assert(chj != ch);
                    assert(a != k);
                    let a2: int = if a < k {
                        a
                    } else {
                        a - 1
                    };
                    assert(cur[a2] == pre[a]);
                }
                assert forall|j: int|
                    0 <= j < i + 1 implies !has_room_for_channel(
                    cur,
                    (#[trigger] guild_rooms@[j]).slack_channel_id@,
                ) by {
                    let chj = guild_rooms@[j].slack_channel_id@;
                    if has_room_for_channel(cur, chj) {
                        let a = choose|a: int|
                            0 <= a < cur.len() && (#[trigger] cur[a]).slack_channel_id@ == chj;
                        let a0: int = if a < k {
                            a
                        } else {
                            a + 1
                        };
                        assert(cur[a] == pre[a0]);
                        if j < i {
                            assert(has_room_for_channel(pre, chj));
                            assert(false);
                        } else {
                            assert(!has_room_for_channel(cur, ch));
                            assert(false);
                        }
                    }
                }
                assert forall|k2: int|
                    0 <= k2 < cur.len() implies old_rooms.contains(#[trigger] cur[k2]) by {
                    let k0: int = if k2 < k {
                        k2
                    } else {
                        k2 + 1
                    };
                    assert(cur[k2] == pre[k0]);
                }
                assert forall|j: int|
                    0 <= j < old_rooms.len() && (#[trigger] old_rooms[j]).slack_team_id@
                        != slack_team_id@ implies cur.contains(old_rooms[j]) by {
                    assert(pre.contains(old_rooms[j]));
                    let b = choose|b: int| 0 <= b < pre.len() && (#[trigger] pre[b]) == old_rooms[j];
                    if b == k {
                        crate::seq_lemmas::lemma_filter_elem_from(
                            old_rooms,
                            crate::store::same_team(slack_team_id@),
                            i as int,
                        );
                        let gi = choose|gi: int|
                            0 <= gi < old_rooms.len() && (#[trigger] old_rooms[gi])
                                == guild_rooms@[i as int];
                        assert(old_rooms[gi].slack_channel_id@ == ch);
                        assert(old_rooms[j].slack_channel_id@ == ch);
                        if gi < j {
                            assert(old_rooms[gi].slack_channel_id@
                                != old_rooms[j].slack_channel_id@);
                        } else if j < gi {
                            assert(old_rooms[j].slack_channel_id@
                                != old_rooms[gi].slack_channel_id@);
                        }
                        assert(gi == j);
                        assert(old_rooms[j].slack_team_id@ == slack_team_id@);
                        assert(false);
                    } else {
                        let b2: int = if b < k {
                            b
                        } else {
                            b - 1
                        };
                        assert(cur[b2] == pre[b]);
                    }
                }
            }
            i = i + 1;
        }
        proof {
            let cur = self.spec_store().rooms();
            assert forall|k: int|
                0 <= k < cur.len() implies (#[trigger] cur[k]).slack_team_id@ != slack_team_id@ by {
                if cur[k].slack_team_id@ == slack_team_id@ {
                    assert(old_rooms.contains(cur[k]));
                    let a = choose|a: int| 0 <= a < old_rooms.len() && (#[trigger] old_rooms[a]) == cur[k];
                    old_rooms.lemma_filter_contains(crate::store::same_team(slack_team_id@), a);
                    assert(guild_rooms@.contains(cur[k]));
                    let j = choose|j: int|
                        0 <= j < guild_rooms@.len() && (#[trigger] guild_rooms@[j]) == cur[k];
                    assert(!has_room_for_channel(cur, guild_rooms@[j].slack_channel_id@));
                    assert(cur[k].slack_channel_id@ == guild_rooms@[j].slack_channel_id@);
                    assert(false);
                }
            }
        }
        plans
    }

    /// A remote profile change refreshes the stored ghost identity; an
    /// unmapped user is ignored.
    pub fn handle_slack_user_update(
        &mut self,
        slack_user_id: &str,
        new_username: &str,
        new_avatar_url: Option<&str>,
        now_ms: i64,
    ) -> (r: bool)
        requires
            old(self).wf(),
        ensures
            final(self).wf(),
            final(self).spec_config() == old(self).spec_config(),
            final(self).spec_presence() == old(self).spec_presence(),
            final(self).spec_provisioning() == old(self).spec_provisioning(),
            final(self).spec_queue() == old(self).spec_queue(),
            final(self).spec_store().rooms() == old(self).spec_store().rooms(),
            final(self).spec_store().messages() == old(self).spec_store().messages(),
            r == has_user_for_slack(old(self).spec_store().users(), slack_user_id@),
            !r ==> final(self).spec_store().users() == old(self).spec_store().users(),
            r ==> final(self).spec_store().users().len() == old(self).spec_store().users().len()
                && exists|k: int|
                {
                    &&& 0 <= k < old(self).spec_store().users().len()
                    &&& (#[trigger] old(self).spec_store().users()[k]).slack_user_id@
                        == slack_user_id@
                    &&& final(self).spec_store().users()[k].slack_user_id@ == slack_user_id@
                    &&& final(self).spec_store().users()[k].slack_username@ == new_username@
                    &&& (match (final(self).spec_store().users()[k].slack_avatar, new_avatar_url) {
                        (Some(a), Some(u)) => a@ == u@,
                        (None, None) => true,
                        _ => false,
                    })
                    &&& final(self).spec_store().users()[k].updated_at == now_ms
                    &&& forall|j: int|
                        0 <= j < old(self).spec_store().users().len() && j != k ==> final(self).spec_store().users()[j] == old(self).spec_store().users()[j]
                },
    {
        let mapping = match self.store.get_user_by_slack_id(slack_user_id) {
            Some(m) => m,
            None => {
                return false;
            },
        };
        proof {
            let users = self.spec_store().users();
            let k = choose|k: int| 0 <= k < users.len() && users[k] == mapping;
            assert((#[trigger] users[k]).slack_user_id@ == slack_user_id@);
        }
        let mut updated = crate::store::clone_user(&mapping);
        updated.slack_username = new_username.to_owned();
        updated.slack_avatar = match new_avatar_url {
            Some(u) => Some(u.to_owned()),
            None => None,
        };
        updated.updated_at = now_ms;
        proof {
            assert(old(self).spec_store().users().contains(mapping));
            crate::store::lemma_wf_exports(old(self).spec_store());
            let users = old(self).spec_store().users();
            let km = choose|km: int| 0 <= km < users.len() && users[km] == mapping;
            assert forall|k: int|
                0 <= k < users.len() && users[k].id == updated.id implies users[k].slack_user_id@
                == updated.slack_user_id@ by {
                if k < km {
                    assert(users[k].id != users[km].id);
                } else if km < k {
                    assert(users[km].id != users[k].id);
                }
            }
        }
        let _ = self.store.update_user_mapping(&updated);
        true
    }

    /// A guild member joined or left: the ghost id plus the rooms of the
    /// guild, empty when the guild has none (the caller then skips).
    pub fn handle_slack_guild_membership(&self, slack_team_id: &str, slack_user_id: &str) -> (r: (
        String,
        Vec<String>,
    ))
        requires
            self.wf(),
        ensures
            r.0@ == "@_slack_"@ + slack_user_id@ + ":"@ + self.spec_config().bridge.domain@,
            r.1@.len() == self.spec_store().rooms().filter(
                crate::store::same_team(slack_team_id@),
            ).len(),
            forall|i: int|
                0 <= i < r.1@.len() ==> (#[trigger] r.1@[i])@ == self.spec_store().rooms().filter(
                    crate::store::same_team(slack_team_id@),
                )[i].matrix_room_id@,
    {
        let ghost_id = crate::matrix::ghost_user_id(
            slack_user_id,
            self.config.bridge.domain.as_str(),
        );
        let guild_rooms = self.store.get_rooms_by_guild(slack_team_id);
        let mut rooms: Vec<String> = Vec::new();
        let mut i: usize = 0;
        while i < guild_rooms.len()
            invariant
                i <= guild_rooms@.len(),
                rooms@.len() == i,
                forall|j: int|
                    0 <= j < i ==> (#[trigger] rooms@[j])@ == guild_rooms@[j].matrix_room_id@,
            decreases guild_rooms@.len() - i,
        {
            rooms.push(guild_rooms[i].matrix_room_id.clone());
            i = i + 1;
        }
        (ghost_id, rooms)
    }


    /// Dispatches a resolved Matrix-side command: a reply goes back as a
    /// notice, an unbridge runs against the store, and a bridge request asks
    /// the caller to look the channel up and start the provisioning flow.
    pub fn handle_matrix_command_outcome(
        &mut self,
        outcome: MatrixCommandOutcome,
        matrix_room_id: &str,
    ) -> (r: MatrixCommandActions)
        requires
            old(self).wf(),
        ensures
            final(self).wf(),
            final(self).spec_config() == old(self).spec_config(),
            final(self).spec_store().messages() == old(self).spec_store().messages(),
            final(self).spec_store().users() == old(self).spec_store().users(),
            outcome is Ignored ==> r is NoAction && *final(self) == *old(self),
            outcome matches MatrixCommandOutcome::Reply(m) ==> (r matches
                MatrixCommandActions::SendNotice(reply) && reply@ == m@ && *final(self) == *old(
                self,
            )),
            outcome matches MatrixCommandOutcome::BridgeRequested { guild_id: g, channel_id: c }
                ==> (r matches MatrixCommandActions::StartBridgeRequest { guild_id, channel_id }
                && guild_id@ == g@ && channel_id@ == c@ && *final(self) == *old(self)),
            outcome == MatrixCommandOutcome::UnbridgeRequested ==> (r matches
                MatrixCommandActions::UnbridgeReply { reply, actions } && {
                &&& (!has_room_for_matrix(old(self).spec_store().rooms(), matrix_room_id@)
                    ==> reply@ == "This room is not bridged."@ && final(self).spec_store().rooms()
                        == old(self).spec_store().rooms())
                &&& (has_room_for_matrix(old(self).spec_store().rooms(), matrix_room_id@)
                    ==> reply@ == "This room has been unbridged"@ && !has_room_for_matrix(
                    final(self).spec_store().rooms(),
                    matrix_room_id@,
                ) && final(self).spec_store().rooms().len() == old(
                    self,
                ).spec_store().rooms().len() - 1)
            }),
    {
        match outcome {
            MatrixCommandOutcome::Ignored => MatrixCommandActions::NoAction,
            MatrixCommandOutcome::Reply(reply) => MatrixCommandActions::SendNotice(reply),
            MatrixCommandOutcome::BridgeRequested { guild_id, channel_id } => {
                MatrixCommandActions::StartBridgeRequest { guild_id, channel_id }
            },
            MatrixCommandOutcome::UnbridgeRequested => {
                let (reply, actions) = self.unbridge_matrix_room(matrix_room_id);
                MatrixCommandActions::UnbridgeReply { reply, actions }
            },
        }
    }

    /// Dispatches a resolved Slack-side command: replies go back to the
    /// channel, approvals and denials resolve the pending provisioning
    /// request, an unbridge runs against the store, a moderation request
    /// becomes the fan-out plan for the caller to execute and tally, and a
    /// bridge request asks the caller to create the room first.
    pub fn handle_slack_command_outcome(
        &mut self,
        outcome: SlackCommandOutcome,
        ctx: &SlackMessageContext,
        team_id: &str,
        fallback_room_id: &str,
    ) -> (r: SlackCommandActions)
        requires
            old(self).wf(),
        ensures
            final(self).wf(),
            final(self).spec_config() == old(self).spec_config(),
            final(self).spec_store().messages() == old(self).spec_store().messages(),
            final(self).spec_store().users() == old(self).spec_store().users(),
            final(self).spec_presence() == old(self).spec_presence(),
            final(self).spec_queue() == old(self).spec_queue(),
            outcome is Ignored ==> r is NoAction && *final(self) == *old(self),
            outcome matches SlackCommandOutcome::Reply(m) ==> (r matches
                SlackCommandActions::SendReply(reply) && reply@ == m@ && *final(self) == *old(
                self,
            )),
            outcome == SlackCommandOutcome::ApproveRequested || outcome
                == SlackCommandOutcome::DenyRequested ==> (r matches
                SlackCommandActions::SendReply(reply) && {
                &&& !crate::provisioning::pending_has(
                    final(self).spec_provisioning().pending(),
                    ctx.channel_id@,
                )
                &&& final(self).spec_store() == old(self).spec_store()
                &&& (crate::provisioning::pending_has(
                    old(self).spec_provisioning().pending(),
                    ctx.channel_id@,
                ) && outcome == SlackCommandOutcome::ApproveRequested ==> reply@
                    == "Thanks for your response! The matrix bridge has been approved."@)
                &&& (crate::provisioning::pending_has(
                    old(self).spec_provisioning().pending(),
                    ctx.channel_id@,
                ) && outcome == SlackCommandOutcome::DenyRequested ==> reply@
                    == "Thanks for your response! The matrix bridge has been declined."@)
                &&& (!crate::provisioning::pending_has(
                    old(self).spec_provisioning().pending(),
                    ctx.channel_id@,
                ) ==> reply@
                    == "Thanks for your response, however it has arrived after the deadline - sorry!"@)
            }),
            outcome matches SlackCommandOutcome::ModerationRequested { action, matrix_user } ==> (
            r matches SlackCommandActions::RunModeration(plan) && {
                &&& plan.action == action
                &&& plan.matrix_user@ == matrix_user@
                &&& plan.rooms@.len() > 0
                &&& (forall|i: int, j: int|
                    0 <= i < j < plan.rooms@.len() ==> plan.rooms@[i]@ != plan.rooms@[j]@)
                &&& plan.reason@ == "Slack moderation request by "@ + ctx.sender_id@
                    + " from channel "@ + ctx.channel_id@
                &&& plan.notice@ == "Slack moderation request: "@
                    + crate::slack_commands::spec_action_keyword(action) + " "@ + matrix_user@
                    + " (requested by "@ + ctx.sender_id@ + ")"@
                &&& *final(self) == *old(self)
            }),
            outcome == SlackCommandOutcome::UnbridgeRequested ==> (r matches
                SlackCommandActions::SendReply(reply) && {
                &&& (!has_room_for_channel(old(self).spec_store().rooms(), ctx.channel_id@)
                    ==> reply@ == "This channel is not bridged to a plumbed matrix room"@
                        && final(self).spec_store().rooms() == old(self).spec_store().rooms())
                &&& (has_room_for_channel(old(self).spec_store().rooms(), ctx.channel_id@)
                    ==> reply@ == "This channel has been unbridged"@ && !has_room_for_channel(
                    final(self).spec_store().rooms(),
                    ctx.channel_id@,
                ) && final(self).spec_store().rooms().len() == old(
                    self,
                ).spec_store().rooms().len() - 1)
            }),
            outcome matches SlackCommandOutcome::BridgeRequested { guild_id: g, channel_id: c }
                ==> (r matches SlackCommandActions::CreateRoomAndBridge { guild_id, channel_id }
                && guild_id@ == g@ && channel_id@ == c@ && *final(self) == *old(self)),
    {
        match outcome {
            SlackCommandOutcome::Ignored => SlackCommandActions::NoAction,
            SlackCommandOutcome::Reply(reply) => SlackCommandActions::SendReply(reply),
            SlackCommandOutcome::ApproveRequested => {
                let (_, reply) = self.mark_provisioning_approval(ctx.channel_id.as_str(), true);
                SlackCommandActions::SendReply(reply)
            },
            SlackCommandOutcome::DenyRequested => {
                let (_, reply) = self.mark_provisioning_approval(ctx.channel_id.as_str(), false);
                SlackCommandActions::SendReply(reply)
            },
            SlackCommandOutcome::ModerationRequested { action, matrix_user } => {
                let plan = self.moderation_plan(
                    action,
                    matrix_user.as_str(),
                    ctx.sender_id.as_str(),
                    ctx.channel_id.as_str(),
                    team_id,
                    fallback_room_id,
                );
                SlackCommandActions::RunModeration(plan)
            },
            SlackCommandOutcome::UnbridgeRequested => {
                let reply = self.handle_slack_unbridge(ctx.channel_id.as_str());
                SlackCommandActions::SendReply(reply)
            },
            SlackCommandOutcome::BridgeRequested { guild_id, channel_id } => {
                SlackCommandActions::CreateRoomAndBridge { guild_id, channel_id }
            },
        }
    }

}


/// What a committed bridge hands back: the user reply, and the room rename
/// to apply when the bridge was created.
#[derive(Debug, Clone, PartialEq, Eq)]
pub struct BridgeRoomResult {
    pub reply: String,
    pub room_name_update: Option<(String, String)>,
}

/// The courtesies applied to a room when its bridge is removed.
#[derive(Debug, Clone, PartialEq, Eq)]
pub struct UnbridgeActions {
    pub prefix_room_name: Option<String>,
    pub prefix_room_topic: Option<String>,
    pub remove_alias: Option<String>,
}

/// How a self-service bridge request starts.
#[derive(Debug, Clone, PartialEq, Eq)]
pub enum BridgeRequestStart {
    /// Refused before any prompt went out; the reply says why.
    Rejected(String),
    /// A pending entry was registered; the caller posts the notice in the
    /// requesting room and delivers the prompt to the remote channel, then
    /// waits on the decision signal.
    AskPermission { channel_id: String, prompt: String, notice: String },
}

/// Whether the configured room ceiling is reached: enabled (non-negative)
/// and the store already holds that many rooms.
pub open spec fn spec_at_room_ceiling(core: BridgeCore) -> bool {
    core.spec_config().limits.room_count >= 0 && core.spec_store().rooms().len()
        >= core.spec_config().limits.room_count
}

/// The configured room-ceiling refusal.
pub open spec fn spec_room_limit_message(limit: int) -> Seq<char> {
    "This bridge has reached its room limit of "@ + crate::text::spec_u64_str(limit)
        + ". Unbridge another room to allow for new connections."@
}


/// One moderation fan-out: the action, its target, the rooms it applies to,
/// the per-room reason and the per-room success notice.
#[derive(Debug, Clone, PartialEq, Eq)]
pub struct ModerationPlan {
    pub action: crate::slack_commands::ModerationAction,
    pub matrix_user: String,
    pub rooms: Vec<String>,
    pub reason: String,
    pub notice: String,
}

/// What a Matrix member event resolves to.
#[derive(Debug, Clone, PartialEq, Eq)]
pub enum MatrixMemberDisposition {
    /// The bridge's bot was invited: join the room.
    JoinInvitedRoom { room_id: String },
    /// A ghost acted: echo, dropped silently.
    DroppedGhostEcho,
    /// Nothing the bridge mirrors.
    Ignored,
    /// A kick or ban of a bridge ghost in a mapped room: deny the user's
    /// channel permissions, post the notice, and after a kick restore the
    /// permissions once the configured delay elapsed.
    Moderation {
        slack_channel_id: String,
        slack_user_id: String,
        notice: String,
        schedule_restore_ms: Option<u64>,
    },
}

/// The lockout applied when encryption turns on in a bridged room.
#[derive(Debug, Clone, PartialEq, Eq)]
pub struct EncryptionLockout {
    pub room_id: String,
    pub notice: String,
}

/// The room-side updates mirroring a channel rename or topic change.
#[derive(Debug, Clone, PartialEq, Eq)]
pub struct ChannelUpdatePlan {
    pub matrix_room_id: String,
    pub set_room_name: Option<String>,
    pub set_room_topic: Option<String>,
}

/// The room-side courtesies applied when a mapped channel is deleted.
#[derive(Debug, Clone, PartialEq, Eq)]
pub struct ChannelDeletePlan {
    pub matrix_room_id: String,
    pub prefix_room_name: Option<String>,
    pub prefix_room_topic: Option<String>,
}

/// How many entries of a result list are successes.
pub open spec fn count_true(s: Seq<bool>) -> int
    decreases s.len(),
{
    if s.len() == 0 {
        0
    } else {
        count_true(s.drop_last()) + if s.last() {
            1int
        } else {
            0int
        }
    }
}

proof fn lemma_count_true_bound(s: Seq<bool>)
    ensures
        0 <= count_true(s) <= s.len(),
    decreases s.len(),
{
    if s.len() > 0 {
        lemma_count_true_bound(s.drop_last());
    }
}

/// The user-facing tally of a moderation fan-out: the success count always,
/// the failure count only when something failed.
pub open spec fn spec_moderation_reply(
    action: crate::slack_commands::ModerationAction,
    matrix_user: Seq<char>,
    success: int,
    failed: int,
) -> Seq<char> {
    let action_word: Seq<char> = match action {
        crate::slack_commands::ModerationAction::Kick => "Kicked"@,
        crate::slack_commands::ModerationAction::Ban => "Banned"@,
        crate::slack_commands::ModerationAction::Unban => "Unbanned"@,
    };
    if failed == 0 {
        action_word + " "@ + matrix_user + " in "@ + crate::text::spec_u64_str(success)
            + " bridged room(s)."@
    } else {
        action_word + " "@ + matrix_user + " in "@ + crate::text::spec_u64_str(success)
            + " room(s), failed in "@ + crate::text::spec_u64_str(failed) + " room(s)."@
    }
}


/// What the caller performs after a Matrix-side command resolved.
#[derive(Debug, Clone, PartialEq, Eq)]
pub enum MatrixCommandActions {
    NoAction,
    /// Post this notice in the requesting room.
    SendNotice(String),
    /// Look the channel up on the remote side and start the provisioning
    /// flow with `begin_bridge_request`.
    StartBridgeRequest { guild_id: String, channel_id: String },
    /// The room was unbridged; post the reply and apply the courtesies.
    UnbridgeReply { reply: String, actions: UnbridgeActions },
}

/// What the caller performs after a Slack-side command resolved.
#[derive(Debug, Clone, PartialEq, Eq)]
pub enum SlackCommandActions {
    NoAction,
    /// Post this reply in the requesting channel.
    SendReply(String),
    /// Apply the moderation plan room by room, then tally the results with
    /// `moderation_reply` and post the plan's notice where it succeeded.
    RunModeration(ModerationPlan),
    /// Create the Matrix room, then commit the bridge with
    /// `bridge_matrix_room`.
    CreateRoomAndBridge { guild_id: String, channel_id: String },
}

} // verus!
