//! The in-memory mapping store: room, user, message and emoji mappings with
//! the uniqueness invariants the bridge relies on. Persistent backends are
//! collaborators that mirror this record set; the router's logic is verified
//! against this store.

use vstd::prelude::*;

use crate::models::EmojiMapping;
use crate::models::MessageMapping;
use crate::models::RoomMapping;
use crate::models::UserMapping;
use crate::models::DatabaseError;
use crate::text::string_eq_str;

verus! {

/// A field-exact copy of a room mapping.
pub fn clone_room(m: &RoomMapping) -> (r: RoomMapping)
    ensures
        r == *m,
{
    RoomMapping {
        id: m.id,
        matrix_room_id: m.matrix_room_id.clone(),
        slack_channel_id: m.slack_channel_id.clone(),
        slack_channel_name: m.slack_channel_name.clone(),
        slack_team_id: m.slack_team_id.clone(),
        created_at: m.created_at,
        updated_at: m.updated_at,
    }
}

/// A field-exact copy of a user mapping.
pub fn clone_user(m: &UserMapping) -> (r: UserMapping)
    ensures
        r == *m,
{
    UserMapping {
        id: m.id,
        matrix_user_id: m.matrix_user_id.clone(),
        slack_user_id: m.slack_user_id.clone(),
        slack_username: m.slack_username.clone(),
        slack_discriminator: m.slack_discriminator.clone(),
        slack_avatar: m.slack_avatar.clone(),
        created_at: m.created_at,
        updated_at: m.updated_at,
    }
}

/// A field-exact copy of a message mapping.
pub fn clone_message(m: &MessageMapping) -> (r: MessageMapping)
    ensures
        r == *m,
{
    MessageMapping {
        id: m.id,
        slack_message_id: m.slack_message_id.clone(),
        matrix_room_id: m.matrix_room_id.clone(),
        matrix_event_id: m.matrix_event_id.clone(),
        created_at: m.created_at,
        updated_at: m.updated_at,
    }
}

/// A field-exact copy of an emoji mapping.
pub fn clone_emoji(m: &EmojiMapping) -> (r: EmojiMapping)
    ensures
        r == *m,
{
    EmojiMapping {
        id: m.id,
        slack_emoji_id: m.slack_emoji_id.clone(),
        emoji_name: m.emoji_name.clone(),
        animated: m.animated,
        mxc_url: m.mxc_url.clone(),
        created_at: m.created_at,
        updated_at: m.updated_at,
    }
}

/// Room mappings are unique per Matrix room and per Slack channel.
pub open spec fn rooms_wf(rooms: Seq<RoomMapping>) -> bool {
    forall|i: int, j: int|
        0 <= i < j < rooms.len() ==> rooms[i].matrix_room_id@ != rooms[j].matrix_room_id@
            && rooms[i].slack_channel_id@ != rooms[j].slack_channel_id@ && rooms[i].id
            != rooms[j].id
}

/// User mappings are unique per Slack user.
pub open spec fn users_wf(users: Seq<UserMapping>) -> bool {
    forall|i: int, j: int|
        0 <= i < j < users.len() ==> users[i].slack_user_id@ != users[j].slack_user_id@ && users[i].id
            != users[j].id
}

/// Message mappings are unique per Slack message.
pub open spec fn messages_wf(messages: Seq<MessageMapping>) -> bool {
    forall|i: int, j: int|
        0 <= i < j < messages.len() ==> messages[i].slack_message_id@
            != messages[j].slack_message_id@ && messages[i].id != messages[j].id
}

/// Emoji mappings are unique per Slack emoji.
pub open spec fn emojis_wf(emojis: Seq<EmojiMapping>) -> bool {
    forall|i: int, j: int|
        0 <= i < j < emojis.len() ==> emojis[i].slack_emoji_id@ != emojis[j].slack_emoji_id@
            && emojis[i].id != emojis[j].id
}

/// The membership test for one team, as a function value for `filter`.
pub open spec fn same_team(team_id: Seq<char>) -> spec_fn(RoomMapping) -> bool {
    |m: RoomMapping| m.slack_team_id@ == team_id
}

pub open spec fn has_room_for_matrix(rooms: Seq<RoomMapping>, room_id: Seq<char>) -> bool {
    exists|k: int| 0 <= k < rooms.len() && rooms[k].matrix_room_id@ == room_id
}

pub open spec fn has_room_for_channel(rooms: Seq<RoomMapping>, channel_id: Seq<char>) -> bool {
    exists|k: int| 0 <= k < rooms.len() && rooms[k].slack_channel_id@ == channel_id
}

pub open spec fn has_message_for_slack(messages: Seq<MessageMapping>, slack_id: Seq<char>) -> bool {
    exists|k: int| 0 <= k < messages.len() && messages[k].slack_message_id@ == slack_id
}

pub open spec fn has_message_for_matrix(messages: Seq<MessageMapping>, event_id: Seq<char>) -> bool {
    exists|k: int| 0 <= k < messages.len() && messages[k].matrix_event_id@ == event_id
}

pub open spec fn has_user_for_slack(users: Seq<UserMapping>, user_id: Seq<char>) -> bool {
    exists|k: int| 0 <= k < users.len() && users[k].slack_user_id@ == user_id
}

pub open spec fn has_emoji_for_slack(emojis: Seq<EmojiMapping>, emoji_id: Seq<char>) -> bool {
    exists|k: int| 0 <= k < emojis.len() && emojis[k].slack_emoji_id@ == emoji_id
}

/// A well-formed store satisfies each collection's uniqueness invariant.
pub proof fn lemma_wf_exports(s: MappingStore)
    requires
        s.wf(),
    ensures
        rooms_wf(s.rooms()),
        users_wf(s.users()),
        messages_wf(s.messages()),
        emojis_wf(s.emojis()),
{
}

/// Removing the record that carries a mapped room's id removes that room:
/// the index holding the id is the room's own index, and no record with
/// either of the room's keys remains afterwards.
pub proof fn lemma_room_removal(rooms: Seq<RoomMapping>, m: RoomMapping, k: int)
    requires
        rooms_wf(rooms),
        rooms.contains(m),
        0 <= k < rooms.len(),
        rooms[k].id == m.id,
    ensures
        rooms[k] == m,
        forall|j: int|
            0 <= j < rooms.remove(k).len() ==> (#[trigger] rooms.remove(k)[j]).matrix_room_id@
                != m.matrix_room_id@ && rooms.remove(k)[j].slack_channel_id@
                != m.slack_channel_id@,
{
    let km = choose|km: int| 0 <= km < rooms.len() && rooms[km] == m;
    if km < k {
        assert(rooms[km].id != rooms[k].id);
    } else if k < km {
        assert(rooms[k].id != rooms[km].id);
    }
    assert(km == k);
    assert forall|j: int|
        0 <= j < rooms.remove(k).len() implies (#[trigger] rooms.remove(k)[j]).matrix_room_id@
        != m.matrix_room_id@ && rooms.remove(k)[j].slack_channel_id@ != m.slack_channel_id@ by {
        let j0: int = if j < k {
            j
        } else {
            j + 1
        };
        assert(rooms.remove(k)[j] == rooms[j0]);
        if j0 < k {
            assert(rooms[j0].matrix_room_id@ != rooms[k].matrix_room_id@
                && rooms[j0].slack_channel_id@ != rooms[k].slack_channel_id@);
        } else {
            assert(rooms[k].matrix_room_id@ != rooms[j0].matrix_room_id@
                && rooms[k].slack_channel_id@ != rooms[j0].slack_channel_id@);
        }
    }
}

/// The store stops assigning ids at this ceiling, far below the integer
/// limit, so an id increment can never overflow.
pub const ID_CEIL: i64 = 0x4000_0000_0000_0000;

/// The mapping store. All lookups are by the unique keys above.
pub struct MappingStore {
    rooms: Vec<RoomMapping>,
    users: Vec<UserMapping>,
    messages: Vec<MessageMapping>,
    emojis: Vec<EmojiMapping>,
    next_id: i64,
}

impl MappingStore {
    pub closed spec fn rooms(&self) -> Seq<RoomMapping> {
        self.rooms@
    }

    pub closed spec fn users(&self) -> Seq<UserMapping> {
        self.users@
    }

    pub closed spec fn messages(&self) -> Seq<MessageMapping> {
        self.messages@
    }

    pub closed spec fn emojis(&self) -> Seq<EmojiMapping> {
        self.emojis@
    }

    /// The uniqueness invariants of the record set, plus a fresh-id bound so
    /// created records never collide.
    pub closed spec fn wf(&self) -> bool {
        &&& rooms_wf(self.rooms@)
        &&& users_wf(self.users@)
        &&& messages_wf(self.messages@)
        &&& emojis_wf(self.emojis@)
        &&& 0 < self.next_id <= ID_CEIL
        &&& forall|k: int| 0 <= k < self.rooms@.len() ==> self.rooms@[k].id < self.next_id
        &&& forall|k: int| 0 <= k < self.users@.len() ==> self.users@[k].id < self.next_id
        &&& forall|k: int| 0 <= k < self.messages@.len() ==> self.messages@[k].id < self.next_id
        &&& forall|k: int| 0 <= k < self.emojis@.len() ==> self.emojis@[k].id < self.next_id
    }

    /// Whether the store can still assign a fresh record id.
    pub closed spec fn ids_available(&self) -> bool {
        self.next_id < ID_CEIL
    }

    pub fn new() -> (r: MappingStore)
        ensures
            r.wf(),
            r.ids_available(),
            r.rooms().len() == 0,
            r.users().len() == 0,
            r.messages().len() == 0,
            r.emojis().len() == 0,
    {
        MappingStore {
            rooms: Vec::new(),
            users: Vec::new(),
            messages: Vec::new(),
            emojis: Vec::new(),
            next_id: 1,
        }
    }

    fn find_room_by_matrix(&self, room_id: &str) -> (r: Option<usize>)
        ensures
            match r {
                Some(k) => k < self.rooms().len() && self.rooms()[k as int].matrix_room_id@
                    == room_id@,
                None => !has_room_for_matrix(self.rooms(), room_id@),
            },
    {
        let mut i: usize = 0;
        while i < self.rooms.len()
            invariant
                i <= self.rooms@.len(),
                forall|k: int| 0 <= k < i ==> self.rooms@[k].matrix_room_id@ != room_id@,
            decreases self.rooms@.len() - i,
        {
            if string_eq_str(&self.rooms[i].matrix_room_id, room_id) {
                return Some(i);
            }
            i = i + 1;
        }
        None
    }

    fn find_room_by_channel(&self, channel_id: &str) -> (r: Option<usize>)
        ensures
            match r {
                Some(k) => k < self.rooms().len() && self.rooms()[k as int].slack_channel_id@
                    == channel_id@,
                None => !has_room_for_channel(self.rooms(), channel_id@),
            },
    {
        let mut i: usize = 0;
        while i < self.rooms.len()
            invariant
                i <= self.rooms@.len(),
                forall|k: int| 0 <= k < i ==> self.rooms@[k].slack_channel_id@ != channel_id@,
            decreases self.rooms@.len() - i,
        {
            if string_eq_str(&self.rooms[i].slack_channel_id, channel_id) {
                return Some(i);
            }
            i = i + 1;
        }
        None
    }

    /// The room bridged to a Matrix room, if one is.
    pub fn get_room_by_matrix_room(&self, room_id: &str) -> (r: Option<RoomMapping>)
        ensures
            match r {
                Some(m) => self.rooms().contains(m) && m.matrix_room_id@ == room_id@,
                None => !has_room_for_matrix(self.rooms(), room_id@),
            },
    {
        match self.find_room_by_matrix(room_id) {
            Some(k) => {
                let m = clone_room(&self.rooms[k]);
                proof {
                    assert(self.rooms()[k as int] == m);
                }
                Some(m)
            },
            None => None,
        }
    }

    /// The room bridged to a Slack channel, if one is.
    pub fn get_room_by_slack_channel(&self, channel_id: &str) -> (r: Option<RoomMapping>)
        ensures
            match r {
                Some(m) => self.rooms().contains(m) && m.slack_channel_id@ == channel_id@,
                None => !has_room_for_channel(self.rooms(), channel_id@),
            },
    {
        match self.find_room_by_channel(channel_id) {
            Some(k) => {
                let m = clone_room(&self.rooms[k]);
                proof {
                    assert(self.rooms()[k as int] == m);
                }
                Some(m)
            },
            None => None,
        }
    }

    /// Every room mapped to a team, in store order.
    pub fn get_rooms_by_guild(&self, team_id: &str) -> (r: Vec<RoomMapping>)
        ensures
            r@ == self.rooms().filter(same_team(team_id@)),
    {
        let ghost pred = same_team(team_id@);
        let mut out: Vec<RoomMapping> = Vec::new();
        let mut i: usize = 0;
        proof {
            reveal(Seq::filter);
            assert(self.rooms@.subrange(0, 0).filter(pred) =~= Seq::<RoomMapping>::empty());
        }
        while i < self.rooms.len()
            invariant
                i <= self.rooms@.len(),
                out@ == self.rooms@.subrange(0, i as int).filter(same_team(team_id@)),
            decreases self.rooms@.len() - i,
        {
            let ghost prefix = self.rooms@.subrange(0, i as int);
            let ghost next_prefix = self.rooms@.subrange(0, i as int + 1);
            if string_eq_str(&self.rooms[i].slack_team_id, team_id) {
                out.push(clone_room(&self.rooms[i]));
            }
            proof {
                reveal(Seq::filter);
                assert(next_prefix.drop_last() =~= prefix);
                assert(next_prefix.last() == self.rooms@[i as int]);
            }
            i = i + 1;
        }
        proof {
            assert(self.rooms@.subrange(0, self.rooms@.len() as int) =~= self.rooms@);
        }
        out
    }

    /// Every room mapping, in store order.
    pub fn list_room_mappings(&self) -> (r: Vec<RoomMapping>)
        ensures
            r@ == self.rooms(),
    {
        let mut out: Vec<RoomMapping> = Vec::new();
        let mut i: usize = 0;
        while i < self.rooms.len()
            invariant
                i <= self.rooms@.len(),
                out@ =~= self.rooms@.subrange(0, i as int),
            decreases self.rooms@.len() - i,
        {
            out.push(clone_room(&self.rooms[i]));
            proof {
                assert(out@ =~= self.rooms@.subrange(0, i as int + 1));
            }
            i = i + 1;
        }
        proof {
            assert(self.rooms@.subrange(0, self.rooms@.len() as int) =~= self.rooms@);
        }
        out
    }

    pub fn count_rooms(&self) -> (r: usize)
        ensures
            r == self.rooms().len(),
    {
        self.rooms.len()
    }

    /// Records a new room bridge. The id field of the argument is ignored;
    /// the store assigns a fresh one. Fails exactly when either side of the
    /// bridge is already mapped.
    pub fn create_room_mapping(&mut self, mapping: &RoomMapping) -> (r: Result<(), DatabaseError>)
        requires
            old(self).wf(),
        ensures
            final(self).wf(),
            final(self).users() == old(self).users(),
            final(self).messages() == old(self).messages(),
            final(self).emojis() == old(self).emojis(),
            match r {
                Ok(()) => {
                    &&& !has_room_for_matrix(old(self).rooms(), mapping.matrix_room_id@)
                    &&& !has_room_for_channel(old(self).rooms(), mapping.slack_channel_id@)
                    &&& final(self).rooms().len() == old(self).rooms().len() + 1
                    &&& final(self).rooms().subrange(0, old(self).rooms().len() as int) == old(
                        self,
                    ).rooms()
                    &&& final(self).rooms().last().matrix_room_id@ == mapping.matrix_room_id@
                    &&& final(self).rooms().last().slack_channel_id@ == mapping.slack_channel_id@
                    &&& final(self).rooms().last().slack_channel_name@ == mapping.slack_channel_name@
                    &&& final(self).rooms().last().slack_team_id@ == mapping.slack_team_id@
                    &&& final(self).rooms().last().created_at == mapping.created_at
                    &&& final(self).rooms().last().updated_at == mapping.updated_at
                },
                Err(_) => {
                    &&& final(self).rooms() == old(self).rooms()
                    &&& (has_room_for_matrix(old(self).rooms(), mapping.matrix_room_id@)
                        || has_room_for_channel(old(self).rooms(), mapping.slack_channel_id@)
                        || !old(self).ids_available())
                },
            },
    {
        if self.find_room_by_matrix(mapping.matrix_room_id.as_str()).is_some() {
            return Err(DatabaseError::Query("room already mapped".to_owned()));
        }
        if self.find_room_by_channel(mapping.slack_channel_id.as_str()).is_some() {
            return Err(DatabaseError::Query("channel already mapped".to_owned()));
        }
        if self.next_id >= ID_CEIL {
            return Err(DatabaseError::Query("id space exhausted".to_owned()));
        }
        let mut record = clone_room(mapping);
        record.id = self.next_id;
        self.next_id = self.next_id + 1;
        let ghost prev = self.rooms@;
        self.rooms.push(record);
        proof {
            assert(self.rooms@.subrange(0, prev.len() as int) =~= prev);
        }
        Ok(())
    }

    fn find_room_by_id(&self, id: i64) -> (r: Option<usize>)
        ensures
            match r {
                Some(k) => k < self.rooms().len() && self.rooms()[k as int].id == id,
                None => forall|k: int| 0 <= k < self.rooms().len() ==> self.rooms()[k].id != id,
            },
    {
        let mut i: usize = 0;
        while i < self.rooms.len()
            invariant
                i <= self.rooms@.len(),
                forall|k: int| 0 <= k < i ==> self.rooms@[k].id != id,
            decreases self.rooms@.len() - i,
        {
            if self.rooms[i].id == id {
                return Some(i);
            }
            i = i + 1;
        }
        None
    }

    /// Replaces the stored room record that carries the argument's id. The
    /// bridge only renames a room this way, so the two key fields must stay
    /// what the store holds for that id.
    pub fn update_room_mapping(&mut self, mapping: &RoomMapping) -> (r: Result<(), DatabaseError>)
        requires
            old(self).wf(),
            forall|k: int|
                0 <= k < old(self).rooms().len() && old(self).rooms()[k].id == mapping.id ==> old(
                    self,
                ).rooms()[k].matrix_room_id@ == mapping.matrix_room_id@ && old(self).rooms()[k].slack_channel_id@
                    == mapping.slack_channel_id@,
        ensures
            final(self).wf(),
            final(self).users() == old(self).users(),
            final(self).messages() == old(self).messages(),
            final(self).emojis() == old(self).emojis(),
            match r {
                Ok(()) => exists|k: int|
                    0 <= k < old(self).rooms().len() && old(self).rooms()[k].id == mapping.id
                        && final(self).rooms() == old(self).rooms().update(k, *mapping),
                Err(_) => final(self).rooms() == old(self).rooms() && (forall|k: int|
                    0 <= k < old(self).rooms().len() ==> old(self).rooms()[k].id != mapping.id),
            },
    {
        match self.find_room_by_id(mapping.id) {
            Some(k) => {
                let record = clone_room(mapping);
                self.rooms.set(k, record);
                proof {
                    let updated = old(self).rooms().update(k as int, *mapping);
                    assert(self.rooms@ =~= updated);
                    assert forall|i: int, j: int| 0 <= i < j < updated.len() implies updated[i].matrix_room_id@
                        != updated[j].matrix_room_id@ && updated[i].slack_channel_id@
                        != updated[j].slack_channel_id@ && updated[i].id != updated[j].id by {
                        assert(old(self).rooms()[i].matrix_room_id@ != old(
                            self,
                        ).rooms()[j].matrix_room_id@);
                    }
                }
                Ok(())
            },
            None => Err(DatabaseError::NotFound("room mapping".to_owned())),
        }
    }

    /// Removes the room record with the given id; removing an absent id
    /// reports it and changes nothing.
    pub fn delete_room_mapping(&mut self, id: i64) -> (r: Result<(), DatabaseError>)
        requires
            old(self).wf(),
        ensures
            final(self).wf(),
            final(self).users() == old(self).users(),
            final(self).messages() == old(self).messages(),
            final(self).emojis() == old(self).emojis(),
            match r {
                Ok(()) => exists|k: int|
                    0 <= k < old(self).rooms().len() && old(self).rooms()[k].id == id
                        && final(self).rooms() == old(self).rooms().remove(k),
                Err(_) => final(self).rooms() == old(self).rooms() && (forall|k: int|
                    0 <= k < old(self).rooms().len() ==> old(self).rooms()[k].id != id),
            },
    {
        match self.find_room_by_id(id) {
            Some(k) => {
                self.rooms.remove(k);
                proof {
                    let removed = old(self).rooms().remove(k as int);
                    assert(self.rooms@ =~= removed);
                    assert forall|i: int, j: int| 0 <= i < j < removed.len() implies removed[i].matrix_room_id@
                        != removed[j].matrix_room_id@ && removed[i].slack_channel_id@
                        != removed[j].slack_channel_id@ && removed[i].id != removed[j].id by {
                        let i0: int = if i < k { i } else { i + 1 };
                        let j0: int = if j < k { j } else { j + 1 };
                        assert(removed[i] == old(self).rooms()[i0]);
                        assert(removed[j] == old(self).rooms()[j0]);
                    }
                }
                Ok(())
            },
            None => Err(DatabaseError::NotFound("room mapping".to_owned())),
        }
    }

    fn find_message_by_slack(&self, slack_message_id: &str) -> (r: Option<usize>)
        ensures
            match r {
                Some(k) => k < self.messages().len() && self.messages()[k as int].slack_message_id@
                    == slack_message_id@,
                None => !has_message_for_slack(self.messages(), slack_message_id@),
            },
    {
        let mut i: usize = 0;
        while i < self.messages.len()
            invariant
                i <= self.messages@.len(),
                forall|k: int| 0 <= k < i ==> self.messages@[k].slack_message_id@
                    != slack_message_id@,
            decreases self.messages@.len() - i,
        {
            if string_eq_str(&self.messages[i].slack_message_id, slack_message_id) {
                return Some(i);
            }
            i = i + 1;
        }
        None
    }

    /// The message mapping for a Slack message id, if one is recorded.
    pub fn get_by_slack_message_id(&self, slack_message_id: &str) -> (r: Option<MessageMapping>)
        ensures
            match r {
                Some(m) => self.messages().contains(m) && m.slack_message_id@
                    == slack_message_id@,
                None => !has_message_for_slack(self.messages(), slack_message_id@),
            },
    {
        match self.find_message_by_slack(slack_message_id) {
            Some(k) => {
                let m = clone_message(&self.messages[k]);
                proof {
                    assert(self.messages()[k as int] == m);
                }
                Some(m)
            },
            None => None,
        }
    }

    /// The message mapping for a Matrix event id, if one is recorded. When
    /// several Slack messages point at one event, the earliest record wins.
    pub fn get_by_matrix_event_id(&self, event_id: &str) -> (r: Option<MessageMapping>)
        ensures
            match r {
                Some(m) => self.messages().contains(m) && m.matrix_event_id@ == event_id@,
                None => !has_message_for_matrix(self.messages(), event_id@),
            },
    {
        let mut i: usize = 0;
        while i < self.messages.len()
            invariant
                i <= self.messages@.len(),
                forall|k: int| 0 <= k < i ==> self.messages@[k].matrix_event_id@ != event_id@,
            decreases self.messages@.len() - i,
        {
            if string_eq_str(&self.messages[i].matrix_event_id, event_id) {
                let m = clone_message(&self.messages[i]);
                proof {
                    assert(self.messages()[i as int] == m);
                }
                return Some(m);
            }
            i = i + 1;
        }
        None
    }

    /// Upserts the mapping for a cross-posted message: a known Slack message
    /// id has its Matrix ids refreshed in place, a new one is appended. The
    /// record set never gains a duplicate.
    pub fn upsert_message_mapping(&mut self, mapping: &MessageMapping) -> (r: Result<
        (),
        DatabaseError,
    >)
        requires
            old(self).wf(),
        ensures
            final(self).wf(),
            final(self).rooms() == old(self).rooms(),
            final(self).users() == old(self).users(),
            final(self).emojis() == old(self).emojis(),
            has_message_for_slack(old(self).messages(), mapping.slack_message_id@) ==> {
                &&& r is Ok
                &&& final(self).messages().len() == old(self).messages().len()
                &&& exists|k: int|
                    0 <= k < old(self).messages().len() && old(
                        self,
                    ).messages()[k].slack_message_id@ == mapping.slack_message_id@
                        && final(self).messages() == old(self).messages().update(
                        k,
                        (MessageMapping {
                            id: old(self).messages()[k].id,
                            created_at: old(self).messages()[k].created_at,
                            ..*mapping
                        }),
                    )
            },
            !has_message_for_slack(old(self).messages(), mapping.slack_message_id@) ==> match r {
                Ok(()) => {
                    &&& final(self).messages().len() == old(self).messages().len() + 1
                    &&& final(self).messages().subrange(0, old(self).messages().len() as int)
                        == old(self).messages()
                    &&& final(self).messages().last().slack_message_id@
                        == mapping.slack_message_id@
                    &&& final(self).messages().last().matrix_room_id@ == mapping.matrix_room_id@
                    &&& final(self).messages().last().matrix_event_id@ == mapping.matrix_event_id@
                    &&& final(self).messages().last().created_at == mapping.created_at
                    &&& final(self).messages().last().updated_at == mapping.updated_at
                },
                Err(_) => final(self).messages() == old(self).messages() && !old(
                    self,
                ).ids_available(),
            },
    {
        match self.find_message_by_slack(mapping.slack_message_id.as_str()) {
            Some(k) => {
                let mut record = clone_message(mapping);
                record.id = self.messages[k].id;
                record.created_at = self.messages[k].created_at;
                self.messages.set(k, record);
                proof {
                    let updated = self.messages@;
                    assert forall|i: int, j: int| 0 <= i < j < updated.len() implies updated[i].slack_message_id@
                        != updated[j].slack_message_id@ && updated[i].id != updated[j].id by {
                        assert(old(self).messages()[i].slack_message_id@ != old(
                            self,
                        ).messages()[j].slack_message_id@);
                    }
                }
                Ok(())
            },
            None => {
                if self.next_id >= ID_CEIL {
                    return Err(DatabaseError::Query("id space exhausted".to_owned()));
                }
                let mut record = clone_message(mapping);
                record.id = self.next_id;
                self.next_id = self.next_id + 1;
                let ghost prev = self.messages@;
                self.messages.push(record);
                proof {
                    assert(self.messages@.subrange(0, prev.len() as int) =~= prev);
                }
                Ok(())
            },
        }
    }

    /// Removes the mapping for a Slack message id, if one is recorded.
    pub fn delete_by_slack_message_id(&mut self, slack_message_id: &str) -> (r: bool)
        requires
            old(self).wf(),
        ensures
            final(self).wf(),
            final(self).rooms() == old(self).rooms(),
            final(self).users() == old(self).users(),
            final(self).emojis() == old(self).emojis(),
            r ==> exists|k: int|
                0 <= k < old(self).messages().len() && old(self).messages()[k].slack_message_id@
                    == slack_message_id@ && final(self).messages() == old(self).messages().remove(k),
            !r ==> final(self).messages() == old(self).messages() && !has_message_for_slack(
                old(self).messages(),
                slack_message_id@,
            ),
    {
        match self.find_message_by_slack(slack_message_id) {
            Some(k) => {
                self.messages.remove(k);
                proof {
                    let removed = old(self).messages().remove(k as int);
                    assert(self.messages@ =~= removed);
                    assert forall|i: int, j: int| 0 <= i < j < removed.len() implies removed[i].slack_message_id@
                        != removed[j].slack_message_id@ && removed[i].id != removed[j].id by {
                        let i0: int = if i < k { i } else { i + 1 };
                        let j0: int = if j < k { j } else { j + 1 };
                        assert(removed[i] == old(self).messages()[i0]);
                        assert(removed[j] == old(self).messages()[j0]);
                    }
                }
                true
            },
            None => false,
        }
    }

    fn find_user_by_slack(&self, slack_user_id: &str) -> (r: Option<usize>)
        ensures
            match r {
                Some(k) => k < self.users().len() && self.users()[k as int].slack_user_id@
                    == slack_user_id@,
                None => !has_user_for_slack(self.users(), slack_user_id@),
            },
    {
        let mut i: usize = 0;
        while i < self.users.len()
            invariant
                i <= self.users@.len(),
                forall|k: int| 0 <= k < i ==> self.users@[k].slack_user_id@ != slack_user_id@,
            decreases self.users@.len() - i,
        {
            if string_eq_str(&self.users[i].slack_user_id, slack_user_id) {
                return Some(i);
            }
            i = i + 1;
        }
        None
    }

    /// The ghost-identity record for a Slack user, if one is recorded.
    pub fn get_user_by_slack_id(&self, slack_user_id: &str) -> (r: Option<UserMapping>)
        ensures
            match r {
                Some(m) => self.users().contains(m) && m.slack_user_id@ == slack_user_id@,
                None => !has_user_for_slack(self.users(), slack_user_id@),
            },
    {
        match self.find_user_by_slack(slack_user_id) {
            Some(k) => {
                let m = clone_user(&self.users[k]);
                proof {
                    assert(self.users()[k as int] == m);
                }
                Some(m)
            },
            None => None,
        }
    }

    /// Records a ghost identity for an unseen remote sender. Fails exactly
    /// when the Slack user already has one.
    pub fn create_user_mapping(&mut self, mapping: &UserMapping) -> (r: Result<(), DatabaseError>)
        requires
            old(self).wf(),
        ensures
            final(self).wf(),
            final(self).rooms() == old(self).rooms(),
            final(self).messages() == old(self).messages(),
            final(self).emojis() == old(self).emojis(),
            match r {
                Ok(()) => {
                    &&& !has_user_for_slack(old(self).users(), mapping.slack_user_id@)
                    &&& final(self).users().len() == old(self).users().len() + 1
                    &&& final(self).users().subrange(0, old(self).users().len() as int) == old(
                        self,
                    ).users()
                    &&& final(self).users().last().slack_user_id@ == mapping.slack_user_id@
                    &&& final(self).users().last().matrix_user_id@ == mapping.matrix_user_id@
                    &&& final(self).users().last().slack_username@ == mapping.slack_username@
                },
                Err(_) => final(self).users() == old(self).users() && (has_user_for_slack(
                    old(self).users(),
                    mapping.slack_user_id@,
                ) || !old(self).ids_available()),
            },
    {
        if self.find_user_by_slack(mapping.slack_user_id.as_str()).is_some() {
            return Err(DatabaseError::Query("user already mapped".to_owned()));
        }
        if self.next_id >= ID_CEIL {
            return Err(DatabaseError::Query("id space exhausted".to_owned()));
        }
        let mut record = clone_user(mapping);
        record.id = self.next_id;
        self.next_id = self.next_id + 1;
        let ghost prev = self.users@;
        self.users.push(record);
        proof {
            assert(self.users@.subrange(0, prev.len() as int) =~= prev);
        }
        Ok(())
    }

    /// Replaces the stored user record that carries the argument's id; the
    /// Slack user id is the record's key and must stay what the store holds.
    pub fn update_user_mapping(&mut self, mapping: &UserMapping) -> (r: Result<(), DatabaseError>)
        requires
            old(self).wf(),
            forall|k: int|
                0 <= k < old(self).users().len() && old(self).users()[k].id == mapping.id ==> old(
                    self,
                ).users()[k].slack_user_id@ == mapping.slack_user_id@,
        ensures
            final(self).wf(),
            final(self).rooms() == old(self).rooms(),
            final(self).messages() == old(self).messages(),
            final(self).emojis() == old(self).emojis(),
            match r {
                Ok(()) => exists|k: int|
                    0 <= k < old(self).users().len() && old(self).users()[k].id == mapping.id
                        && final(self).users() == old(self).users().update(k, *mapping),
                Err(_) => final(self).users() == old(self).users() && (forall|k: int|
                    0 <= k < old(self).users().len() ==> old(self).users()[k].id != mapping.id),
            },
    {
        match self.find_user_by_id(mapping.id) {
            Some(k) => {
                let record = clone_user(mapping);
                self.users.set(k, record);
                proof {
                    let updated = old(self).users().update(k as int, *mapping);
                    assert(self.users@ =~= updated);
                    assert forall|i: int, j: int| 0 <= i < j < updated.len() implies updated[i].slack_user_id@
                        != updated[j].slack_user_id@ && updated[i].id != updated[j].id by {
                        assert(old(self).users()[i].slack_user_id@ != old(
                            self,
                        ).users()[j].slack_user_id@);
                    }
                }
                Ok(())
            },
            None => Err(DatabaseError::NotFound("user mapping".to_owned())),
        }
    }

    fn find_user_by_id(&self, id: i64) -> (r: Option<usize>)
        ensures
            match r {
                Some(k) => k < self.users().len() && self.users()[k as int].id == id,
                None => forall|k: int| 0 <= k < self.users().len() ==> self.users()[k].id != id,
            },
    {
        let mut i: usize = 0;
        while i < self.users.len()
            invariant
                i <= self.users@.len(),
                forall|k: int| 0 <= k < i ==> self.users@[k].id != id,
            decreases self.users@.len() - i,
        {
            if self.users[i].id == id {
                return Some(i);
            }
            i = i + 1;
        }
        None
    }

    pub fn count_users(&self) -> (r: usize)
        ensures
            r == self.users().len(),
    {
        self.users.len()
    }

    pub fn count_messages(&self) -> (r: usize)
        ensures
            r == self.messages().len(),
    {
        self.messages.len()
    }

    fn find_emoji_by_slack(&self, slack_emoji_id: &str) -> (r: Option<usize>)
        ensures
            match r {
                Some(k) => k < self.emojis().len() && self.emojis()[k as int].slack_emoji_id@
                    == slack_emoji_id@,
                None => !has_emoji_for_slack(self.emojis(), slack_emoji_id@),
            },
    {
        let mut i: usize = 0;
        while i < self.emojis.len()
            invariant
                i <= self.emojis@.len(),
                forall|k: int| 0 <= k < i ==> self.emojis@[k].slack_emoji_id@ != slack_emoji_id@,
            decreases self.emojis@.len() - i,
        {
            if string_eq_str(&self.emojis[i].slack_emoji_id, slack_emoji_id) {
                return Some(i);
            }
            i = i + 1;
        }
        None
    }

    /// The cached upload for a custom emoji; absence means the caller must
    /// fetch and upload it.
    pub fn get_emoji_by_slack_id(&self, slack_emoji_id: &str) -> (r: Option<EmojiMapping>)
        ensures
            match r {
                Some(m) => self.emojis().contains(m) && m.slack_emoji_id@ == slack_emoji_id@,
                None => !has_emoji_for_slack(self.emojis(), slack_emoji_id@),
            },
    {
        match self.find_emoji_by_slack(slack_emoji_id) {
            Some(k) => {
                let m = clone_emoji(&self.emojis[k]);
                proof {
                    assert(self.emojis()[k as int] == m);
                }
                Some(m)
            },
            None => None,
        }
    }

    /// Records an uploaded emoji. Fails exactly when the emoji is cached
    /// already.
    pub fn create_emoji(&mut self, mapping: &EmojiMapping) -> (r: Result<(), DatabaseError>)
        requires
            old(self).wf(),
        ensures
            final(self).wf(),
            final(self).rooms() == old(self).rooms(),
            final(self).users() == old(self).users(),
            final(self).messages() == old(self).messages(),
            match r {
                Ok(()) => {
                    &&& final(self).emojis().len() == old(self).emojis().len() + 1
                    &&& final(self).emojis().subrange(0, old(self).emojis().len() as int) == old(
                        self,
                    ).emojis()
                    &&& final(self).emojis().last().slack_emoji_id@ == mapping.slack_emoji_id@
                    &&& final(self).emojis().last().mxc_url@ == mapping.mxc_url@
                },
                Err(_) => final(self).emojis() == old(self).emojis(),
            },
    {
        let existing = self.find_emoji_by_slack(mapping.slack_emoji_id.as_str());
        if existing.is_some() {
            return Err(DatabaseError::Query("emoji already cached".to_owned()));
        }
        if self.next_id >= ID_CEIL {
            return Err(DatabaseError::Query("id space exhausted".to_owned()));
        }
        let mut record = clone_emoji(mapping);
        record.id = self.next_id;
        self.next_id = self.next_id + 1;
        let ghost prev = self.emojis@;
        self.emojis.push(record);
        proof {
            assert(self.emojis@.subrange(0, prev.len() as int) =~= prev);
            assert(record.slack_emoji_id@ == mapping.slack_emoji_id@);
            assert forall|i: int, j: int| 0 <= i < j < self.emojis@.len() implies self.emojis@[i].slack_emoji_id@
                != self.emojis@[j].slack_emoji_id@ && self.emojis@[i].id != self.emojis@[j].id by {
                if j == self.emojis@.len() - 1 {
                    assert(self.emojis@[i] == prev[i]);
                    assert(prev[i].slack_emoji_id@ != mapping.slack_emoji_id@);
                    assert(self.emojis@[j] == record);
                } else {
                    assert(self.emojis@[i] == prev[i]);
                    assert(self.emojis@[j] == prev[j]);
                }
            }
        }
        Ok(())
    }
}

} // verus!
