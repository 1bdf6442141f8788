//! Rooms: members, game objects and the commands that change them.
use vstd::prelude::*;

use crate::commands::{DeleteGameObjectCommand, S2CCommand, S2CCommandOf};
use crate::debug::tracer::sessions::CommandTracerSessions;
use crate::protocol::ChannelType;
use crate::room::command::ServerCommandError;
use crate::room::field::{FieldValue, SpecFieldValue};
use crate::room::maps::{has_key, index_of, inserted, lookup, unique_keys};
use crate::room::member::{cleaner_entries, cleaners_new, User, CLEANERS_CAPACITY};
use crate::room::object::{GameObject, GameObjectModel, FIELD_CAPACITY};
use crate::room::objects::{
    lemma_objects_inserted, lemma_objects_shift_removed, object_entries, objects_contains, objects_get, objects_get_mut,
    objects_insert, objects_keys, objects_new, objects_shift_remove, objects_wf, GameObjects,
};
use crate::room::object::{S2CCommandWithFieldInfoOf, SpecS2CCommandWithFieldInfo};
use crate::room::maps::shift_removed;
use crate::room::sender::{
    channel_or_default, commands_view, creator_or_relay, log_view, members_after_send, pushed_front, same_sessions,
    MemberFilter,
};
use crate::room::permission::PermissionManager;
use crate::room::template::{object_from, GameObjectTemplate, UserTemplate, RoomTemplate};
use crate::types::{AccessGroups, FieldId, GameObjectId, GameObjectOwner, RoomId, RoomMemberId};

pub mod action;
pub mod command;
pub mod field;
pub mod maps;
pub mod member;
pub mod object;
pub mod objects;
pub mod permission;
pub mod sender;
pub mod template;

verus! {

broadcast use vstd::std_specs::vec::group_vec_axioms;

/// A room: its members, its game objects and the permissions on them.
#[derive(Debug)]
pub struct Room {
    pub id: RoomId,
    pub template_name: String,
    pub permission_manager: PermissionManager,
    pub members: Vec<User>,
    pub objects: GameObjects,
    /// Channel of the command being executed.
    pub current_channel: Option<ChannelType>,
    /// User whose command is being executed.
    pub current_member_id: Option<RoomMemberId>,
    pub member_id_generator: RoomMemberId,
    pub command_trace_session: CommandTracerSessions,
    /// Whether commands given to `send_to_members` are kept in `out_commands`;
    /// off in a new room, so that nothing is kept unless asked for.
    pub record_sent: bool,
    /// When `record_sent` is on, every command given to `send_to_members`,
    /// with the groups it was sent to, newest first, whoever received it.
    pub out_commands: std::collections::VecDeque<(AccessGroups, S2CCommand)>,
    pub object_id_generator: u32,
}

/// User identifiers are distinct and not above the last one given; the
/// values to restore of each member have distinct keys, within capacity.
pub open spec fn members_wf(members: Seq<User>, generator: RoomMemberId) -> bool {
    &&& forall|i: int, j: int| 0 <= i < j < members.len() ==> #[trigger] members[i].id != #[trigger] members[j].id
    &&& forall|i: int| 0 <= i < members.len() ==> #[trigger] members[i].id <= generator
    &&& forall|i: int|
        0 <= i < members.len() ==> unique_keys((#[trigger] members[i]).cleaners()) && members[i].cleaners().len()
            <= CLEANERS_CAPACITY
    &&& forall|i: int| 0 <= i < members.len() ==> templates_ok((#[trigger] members[i]).template.objects@)
}

/// The member has the identifier.
pub open spec fn has_member(members: Seq<User>, id: RoomMemberId) -> bool {
    exists|i: int| 0 <= i < members.len() && #[trigger] members[i].id == id
}

/// Position of the member with the identifier.
pub open spec fn member_index_of(members: Seq<User>, id: RoomMemberId) -> int {
    choose|i: int| 0 <= i < members.len() && #[trigger] members[i].id == id
}

/// With distinct identifiers, a member stands where its identifier is found.
pub proof fn lemma_member_index(members: Seq<User>, generator: RoomMemberId, i: int)
    requires
        members_wf(members, generator),
        0 <= i < members.len(),
    ensures
        has_member(members, members[i].id),
        member_index_of(members, members[i].id) == i,
{
    let id = members[i].id;
    assert(members[i].id == id);
    let k = member_index_of(members, id);
    if k < i {
        assert(members[k].id != members[i].id);
    } else if k > i {
        assert(members[i].id != members[k].id);
    }
}

/// The objects that templates describe, each owned by the room and inserted in turn.
pub open spec fn room_objects_from(ts: Seq<GameObjectTemplate>) -> Seq<(GameObjectId, GameObjectModel)>
    decreases ts.len(),
{
    if ts.len() == 0 {
        Seq::empty()
    } else {
        let id = GameObjectId { id: ts.last().id, owner: GameObjectOwner::Room };
        inserted(room_objects_from(ts.drop_last()), id, object_from(ts.last(), id))
    }
}

/// Templates that describe objects: no identifier 0, fields within capacity.
pub open spec fn templates_ok(ts: Seq<GameObjectTemplate>) -> bool {
    forall|i: int| 0 <= i < ts.len() ==> (#[trigger] ts[i]).id != 0 && ts[i].fields@.len() <= FIELD_CAPACITY
}

/// Whether templates describe objects: no identifier 0, fields within capacity.
pub fn templates_fit(ts: &Vec<GameObjectTemplate>) -> (r: bool)
    ensures
        r == templates_ok(ts@),
{
    let mut i: usize = 0;
    while i < ts.len()
        invariant
            i <= ts@.len(),
            forall|j: int| 0 <= j < i ==> (#[trigger] ts@[j]).id != 0 && ts@[j].fields@.len() <= FIELD_CAPACITY,
        decreases ts@.len() - i,
    {
        if ts[i].id == 0 || ts[i].fields.len() > FIELD_CAPACITY {
            return false;
        }
        i = i + 1;
    }
    true
}

/// The model of the fields of a template object, as a copy keeps it.
pub open spec fn object_template_view(t: GameObjectTemplate) -> (u32, u16, AccessGroups, Seq<(FieldId, SpecFieldValue)>) {
    (t.id, t.template, t.groups, t.fields@.map_values(|e: (FieldId, FieldValue)| (e.0, e.1@)))
}

/// Two member templates are the same but for where their bytes are.
pub open spec fn same_member_template(a: UserTemplate, b: UserTemplate) -> bool {
    &&& a.private_key == b.private_key
    &&& a.groups == b.groups
    &&& a.objects@.len() == b.objects@.len()
    &&& forall|i: int| 0 <= i < a.objects@.len() ==> object_template_view(#[trigger] a.objects@[i]) == object_template_view(b.objects@[i])
}

fn copy_object_template(t: &GameObjectTemplate) -> (r: GameObjectTemplate)
    ensures
        object_template_view(r) == object_template_view(*t),
{
    let mut fields: Vec<(FieldId, FieldValue)> = Vec::new();
    let mut i: usize = 0;
    while i < t.fields.len()
        invariant
            i <= t.fields@.len(),
            fields@.len() == i,
            forall|j: int| 0 <= j < i ==> (#[trigger] fields@[j]).0 == t.fields@[j].0 && fields@[j].1@ == t.fields@[j].1@,
        decreases t.fields@.len() - i,
    {
        let (k, v) = &t.fields[i];
        fields.push((*k, v.copy()));
        i = i + 1;
    }
    let r = GameObjectTemplate { id: t.id, template: t.template, groups: t.groups, fields };
    proof {
        assert(object_template_view(r).3 == object_template_view(*t).3);
    }
    r
}

/// A copy of a member template.
pub fn copy_member_template(t: &UserTemplate) -> (r: UserTemplate)
    ensures
        same_member_template(r, *t),
{
    let mut objects: Vec<GameObjectTemplate> = Vec::new();
    let mut i: usize = 0;
    while i < t.objects.len()
        invariant
            i <= t.objects@.len(),
            objects@.len() == i,
            forall|j: int| 0 <= j < i ==> object_template_view(#[trigger] objects@[j]) == object_template_view(t.objects@[j]),
        decreases t.objects@.len() - i,
    {
        objects.push(copy_object_template(&t.objects[i]));
        i = i + 1;
    }
    UserTemplate { private_key: t.private_key, groups: t.groups, objects }
}

/// The rooms agree on everything but their objects, members, sessions and
/// record of sent commands.
pub open spec fn same_settings(a: Room, b: Room) -> bool {
    &&& a.id == b.id
    &&& a.template_name == b.template_name
    &&& a.permission_manager == b.permission_manager
    &&& a.current_member_id == b.current_member_id
    &&& a.current_channel == b.current_channel
    &&& a.member_id_generator == b.member_id_generator
    &&& a.object_id_generator == b.object_id_generator
    &&& a.record_sent == b.record_sent
}

impl Room {
    pub open spec fn object_model(&self) -> Seq<(GameObjectId, GameObjectModel)> {
        object_entries(self.objects)
    }

    pub open spec fn wf(&self) -> bool {
        &&& objects_wf(self.object_model())
        &&& members_wf(self.members@, self.member_id_generator)
        &&& self.command_trace_session.wf()
    }

    /// A room with the objects and permissions of a template.
    pub fn new(id: RoomId, template: RoomTemplate) -> (r: Room)
        requires
            templates_ok(template.objects@),
        ensures
            r.wf(),
            r.id == id,
            r.template_name == template.name,
            r.permission_manager.permissions == template.permissions,
            r.object_model() == room_objects_from(template.objects@),
            r.members@.len() == 0,
            r.member_id_generator == 0,
            r.current_channel is None,
            r.current_member_id is None,
            r.command_trace_session.view().len() == 0,
            r.command_trace_session.session_id_generator == 0,
            r.out_commands@.len() == 0,
            !r.record_sent,
            r.object_id_generator == 0,
    {
        let RoomTemplate { name, objects, permissions } = template;
        let mut room = Room {
            id,
            template_name: name,
            permission_manager: PermissionManager::new(permissions),
            members: Vec::new(),
            objects: objects_new(),
            current_channel: None,
            current_member_id: None,
            member_id_generator: 0,
            command_trace_session: CommandTracerSessions::new(),
            record_sent: false,
            out_commands: std::collections::VecDeque::new(),
            object_id_generator: 0,
        };
        let mut i: usize = 0;
        while i < objects.len()
            invariant
                i <= objects@.len(),
                templates_ok(objects@),
                room.wf(),
                room.id == id,
                room.template_name == name,
                room.permission_manager.permissions == permissions,
                room.object_model() == room_objects_from(objects@.take(i as int)),
                room.members@.len() == 0,
                room.member_id_generator == 0,
                room.current_channel is None,
                room.current_member_id is None,
                room.command_trace_session.view().len() == 0,
                room.command_trace_session.session_id_generator == 0,
                room.out_commands@.len() == 0,
                !room.record_sent,
                room.object_id_generator == 0,
            decreases objects@.len() - i,
        {
            proof {
                assert(objects@.take(i + 1).drop_last() == objects@.take(i as int));
                assert(objects@.take(i + 1).last() == objects@[i as int]);
            }
            let object = objects[i].to_root_game_object();
            room.insert_object(object);
            i = i + 1;
        }
        proof {
            assert(objects@.take(objects@.len() as int) == objects@);
        }
        room
    }

    /// Add a member with the next identifier.
    pub fn register_user(&mut self, template: UserTemplate) -> (r: RoomMemberId)
        requires
            old(self).wf(),
            old(self).member_id_generator < u16::MAX,
            templates_ok(template.objects@),
        ensures
            final(self).wf(),
            r == old(self).member_id_generator + 1,
            final(self).member_id_generator == r,
            final(self).members@ == old(self).members@.push(final(self).members@.last()),
            final(self).members@.last().id == r,
            !final(self).members@.last().connected,
            !final(self).members@.last().attached,
            final(self).members@.last().template == template,
            final(self).members@.last().cleaners().len() == 0,
            final(self).members@.last().out_commands@.len() == 0,
            final(self).objects == old(self).objects,
            final(self).command_trace_session == old(self).command_trace_session,
            final(self).out_commands == old(self).out_commands,
            final(self).id == old(self).id,
            final(self).template_name == old(self).template_name,
            final(self).permission_manager == old(self).permission_manager,
            final(self).current_member_id == old(self).current_member_id,
            final(self).current_channel == old(self).current_channel,
            final(self).object_id_generator == old(self).object_id_generator,
    {
        self.member_id_generator = self.member_id_generator + 1;
        let id = self.member_id_generator;
        let member = User {
            id,
            connected: false,
            attached: false,
            template,
            compare_and_set_cleaners: cleaners_new(),
            out_commands: Vec::new(),
        };
        self.members.push(member);
        proof {
            assert(unique_keys(self.members@.last().cleaners()));
        }
        id
    }

    /// Position of the member with the identifier.
    pub fn member_index(&self, member_id: RoomMemberId) -> (r: Option<usize>)
        requires
            members_wf(self.members@, self.member_id_generator),
        ensures
            match r {
                Some(i) => i < self.members@.len() && self.members@[i as int].id == member_id && has_member(self.members@, member_id)
                    && member_index_of(self.members@, member_id) == i,
                None => !has_member(self.members@, member_id),
            },
    {
        let mut i: usize = 0;
        while i < self.members.len()
            invariant
                i <= self.members@.len(),
                members_wf(self.members@, self.member_id_generator),
                forall|j: int| 0 <= j < i ==> self.members@[j].id != member_id,
            decreases self.members@.len() - i,
        {
            if self.members[i].id == member_id {
                proof {
                    let k = member_index_of(self.members@, member_id);
                    if k < i {
                        assert(self.members@[k].id != self.members@[i as int].id);
                    } else if k > i {
                        assert(self.members@[i as int].id != self.members@[k].id);
                    }
                }
                return Some(i);
            }
            i = i + 1;
        }
        None
    }

    pub fn get_user(&self, user_id: RoomMemberId) -> (r: Option<&User>)
        requires
            self.wf(),
        ensures
            match r {
                Some(m) => has_member(self.members@, user_id) && *m == self.members@[member_index_of(self.members@, user_id)],
                None => !has_member(self.members@, user_id),
            },
    {
        match self.member_index(user_id) {
            Some(i) => Some(&self.members[i]),
            None => None,
        }
    }

    pub fn get_user_mut(&mut self, user_id: RoomMemberId) -> (r: Option<&mut User>)
        requires
            old(self).wf(),
        ensures
            r is Some <==> has_member(old(self).members@, user_id),
            r is None ==> *final(self) == *old(self),
            match r {
                Some(m) => *m == old(self).members@[member_index_of(old(self).members@, user_id)]
                    && final(self).members@ == old(self).members@.update(member_index_of(old(self).members@, user_id), *final(m))
                    && *final(self) == (Room { members: final(self).members, ..*old(self) }),
                None => true,
            },
    {
        match self.member_index(user_id) {
            Some(i) => Some(&mut self.members[i]),
            None => None,
        }
    }

    /// Insert an object under its identifier: an object with that identifier
    /// is replaced in its place, otherwise the object goes last.
    pub fn insert_object(&mut self, object: GameObject)
        requires
            old(self).wf(),
            object.wf(),
        ensures
            final(self).wf(),
            final(self).object_model() == inserted(old(self).object_model(), object.id, object@),
            same_settings(*final(self), *old(self)),
            final(self).members == old(self).members,
            final(self).command_trace_session == old(self).command_trace_session,
            final(self).out_commands == old(self).out_commands,
    {
        proof {
            lemma_objects_inserted(self.object_model(), object@);
        }
        let id = object.id;
        let _ = objects_insert(&mut self.objects, id, object);
    }

    pub fn contains_object(&self, object_id: &GameObjectId) -> (r: bool)
        ensures
            r == has_key(self.object_model(), *object_id),
    {
        objects_contains(&self.objects, object_id)
    }

    pub fn get_object(&self, object_id: &GameObjectId) -> (r: Result<&GameObject, ServerCommandError>)
        ensures
            match r {
                Ok(o) => lookup(self.object_model(), *object_id) == Some(o@),
                Err(e) => !has_key(self.object_model(), *object_id) && e == (ServerCommandError::GameObjectNotFound { object_id: *object_id }),
            },
    {
        match objects_get(&self.objects, object_id) {
            Some(o) => Ok(o),
            None => Err(ServerCommandError::GameObjectNotFound { object_id: *object_id }),
        }
    }

    /// Remove an object, and tell the members that can see it (all but the
    /// member whose command is being executed).
    pub fn delete_object(&mut self, object_id: &GameObjectId) -> (r: Result<GameObject, ServerCommandError>)
        requires
            old(self).wf(),
        ensures
            final(self).wf(),
            same_settings(*final(self), *old(self)),
            match r {
                Err(e) => {
                    &&& !has_key(old(self).object_model(), *object_id)
                    &&& e == (ServerCommandError::GameObjectNotFound { object_id: *object_id })
                    &&& final(self).object_model() == old(self).object_model()
                    &&& final(self).members == old(self).members
                    &&& final(self).out_commands == old(self).out_commands
                    &&& final(self).command_trace_session == old(self).command_trace_session
                },
                Ok(o) => {
                    &&& lookup(old(self).object_model(), *object_id) == Some(o@)
                    &&& final(self).object_model() == shift_removed(old(self).object_model(), *object_id)
                    &&& members_after_send(
                        old(self).members@,
                        final(self).members@,
                        o.access_groups,
                        o.template_id,
                        deletion_commands(*object_id),
                        delete_filter(old(self).current_member_id),
                        old(self).permission_manager.permissions.templates@,
                        channel_or_default(old(self).current_channel),
                        creator_or_relay(old(self).current_member_id),
                    )
                    &&& log_view(final(self).out_commands@) == pushed_front(
                        old(self).record_sent,
                        log_view(old(self).out_commands@),
                        o.access_groups,
                        deletion_commands(*object_id),
                    )
                    &&& same_sessions(final(self).command_trace_session.view(), old(self).command_trace_session.view())
                },
            },
    {
        proof {
            lemma_objects_shift_removed(self.object_model(), *object_id);
        }
        match objects_shift_remove(&mut self.objects, object_id) {
            None => Err(ServerCommandError::GameObjectNotFound { object_id: *object_id }),
            Some(object) => {
                let filter = match self.current_member_id {
                    Some(id) => MemberFilter::AllBut(id),
                    None => MemberFilter::All,
                };
                let mut commands: Vec<S2CCommandWithFieldInfoOf<Vec<u8>>> = Vec::new();
                commands.push(
                    S2CCommandWithFieldInfoOf {
                        field: None,
                        command: S2CCommandOf::Delete(DeleteGameObjectCommand { object_id: *object_id }),
                    },
                );
                proof {
                    assert(commands_view(commands@) == deletion_commands(*object_id));
                }
                self.send_to_members(object.access_groups, object.template_id, commands.as_slice(), filter);
                Ok(object)
            },
        }
    }
}

/// The command that tells a member an object was deleted.
pub open spec fn deletion_commands(object_id: GameObjectId) -> Seq<SpecS2CCommandWithFieldInfo> {
    seq![
        S2CCommandWithFieldInfoOf {
            field: None,
            command: S2CCommandOf::Delete(DeleteGameObjectCommand { object_id }),
        },
    ]
}

/// Members that hear of a deletion: all but the member whose command is being executed.
pub open spec fn delete_filter(current: Option<RoomMemberId>) -> MemberFilter {
    match current {
        Some(id) => MemberFilter::AllBut(id),
        None => MemberFilter::All,
    }
}

/// What deleting an object by its identifier does to a room (nothing if it is missing).
pub open spec fn deletion_applied(before: Room, after: Room, id: GameObjectId) -> bool {
    &&& same_settings(after, before)
    &&& if !has_key(before.object_model(), id) {
        &&& after.object_model() == before.object_model()
        &&& after.members == before.members
        &&& after.out_commands == before.out_commands
        &&& after.command_trace_session == before.command_trace_session
    } else {
        let o = lookup(before.object_model(), id)->0;
        &&& after.object_model() == shift_removed(before.object_model(), id)
        &&& members_after_send(
            before.members@,
            after.members@,
            o.access_groups,
            o.template_id,
            deletion_commands(id),
            delete_filter(before.current_member_id),
            before.permission_manager.permissions.templates@,
            channel_or_default(before.current_channel),
            creator_or_relay(before.current_member_id),
        )
        &&& log_view(after.out_commands@) == pushed_front(
            before.record_sent,
            log_view(before.out_commands@),
            o.access_groups,
            deletion_commands(id),
        )
        &&& same_sessions(after.command_trace_session.view(), before.command_trace_session.view())
    }
}

/// Deleting objects one after the other.
pub open spec fn deletions_applied(before: Room, after: Room, ids: Seq<GameObjectId>) -> bool
    decreases ids.len(),
{
    if ids.len() == 0 {
        after == before
    } else {
        exists|mid: Room|
            #![trigger deletion_applied(mid, after, ids.last())]
            deletions_applied(before, mid, ids.drop_last()) && deletion_applied(mid, after, ids.last())
    }
}

/// The identifiers of the objects a member owns, in order.
pub open spec fn owned_objects(objects: Seq<(GameObjectId, GameObjectModel)>, member: RoomMemberId) -> Seq<GameObjectId>
    decreases objects.len(),
{
    if objects.len() == 0 {
        Seq::empty()
    } else {
        let before = owned_objects(objects.drop_last(), member);
        if objects.last().0.owner == GameObjectOwner::User(member) {
            before.push(objects.last().0)
        } else {
            before
        }
    }
}

/// What a member leaving does to a room: the member goes, its objects are
/// deleted in order (the others are told), then its compare-and-set values are
/// restored.
pub open spec fn member_left(before: Room, after: Room, member_id: RoomMemberId, r: Result<(), ServerCommandError>) -> bool {
    if !has_member(before.members@, member_id) {
        &&& r is Ok
        &&& after == Room { current_member_id: Some(member_id), ..before }
    } else {
        let i = member_index_of(before.members@, member_id);
        let m = before.members@[i];
        exists|removed: Room, cleared: Room|
            #![trigger deletions_applied(removed, cleared, owned_objects(before.object_model(), member_id))]
            {
                &&& removed.members@ == before.members@.remove(i)
                &&& removed == Room { current_member_id: Some(member_id), members: removed.members, ..before }
                &&& deletions_applied(removed, cleared, owned_objects(before.object_model(), member_id))
                &&& crate::room::command::compare_and_set::resets_applied(
                    cleared,
                    after,
                    crate::room::member::cleaner_entries(m.compare_and_set_cleaners),
                    member_id,
                    r,
                )
            }
    }
}

impl Room {
    /// A member left: remove it and its objects (telling the others), and
    /// restore the fields it changed by compare-and-set with a reset value.
    pub fn disconnect_user(&mut self, member_id: RoomMemberId) -> (r: Result<(), ServerCommandError>)
        requires
            old(self).wf(),
        ensures
            final(self).wf(),
            member_left(*old(self), *final(self), member_id, r),
    {
        self.current_member_id = Some(member_id);
        let i = match self.member_index(member_id) {
            None => return Ok(()),
            Some(i) => i,
        };
        let ghost before = self.members@;
        let member = self.members.remove(i);
        proof {
            assert(self.members@ == before.remove(i as int));
            assert forall|a: int, b: int| 0 <= a < b < self.members@.len() implies #[trigger] self.members@[a].id != #[trigger] self.members@[b].id by {
                let ia = if a < i { a } else { a + 1 };
                let ib = if b < i { b } else { b + 1 };
                assert(self.members@[a] == before[ia]);
                assert(self.members@[b] == before[ib]);
            }
            assert forall|a: int| 0 <= a < self.members@.len() implies #[trigger] self.members@[a].id <= self.member_id_generator
                && unique_keys(self.members@[a].cleaners()) && self.members@[a].cleaners().len() <= CLEANERS_CAPACITY by {
                let ia = if a < i { a } else { a + 1 };
                assert(self.members@[a] == before[ia]);
            }
        }
        let ghost removed = *self;
        let ghost entries = self.object_model();
        let keys = objects_keys(&self.objects);
        let mut ids: Vec<GameObjectId> = Vec::new();
        let mut k: usize = 0;
        proof {
            assert(entries.take(0) == Seq::<(GameObjectId, GameObjectModel)>::empty());
        }
        while k < keys.len()
            invariant
                k <= keys@.len(),
                keys@.len() == entries.len(),
                forall|a: int| 0 <= a < keys@.len() ==> #[trigger] keys@[a] == entries[a].0,
                ids@ == owned_objects(entries.take(k as int), member_id),
            decreases keys@.len() - k,
        {
            proof {
                assert(entries.take(k + 1).drop_last() == entries.take(k as int));
                assert(entries.take(k + 1).last() == entries[k as int]);
            }
            let id = keys[k];
            let owned = match id.owner {
                GameObjectOwner::User(m) => m == member_id,
                GameObjectOwner::Room => false,
            };
            if owned {
                ids.push(id);
            }
            k = k + 1;
        }
        proof {
            assert(entries.take(keys@.len() as int) == entries);
            assert(ids@.take(0) == Seq::<GameObjectId>::empty());
        }
        let mut j: usize = 0;
        while j < ids.len()
            invariant
                j <= ids@.len(),
                self.wf(),
                deletions_applied(removed, *self, ids@.take(j as int)),
            decreases ids@.len() - j,
        {
            let ghost mid = *self;
            let _ = self.delete_object(&ids[j]);
            proof {
                assert(ids@.take(j + 1).drop_last() == ids@.take(j as int));
                assert(ids@.take(j + 1).last() == ids@[j as int]);
                assert(deletion_applied(mid, *self, ids@.take(j + 1).last()));
                assert(deletions_applied(removed, mid, ids@.take(j + 1).drop_last()));
            }
            j = j + 1;
        }
        proof {
            assert(ids@.take(ids@.len() as int) == ids@);
        }
        let ghost cleared = *self;
        let r = crate::room::command::compare_and_set::reset_all_compare_and_set(self, member_id, &member.compare_and_set_cleaners);
        proof {
            assert(deletions_applied(removed, cleared, owned_objects(entries, member_id)));
        }
        r
    }
}

/// What loading an object of a member's template does: the members that can
/// see it receive its creation, and it goes among the objects.
pub open spec fn member_object_loaded(before: Room, after: Room, t: GameObjectTemplate, member_id: RoomMemberId) -> bool {
    let o = object_from(t, GameObjectId { id: t.id, owner: GameObjectOwner::User(member_id) });
    let cs = crate::room::command::created::collected_create_commands(o);
    &&& same_settings(after, before)
    &&& members_after_send(
        before.members@,
        after.members@,
        o.access_groups,
        o.template_id,
        cs,
        MemberFilter::All,
        before.permission_manager.permissions.templates@,
        channel_or_default(before.current_channel),
        creator_or_relay(before.current_member_id),
    )
    &&& log_view(after.out_commands@) == pushed_front(before.record_sent, log_view(before.out_commands@), o.access_groups, cs)
    &&& same_sessions(after.command_trace_session.view(), before.command_trace_session.view())
    &&& after.object_model() == inserted(before.object_model(), o.id, o)
}

/// Loading the objects of a member's template, in order.
pub open spec fn member_objects_loaded(before: Room, after: Room, ts: Seq<GameObjectTemplate>, member_id: RoomMemberId) -> bool
    decreases ts.len(),
{
    if ts.len() == 0 {
        after == before
    } else {
        exists|mid: Room|
            #![trigger member_object_loaded(mid, after, ts.last(), member_id)]
            member_objects_loaded(before, mid, ts.drop_last(), member_id) && member_object_loaded(mid, after, ts.last(), member_id)
    }
}

impl Room {
    /// A member connected: create the objects of its template, telling the
    /// members that can see them.
    pub fn on_user_connect(&mut self, member_id: RoomMemberId, template: &UserTemplate)
        requires
            old(self).wf(),
            templates_ok(template.objects@),
        ensures
            final(self).wf(),
            final(self).command_trace_session.session_id_generator == old(self).command_trace_session.session_id_generator,
            member_objects_loaded(*old(self), *final(self), template.objects@, member_id),
            final(self).id == old(self).id,
    {
        let ghost room0 = *self;
        let ghost ts = template.objects@;
        proof {
            assert(ts.take(0) == Seq::<GameObjectTemplate>::empty());
        }
        let mut k: usize = 0;
        while k < template.objects.len()
            invariant
                k <= ts.len(),
                ts == template.objects@,
                templates_ok(ts),
                self.wf(),
                self.command_trace_session.session_id_generator == room0.command_trace_session.session_id_generator,
                member_objects_loaded(room0, *self, ts.take(k as int), member_id),
                self.id == room0.id,
            decreases ts.len() - k,
        {
            let ghost mid = *self;
            let t = &template.objects[k];
            let object = t.create_user_game_object(member_id);
            let mut collector = crate::room::object::collector_new();
            object.collect_create_commands(&mut collector);
            let commands = crate::room::object::collector_to_vec(&collector);
            let groups = object.access_groups;
            let object_template = object.template_id;
            proof {
                assert(commands_view(commands@) == crate::room::command::created::collected_create_commands(object@));
            }
            self.send_to_members(groups, object_template, commands.as_slice(), MemberFilter::All);
            self.insert_object(object);
            proof {
                assert(ts.take(k + 1).drop_last() == ts.take(k as int));
                assert(ts.take(k + 1).last() == ts[k as int]);
                assert(member_object_loaded(mid, *self, ts.take(k + 1).last(), member_id));
                assert(member_objects_loaded(room0, mid, ts.take(k + 1).drop_last(), member_id));
            }
            k = k + 1;
        }
        proof {
            assert(ts.take(ts.len() as int) == ts);
        }
    }

    /// Take the commands queued for each member, in the order of the members.
    pub fn collect_out_commands(&mut self) -> (r: Vec<(RoomMemberId, Vec<crate::protocol::CommandWithChannelType>)>)
        requires
            old(self).wf(),
        ensures
            final(self).wf(),
            same_settings(*final(self), *old(self)),
            final(self).objects == old(self).objects,
            final(self).out_commands == old(self).out_commands,
            final(self).command_trace_session == old(self).command_trace_session,
            r@.len() == old(self).members@.len(),
            final(self).members@.len() == old(self).members@.len(),
            forall|i: int|
                0 <= i < r@.len() ==> (#[trigger] r@[i]).0 == old(self).members@[i].id && r@[i].1 == old(self).members@[i].out_commands
                    && final(self).members@[i].out_commands@.len() == 0 && final(self).members@[i] == (User {
                    out_commands: final(self).members@[i].out_commands,
                    ..old(self).members@[i]
                }),
    {
        let ghost members0 = self.members@;
        let mut r: Vec<(RoomMemberId, Vec<crate::protocol::CommandWithChannelType>)> = Vec::new();
        let n = self.members.len();
        let mut i: usize = 0;
        while i < n
            invariant
                n == self.members@.len(),
                n == members0.len(),
                i <= n,
                r@.len() == i,
                members0 == old(self).members@,
                same_settings(*self, *old(self)),
                self.objects == old(self).objects,
                self.out_commands == old(self).out_commands,
                self.command_trace_session == old(self).command_trace_session,
                forall|j: int|
                    0 <= j < i ==> (#[trigger] r@[j]).0 == members0[j].id && r@[j].1 == members0[j].out_commands
                        && self.members@[j].out_commands@.len() == 0 && self.members@[j] == (User {
                        out_commands: self.members@[j].out_commands,
                        ..members0[j]
                    }),
                forall|j: int| i <= j < n ==> #[trigger] self.members@[j] == members0[j],
            decreases n - i,
        {
            let ghost before = self.members@;
            let ghost before_r = r@;
            let id = self.members[i].id;
            let taken = self.members[i].take_out_commands();
            r.push((id, taken));
            proof {
                assert(self.members@ == before.update(i as int, self.members@[i as int]));
                assert(r@ == before_r.push((id, taken)));
                assert forall|j: int| 0 <= j < i + 1 implies (#[trigger] r@[j]).0 == members0[j].id && r@[j].1 == members0[j].out_commands
                    && self.members@[j].out_commands@.len() == 0 && self.members@[j] == (User {
                    out_commands: self.members@[j].out_commands,
                    ..members0[j]
                }) by {
                    if j < i {
                        assert(self.members@[j] == before[j]);
                        assert(r@[j] == before_r[j]);
                    }
                }
                assert forall|j: int| i + 1 <= j < n implies #[trigger] self.members@[j] == members0[j] by {
                    assert(self.members@[j] == before[j]);
                }
            }
            i = i + 1;
        }
        proof {
            assert forall|a: int| 0 <= a < self.members@.len() implies #[trigger] self.members@[a].id == members0[a].id
                && self.members@[a].cleaners() == members0[a].cleaners() && self.members@[a].template == members0[a].template by {
                assert(r@[a].0 == members0[a].id);
                assert(self.members@[a] == (User { out_commands: self.members@[a].out_commands, ..members0[a] }));
            }
            assert(members_wf(members0, self.member_id_generator));
            let ms = self.members@;
            assert forall|a: int, b: int| 0 <= a < b < ms.len() implies #[trigger] ms[a].id != #[trigger] ms[b].id by {
                assert(r@[a].0 == members0[a].id);
                assert(r@[b].0 == members0[b].id);
                assert(ms[a].id == members0[a].id);
                assert(ms[b].id == members0[b].id);
            }
            assert forall|a: int| 0 <= a < ms.len() implies templates_ok((#[trigger] ms[a]).template.objects@) by {
                assert(r@[a].0 == members0[a].id);
                assert(ms[a].template == members0[a].template);
            }
            assert forall|a: int| 0 <= a < ms.len() implies unique_keys((#[trigger] ms[a]).cleaners()) && ms[a].cleaners().len()
                <= CLEANERS_CAPACITY by {
                assert(r@[a].0 == members0[a].id);
                assert(ms[a].cleaners() == members0[a].cleaners());
            }
            assert forall|a: int| 0 <= a < ms.len() implies #[trigger] ms[a].id <= self.member_id_generator by {
                assert(r@[a].0 == members0[a].id);
                assert(ms[a].id == members0[a].id);
            }
            assert(members_wf(self.members@, self.member_id_generator));
        }
        r
    }
}

/// Deleting an object keeps the other objects in their order: those before
/// it stay in place and those after it move up by one.
pub proof fn law_deletion_keeps_order(before: Room, after: Room, id: GameObjectId)
    requires
        deletion_applied(before, after, id),
        has_key(before.object_model(), id),
    ensures
        after.object_model().len() == before.object_model().len() - 1,
        forall|i: int|
            0 <= i < after.object_model().len() ==> #[trigger] after.object_model()[i] == if i < index_of(before.object_model(), id) {
                before.object_model()[i]
            } else {
                before.object_model()[i + 1]
            },
{
}

/// The member whose command deletes an object is not told of the deletion:
/// what it has queued stays as it was.
pub proof fn law_deleter_not_told(before: Room, after: Room, id: GameObjectId, member_id: RoomMemberId)
    requires
        deletion_applied(before, after, id),
        before.current_member_id == Some(member_id),
    ensures
        after.members@.len() == before.members@.len(),
        forall|i: int|
            0 <= i < before.members@.len() && before.members@[i].id == member_id ==> (#[trigger] after.members@[i]).out()
                == before.members@[i].out(),
{
    assert forall|i: int| 0 <= i < before.members@.len() && before.members@[i].id == member_id implies (#[trigger] after.members@[i]).out()
        == before.members@[i].out() by {
        if has_key(before.object_model(), id) {
            assert(after.members@[i].out() == before.members@[i].out() + Seq::<crate::protocol::SpecCommandWithChannelType>::empty());
        }
    }
}

/// Each member keeps its identifier and place.
pub open spec fn same_member_ids(a: Seq<User>, b: Seq<User>) -> bool {
    &&& a.len() == b.len()
    &&& forall|j: int| 0 <= j < a.len() ==> #[trigger] a[j].id == b[j].id
}

/// Deleting objects in turn keeps the members and their places, keeps keys
/// distinct, and leaves only objects that were there and were not deleted.
proof fn lemma_deletions_effect(before: Room, after: Room, ids: Seq<GameObjectId>)
    requires
        unique_keys(before.object_model()),
        deletions_applied(before, after, ids),
    ensures
        unique_keys(after.object_model()),
        forall|k: GameObjectId| #[trigger] has_key(after.object_model(), k) ==> has_key(before.object_model(), k) && !ids.contains(k),
        same_member_ids(after.members@, before.members@),
    decreases ids.len(),
{
    if ids.len() > 0 {
        let last = ids.last();
        let mid = choose|mid: Room|
            #![trigger deletion_applied(mid, after, last)]
            deletions_applied(before, mid, ids.drop_last()) && deletion_applied(mid, after, last);
        lemma_deletions_effect(before, mid, ids.drop_last());
        if has_key(mid.object_model(), last) {
            crate::room::maps::lemma_shift_removed(mid.object_model(), last);
            assert forall|j: int| 0 <= j < mid.members@.len() implies #[trigger] after.members@[j].id == mid.members@[j].id by {
                assert(crate::room::sender::member_received(mid.members@[j], after.members@[j], if crate::room::sender::receives(
                    mid.members@[j],
                    (lookup(mid.object_model(), last)->0).access_groups,
                    delete_filter(mid.current_member_id),
                    mid.permission_manager.permissions.templates@,
                    (lookup(mid.object_model(), last)->0).template_id,
                ) {
                    crate::room::sender::delivered(
                        mid.permission_manager.permissions.templates@,
                        (lookup(mid.object_model(), last)->0).template_id,
                        deletion_commands(last),
                        mid.members@[j].template.groups,
                        channel_or_default(mid.current_channel),
                        creator_or_relay(mid.current_member_id),
                    )
                } else {
                    Seq::empty()
                }));
            }
        }
        assert forall|k: GameObjectId| #[trigger] has_key(after.object_model(), k) implies has_key(before.object_model(), k)
            && !ids.contains(k) by {
            if has_key(mid.object_model(), last) {
                assert(lookup(after.object_model(), k) is Some);
                assert(k != last);
                assert(lookup(mid.object_model(), k) is Some);
            }
            assert(has_key(mid.object_model(), k));
            if ids.contains(k) {
                let x = choose|x: int| 0 <= x < ids.len() && ids[x] == k;
                if x < ids.len() - 1 {
                    assert(ids.drop_last()[x] == k);
                }
            }
        }
    }
}

/// Restoring values keeps the members and their places, and the objects'
/// identifiers and places.
proof fn lemma_resets_effect(
    before: Room,
    after: Room,
    es: Seq<(crate::room::member::CleanerKey, crate::room::member::SpecResetValue)>,
    member: RoomMemberId,
    r: Result<(), ServerCommandError>,
)
    requires
        crate::room::command::compare_and_set::resets_applied(before, after, es, member, r),
    ensures
        after.object_model().len() == before.object_model().len(),
        forall|j: int| 0 <= j < before.object_model().len() ==> #[trigger] after.object_model()[j].0 == before.object_model()[j].0,
        same_member_ids(after.members@, before.members@),
    decreases es.len(),
{
    if es.len() > 0 {
        let (mid, r1) = choose|mid: Room, r1: Result<(), ServerCommandError>|
            #![trigger crate::room::command::compare_and_set::reset_step(mid, r1, after, es.last(), member, r)]
            crate::room::command::compare_and_set::resets_applied(before, mid, es.drop_last(), member, r1)
                && crate::room::command::compare_and_set::reset_step(mid, r1, after, es.last(), member, r);
        lemma_resets_effect(before, mid, es.drop_last(), member, r1);
        if r1 is Ok {
            let key = es.last().0;
            let object_id = crate::room::member::spec_cleaner_object(key);
            let s = mid.object_model();
            if has_key(s, object_id) {
                assert(s[index_of(s, object_id)].0 == object_id);
            }
            let o = lookup(s, object_id)->0;
            let ts = mid.permission_manager.permissions.templates@;
            assert forall|j: int| 0 <= j < mid.members@.len() implies #[trigger] after.members@[j].id == mid.members@[j].id by {
                if has_key(s, object_id) && crate::room::action::can_set(o.fields, key.3) && lookup(o.owners, key.3) == Some(member)
                    && crate::room::command::compare_and_set::reset_fits(es.last().1, o, key.3) {
                    let (v, c) = crate::room::command::compare_and_set::reset_command(es.last().1, object_id, key.3);
                    let o2 = crate::room::action::with_field(o, key.3, v);
                    assert(crate::room::sender::member_received(mid.members@[j], after.members@[j], if crate::room::sender::receives(
                        mid.members@[j],
                        o2.access_groups,
                        MemberFilter::All,
                        ts,
                        o2.template_id,
                    ) {
                        crate::room::sender::delivered(
                            ts,
                            o2.template_id,
                            seq![c],
                            mid.members@[j].template.groups,
                            channel_or_default(mid.current_channel),
                            creator_or_relay(mid.current_member_id),
                        )
                    } else {
                        Seq::empty()
                    }));
                }
            }
        }
    }
}

/// Every object that a member owns is among `owned_objects`.
proof fn lemma_owned_objects_complete(s: Seq<(GameObjectId, GameObjectModel)>, member: RoomMemberId, k: GameObjectId)
    requires
        has_key(s, k),
        k.owner == GameObjectOwner::User(member),
    ensures
        owned_objects(s, member).contains(k),
    decreases s.len(),
{
    let i = index_of(s, k);
    let last = owned_objects(s, member);
    if i == s.len() - 1 {
        assert(s.last().0 == k);
        assert(last[last.len() - 1] == k);
    } else {
        let d = s.drop_last();
        assert(d[i].0 == k);
        lemma_owned_objects_complete(d, member, k);
        let x = choose|x: int| 0 <= x < owned_objects(d, member).len() && owned_objects(d, member)[x] == k;
        assert(last[x] == k);
    }
}

/// After a member leaves, the room has neither the member nor any object of
/// the member.
pub proof fn law_member_left_leaves_nothing(before: Room, after: Room, member_id: RoomMemberId, r: Result<(), ServerCommandError>)
    requires
        before.wf(),
        has_member(before.members@, member_id),
        member_left(before, after, member_id, r),
    ensures
        !has_member(after.members@, member_id),
        forall|k: GameObjectId| #[trigger] has_key(after.object_model(), k) ==> k.owner != GameObjectOwner::User(member_id),
{
    let i = member_index_of(before.members@, member_id);
    let m = before.members@[i];
    let ids = owned_objects(before.object_model(), member_id);
    let (removed, cleared) = choose|removed: Room, cleared: Room|
        #![trigger deletions_applied(removed, cleared, owned_objects(before.object_model(), member_id))]
        {
            &&& removed.members@ == before.members@.remove(i)
            &&& removed == Room { current_member_id: Some(member_id), members: removed.members, ..before }
            &&& deletions_applied(removed, cleared, owned_objects(before.object_model(), member_id))
            &&& crate::room::command::compare_and_set::resets_applied(
                cleared,
                after,
                crate::room::member::cleaner_entries(m.compare_and_set_cleaners),
                member_id,
                r,
            )
        };
    lemma_deletions_effect(removed, cleared, ids);
    lemma_resets_effect(cleared, after, crate::room::member::cleaner_entries(m.compare_and_set_cleaners), member_id, r);
    if has_member(after.members@, member_id) {
        let j = member_index_of(after.members@, member_id);
        assert(after.members@[j].id == member_id);
        assert(cleared.members@[j].id == member_id);
        assert(removed.members@[j].id == member_id);
        let b = if j < i { j } else { j + 1 };
        assert(removed.members@[j] == before.members@[b]);
        assert(before.members@[i].id == member_id);
        if b < i {
            assert(before.members@[b].id != before.members@[i].id);
        } else {
            assert(before.members@[i].id != before.members@[b].id);
        }
    }
    assert forall|k: GameObjectId| #[trigger] has_key(after.object_model(), k) implies k.owner != GameObjectOwner::User(member_id) by {
        let x = index_of(after.object_model(), k);
        assert(after.object_model()[x].0 == k);
        assert(cleared.object_model()[x].0 == k);
        assert(has_key(cleared.object_model(), k));
        if k.owner == GameObjectOwner::User(member_id) {
            lemma_owned_objects_complete(before.object_model(), member_id, k);
        }
    }
}

/// A member leaving keeps the room's identifier.
pub proof fn lemma_member_left_keeps_id(before: Room, after: Room, member_id: RoomMemberId, r: Result<(), ServerCommandError>)
    requires
        member_left(before, after, member_id, r),
    ensures
        after.id == before.id,
{
    if has_member(before.members@, member_id) {
        let (removed, cleared) = choose|removed: Room, cleared: Room|
            #![trigger deletions_applied(removed, cleared, owned_objects(before.object_model(), member_id))]
            {
                &&& removed.members@ == before.members@.remove(member_index_of(before.members@, member_id))
                &&& removed == Room { current_member_id: Some(member_id), members: removed.members, ..before }
                &&& deletions_applied(removed, cleared, owned_objects(before.object_model(), member_id))
                &&& crate::room::command::compare_and_set::resets_applied(
                    cleared,
                    after,
                    crate::room::member::cleaner_entries(before.members@[member_index_of(before.members@, member_id)].compare_and_set_cleaners),
                    member_id,
                    r,
                )
            };
        lemma_deletions_keep_id(removed, cleared, owned_objects(before.object_model(), member_id));
        crate::room::command::compare_and_set::lemma_resets_keep_id(
            cleared,
            after,
            crate::room::member::cleaner_entries(before.members@[member_index_of(before.members@, member_id)].compare_and_set_cleaners),
            member_id,
            r,
        );
    }
}

/// Deletions keep the room's identifier.
pub proof fn lemma_deletions_keep_id(before: Room, after: Room, ids: Seq<GameObjectId>)
    requires
        deletions_applied(before, after, ids),
    ensures
        after.id == before.id,
    decreases ids.len(),
{
    if ids.len() > 0 {
        let mid = choose|mid: Room|
            #![trigger deletion_applied(mid, after, ids.last())]
            deletions_applied(before, mid, ids.drop_last()) && deletion_applied(mid, after, ids.last());
        lemma_deletions_keep_id(before, mid, ids.drop_last());
    }
}

/// The member's first frame: it becomes connected, the room's channel becomes
/// the default one, and the objects of its template are created.
pub open spec fn member_connected(before: Room, after: Room, member_id: RoomMemberId) -> bool {
    if !has_member(before.members@, member_id) {
        after == before
    } else {
        let i = member_index_of(before.members@, member_id);
        let m = before.members@[i];
        if m.connected {
            after == Room { current_member_id: Some(member_id), ..before }
        } else {
            exists|mid: Room, t: UserTemplate|
                #![trigger member_objects_loaded(mid, after, t.objects@, member_id)]
                {
                    &&& mid.members@ == before.members@.update(i, User { connected: true, ..m })
                    &&& mid == Room {
                        current_member_id: Some(member_id),
                        current_channel: Some(ChannelType::ReliableSequence(crate::protocol::ChannelGroup(0))),
                        members: mid.members,
                        ..before
                    }
                    &&& same_member_template(t, m.template)
                    &&& member_objects_loaded(mid, after, t.objects@, member_id)
                }
        }
    }
}

/// What one received command does: a client command is collected by the
/// sessions (at some time) on its channel, then executed.
pub open spec fn command_processed<F: Fn(u64, u64) -> u64>(
    before: Room,
    after: Room,
    c: crate::protocol::CommandWithChannel,
    member_id: RoomMemberId,
    sum: F,
) -> bool {
    match c.both_direction_command {
        crate::protocol::BothDirectionCommandOf::C2S(x) => exists|traced: Room, r: Result<(), ServerCommandError>|
            #![trigger crate::room::command::executed(traced, after, x, member_id, sum, r)]
            {
                &&& traced == Room {
                    current_channel: Some(crate::protocol::spec_channel_type(c.channel)),
                    command_trace_session: traced.command_trace_session,
                    ..before
                }
                &&& traced.command_trace_session.wf()
                &&& traced.command_trace_session.session_id_generator == before.command_trace_session.session_id_generator
                &&& exists|time: u64|
                    traced.command_trace_session.view() == crate::debug::tracer::sessions::all_collected(
                        before.command_trace_session.view(),
                        crate::debug::tracer::traced::TracedCommandOf {
                            time,
                            template: crate::debug::tracer::sessions::c2s_template(before.object_model(), x@),
                            user: member_id,
                            network_command: crate::debug::tracer::traced::UniDirectionCommandOf::C2S(x@),
                        },
                    )
                &&& crate::room::command::executed(traced, after, x, member_id, sum, r)
            },
        _ => after == before,
    }
}

/// Received commands, one after the other.
pub open spec fn commands_processed<F: Fn(u64, u64) -> u64>(
    before: Room,
    after: Room,
    cs: Seq<crate::protocol::CommandWithChannel>,
    member_id: RoomMemberId,
    sum: F,
) -> bool
    decreases cs.len(),
{
    if cs.len() == 0 {
        after == before
    } else {
        exists|mid: Room|
            #![trigger command_processed(mid, after, cs.last(), member_id, sum)]
            commands_processed(before, mid, cs.drop_last(), member_id, sum) && command_processed(mid, after, cs.last(), member_id, sum)
    }
}

impl Room {
    /// Execute the commands of a frame from a member; `sum` adds two doubles
    /// given by their bit patterns. The member's first frame connects it.
    pub fn execute_commands<F: Fn(u64, u64) -> u64>(
        &mut self,
        member_id: RoomMemberId,
        commands: &[crate::protocol::CommandWithChannel],
        sum: &F,
    )
        requires
            old(self).wf(),
            forall|a: u64, b: u64| sum.requires((a, b)),
        ensures
            final(self).wf(),
            exists|connected: Room, processed: Room|
                #![trigger commands_processed(connected, processed, commands@, member_id, *sum)]
                {
                    &&& member_connected(*old(self), connected, member_id)
                    &&& commands_processed(connected, processed, commands@, member_id, *sum)
                    &&& *final(self) == Room { current_member_id: None, current_channel: None, ..processed }
                },
            final(self).id == old(self).id,
    {
        let ghost room0 = *self;
        match self.member_index(member_id) {
            None => {},
            Some(i) => {
                self.current_member_id = Some(member_id);
                let connected_now = !self.members[i].connected;
                if connected_now {
                    let ghost before = self.members@;
                    self.members[i].connected = true;
                    self.current_channel = Some(ChannelType::ReliableSequence(crate::protocol::ChannelGroup(0)));
                    let template = copy_member_template(&self.members[i].template);
                    proof {
                        assert(self.members@ == before.update(i as int, User { connected: true, ..before[i as int] }));
                        let ms = self.members@;
                        assert forall|a: int| 0 <= a < ms.len() implies #[trigger] ms[a].id == before[a].id && ms[a].template
                            == before[a].template && ms[a].cleaners() == before[a].cleaners() by {}
                        assert forall|a: int, b: int| 0 <= a < b < ms.len() implies #[trigger] ms[a].id != #[trigger] ms[b].id by {
                            assert(ms[a].id == before[a].id);
                            assert(ms[b].id == before[b].id);
                        }
                        assert(members_wf(ms, self.member_id_generator));
                        let tv = template.objects@;
                        let mv = ms[i as int].template.objects@;
                        assert(templates_ok(mv));
                        assert forall|a: int| 0 <= a < tv.len() implies (#[trigger] tv[a]).id != 0 && tv[a].fields@.len() <= FIELD_CAPACITY by {
                            assert(object_template_view(tv[a]) == object_template_view(mv[a]));
                            assert(tv[a].fields@.map_values(|e: (FieldId, FieldValue)| (e.0, e.1@)).len() == tv[a].fields@.len());
                            assert(mv[a].fields@.map_values(|e: (FieldId, FieldValue)| (e.0, e.1@)).len() == mv[a].fields@.len());
                        }
                        lemma_member_index(room0.members@, room0.member_id_generator, i as int);
                    }
                    let ghost mid = *self;
                    self.on_user_connect(member_id, &template);
                    proof {
                        assert(member_objects_loaded(mid, *self, template.objects@, member_id));
                    }
                } else {
                    proof {
                        lemma_member_index(room0.members@, room0.member_id_generator, i as int);
                    }
                }
            },
        }
        let ghost connected = *self;
        proof {
            assert(member_connected(room0, connected, member_id));
            assert(commands@.take(0) == Seq::<crate::protocol::CommandWithChannel>::empty());
        }
        let mut k: usize = 0;
        while k < commands.len()
            invariant
                k <= commands@.len(),
                self.wf(),
                forall|a: u64, b: u64| sum.requires((a, b)),
                commands_processed(connected, *self, commands@.take(k as int), member_id, *sum),
                self.id == room0.id,
            decreases commands@.len() - k,
        {
            let ghost mid = *self;
            let command = &commands[k];
            match &command.both_direction_command {
                crate::protocol::BothDirectionCommandOf::C2S(c) => {
                    self.current_channel = Some(crate::protocol::channel_type(&command.channel));
                    self.command_trace_session.collect_c2s(&self.objects, member_id, c);
                    let ghost traced = *self;
                    let result = crate::room::command::execute(c, self, member_id, sum);
                    proof {
                        assert(crate::room::command::executed(traced, *self, *c, member_id, *sum, result));
                    }
                },
                _ => {},
            }
            proof {
                assert(commands@.take(k + 1).drop_last() == commands@.take(k as int));
                assert(commands@.take(k + 1).last() == commands@[k as int]);
                assert(command_processed(mid, *self, commands@.take(k + 1).last(), member_id, *sum));
                assert(commands_processed(connected, mid, commands@.take(k + 1).drop_last(), member_id, *sum));
            }
            k = k + 1;
        }
        proof {
            assert(commands@.take(commands@.len() as int) == commands@);
        }
        let ghost processed = *self;
        self.current_member_id = None;
        self.current_channel = None;
        proof {
            assert(commands_processed(connected, processed, commands@, member_id, *sum));
        }
    }
}

impl Room {
    /// A room with identifier 0 made from a template.
    pub fn from_template(template: RoomTemplate) -> (r: Room)
        requires
            templates_ok(template.objects@),
        ensures
            r.wf(),
            r.id == 0,
            r.object_model() == room_objects_from(template.objects@),
            r.members@.len() == 0,
            r.permission_manager.permissions == template.permissions,
            r.template_name == template.name,
            r.member_id_generator == 0,
            r.object_id_generator == 0,
            r.current_channel is None,
            r.current_member_id is None,
            r.command_trace_session.view().len() == 0,
            r.command_trace_session.session_id_generator == 0,
            r.out_commands@.len() == 0,
            !r.record_sent,
    {
        Room::new(0, template)
    }

    /// The object with the identifier, to change in place; `None` where the
    /// room has no such object.
    pub fn get_object_mut(&mut self, object_id: &GameObjectId) -> (r: Option<&mut GameObject>)
        ensures
            r is Some <==> has_key(old(self).object_model(), *object_id),
            r is None ==> *final(self) == *old(self),
            match r {
                Some(o) => {
                    &&& lookup(old(self).object_model(), *object_id) == Some(o@)
                    &&& final(self).object_model() == old(self).object_model().update(
                        index_of(old(self).object_model(), *object_id),
                        (*object_id, final(o)@),
                    )
                    &&& same_settings(*final(self), *old(self))
                    &&& final(self).members == old(self).members
                    &&& final(self).out_commands == old(self).out_commands
                    &&& final(self).command_trace_session == old(self).command_trace_session
                },
                None => true,
            },
    {
        if objects_contains(&self.objects, object_id) {
            Some(objects_get_mut(&mut self.objects, object_id))
        } else {
            None
        }
    }

    /// Create an object of a member, with the next number, no template, no
    /// fields, and the given groups and state of creation.
    pub fn create_object(&mut self, owner: RoomMemberId, access_groups: AccessGroups, created: bool) -> (r: GameObjectId)
        requires
            old(self).wf(),
            old(self).object_id_generator < u32::MAX,
        ensures
            final(self).wf(),
            r == (GameObjectId { id: (old(self).object_id_generator + 1) as u32, owner: GameObjectOwner::User(owner) }),
            final(self).object_id_generator == r.id,
            final(self).object_model() == inserted(
                old(self).object_model(),
                r,
                GameObjectModel {
                    id: r,
                    template_id: 0,
                    access_groups,
                    created,
                    fields: Seq::empty(),
                    owners: Seq::empty(),
                },
            ),
            final(self).members == old(self).members,
            final(self).command_trace_session == old(self).command_trace_session,
            final(self).out_commands == old(self).out_commands,
    {
        self.object_id_generator = self.object_id_generator + 1;
        let id = GameObjectId::new(self.object_id_generator, GameObjectOwner::User(owner));
        let object = GameObject::new(id, 0, access_groups, created);
        self.insert_object(object);
        id
    }

    /// Mark a member connected and attached; a member that is not in the
    /// room changes nothing.
    pub fn mark_as_connected(&mut self, member_id: RoomMemberId)
        requires
            old(self).wf(),
        ensures
            final(self).wf(),
            !has_member(old(self).members@, member_id) ==> final(self).members == old(self).members,
            has_member(old(self).members@, member_id) ==> final(self).members@ == old(self).members@.update(
                member_index_of(old(self).members@, member_id),
                User { connected: true, attached: true, ..old(self).members@[member_index_of(old(self).members@, member_id)] },
            ),
            same_settings(*final(self), *old(self)),
            final(self).objects == old(self).objects,
    {
        match self.member_index(member_id) {
            None => {},
            Some(i) => {
                let ghost before = self.members@;
                self.members[i].connected = true;
                self.members[i].attached = true;
                proof {
                    let ms = self.members@;
                    assert(ms == before.update(i as int, User { connected: true, attached: true, ..before[i as int] }));
                    assert forall|a: int| 0 <= a < ms.len() implies #[trigger] ms[a].id == before[a].id && ms[a].template
                        == before[a].template && ms[a].cleaners() == before[a].cleaners() by {}
                    assert forall|a: int, b: int| 0 <= a < b < ms.len() implies #[trigger] ms[a].id != #[trigger] ms[b].id by {
                        assert(ms[a].id == before[a].id);
                        assert(ms[b].id == before[b].id);
                    }
                }
            },
        }
    }

    /// The commands to clients queued for a member, in order.
    pub fn get_user_out_commands(&self, member_id: RoomMemberId) -> (r: std::collections::VecDeque<S2CCommand>)
        requires
            self.wf(),
        ensures
            has_member(self.members@, member_id) ==> s2c_view(r@) == out_s2c(
                self.members@[member_index_of(self.members@, member_id)].out(),
            ),
            !has_member(self.members@, member_id) ==> r@.len() == 0,
    {
        let mut r: std::collections::VecDeque<S2CCommand> = std::collections::VecDeque::new();
        match self.member_index(member_id) {
            None => r,
            Some(i) => {
                let out = &self.members[i].out_commands;
                let ghost ov = self.members@[i as int].out();
                let mut k: usize = 0;
                proof {
                    assert(ov.take(0) == Seq::<crate::protocol::SpecCommandWithChannelType>::empty());
                    assert(s2c_view(r@) == Seq::<crate::commands::SpecS2CCommand>::empty());
                }
                while k < out.len()
                    invariant
                        k <= out@.len(),
                        ov == crate::room::member::out_view(out@),
                        s2c_view(r@) == out_s2c(ov.take(k as int)),
                    decreases out@.len() - k,
                {
                    proof {
                        assert(ov.take(k + 1).drop_last() == ov.take(k as int));
                        assert(ov.take(k + 1).last() == out@[k as int]@);
                    }
                    let ghost before = r@;
                    match &out[k].command {
                        crate::protocol::BothDirectionCommandOf::S2CWithCreator(c) => {
                            r.push_back(c.command.copy());
                            proof {
                                assert(s2c_view(r@) == s2c_view(before).push(c.command@));
                            }
                        },
                        crate::protocol::BothDirectionCommandOf::C2S(_) => {},
                    }
                    k = k + 1;
                }
                proof {
                    assert(ov.take(out@.len() as int) == ov);
                }
                r
            },
        }
    }
}

pub open spec fn s2c_view(s: Seq<S2CCommand>) -> Seq<crate::commands::SpecS2CCommand> {
    s.map_values(|c: S2CCommand| c@)
}

/// The commands to clients among queued commands, in order.
pub open spec fn out_s2c(out: Seq<crate::protocol::SpecCommandWithChannelType>) -> Seq<crate::commands::SpecS2CCommand>
    decreases out.len(),
{
    if out.len() == 0 {
        Seq::empty()
    } else {
        let before = out_s2c(out.drop_last());
        match out.last().command {
            crate::protocol::BothDirectionCommandOf::S2CWithCreator(c) => before.push(c.command),
            crate::protocol::BothDirectionCommandOf::C2S(_) => before,
        }
    }
}

} // verus!
