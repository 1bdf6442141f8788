//! Changing a field of a game object, with the checks of access, and sending
//! the result to the members.
use vstd::prelude::*;

use crate::commands::{
    copy_bytes, DeleteFieldCommand, EventCommandOf, S2CCommandOf, SetDoubleCommand, SetLongCommand,
    SetStructureCommandOf, SpecS2CCommand,
};
use crate::room::command::ServerCommandError;
use crate::room::field::{FieldValueOf, SpecFieldValue};
use crate::room::maps::{has_key, index_of, inserted, lookup, swap_removed};
use crate::room::object::{
    holds_long_or_none, holds_structure_or_none, object_wf, GameObject, GameObjectError, GameObjectModel,
    S2CCommandWithFieldInfoOf, FIELD_CAPACITY, MAX_FIELD_COUNT,
};
use crate::room::objects::{lemma_objects_updated, objects_contains, objects_get, objects_get_mut};
use crate::room::permission::permission_of;
use crate::room::sender::{
    channel_or_default, commands_view, creator_or_relay, log_view, members_after_send, members_after_send_to, pushed_front,
    same_sessions, MemberFilter,
};
use crate::room::template::{permission_at_least, permission_rank, Permission};
use crate::room::{has_member, member_index_of, same_settings, Room};
use crate::types::{Field, FieldId, FieldType, GameObjectId, GameObjectOwner, RoomMemberId};

verus! {

broadcast use vstd::std_specs::vec::group_vec_axioms;

/// What a command does to a field of an object.
#[derive(Debug)]
pub enum FieldActionOf<B> {
    /// Nothing changes and nothing is sent.
    Nothing,
    /// Nothing changes; the command is sent.
    Send(S2CCommandOf<B>),
    SetLong(i64),
    /// Add to a long field (a missing field counts as 0); on overflow the
    /// field keeps its value, which is sent.
    IncrementLong(i64),
    /// Set a double field to the number with this bit pattern.
    SetDouble(u64),
    SetStructure(B),
    /// Set a long field that holds `current`, or nothing; with `reset`, the
    /// member becomes the field's compare-and-set owner.
    CompareAndSetLong { current: i64, new: i64, reset: bool },
    CompareAndSetStructure { current: B, new: B, reset: bool },
    Event(B),
    DeleteField(FieldType),
}

pub type FieldAction = FieldActionOf<Vec<u8>>;

pub type SpecFieldAction = FieldActionOf<Seq<u8>>;

impl View for FieldActionOf<Vec<u8>> {
    type V = SpecFieldAction;

    open spec fn view(&self) -> SpecFieldAction {
        match self {
            FieldActionOf::Nothing => FieldActionOf::Nothing,
            FieldActionOf::Send(c) => FieldActionOf::Send(c@),
            FieldActionOf::SetLong(v) => FieldActionOf::SetLong(*v),
            FieldActionOf::IncrementLong(v) => FieldActionOf::IncrementLong(*v),
            FieldActionOf::SetDouble(v) => FieldActionOf::SetDouble(*v),
            FieldActionOf::SetStructure(b) => FieldActionOf::SetStructure(b@),
            FieldActionOf::CompareAndSetLong { current, new, reset } => FieldActionOf::CompareAndSetLong {
                current: *current,
                new: *new,
                reset: *reset,
            },
            FieldActionOf::CompareAndSetStructure { current, new, reset } => FieldActionOf::CompareAndSetStructure {
                current: current@,
                new: new@,
                reset: *reset,
            },
            FieldActionOf::Event(b) => FieldActionOf::Event(b@),
            FieldActionOf::DeleteField(t) => FieldActionOf::DeleteField(*t),
        }
    }
}

/// Result of an action: the command to send, if any, or an error.
pub type ActionResult = Result<Option<SpecS2CCommand>, ServerCommandError>;

pub open spec fn action_result_view(r: Result<Option<S2CCommandOf<Vec<u8>>>, ServerCommandError>) -> ActionResult {
    match r {
        Ok(Some(c)) => Ok(Some(c@)),
        Ok(None) => Ok(None),
        Err(e) => Err(e),
    }
}

/// The field can take a value: it exists, or the object has room for it.
pub open spec fn can_set(fields: Seq<(FieldId, SpecFieldValue)>, k: FieldId) -> bool {
    has_key(fields, k) || fields.len() < FIELD_CAPACITY
}

/// The error of an object with no room for another field.
pub open spec fn overflow(o: GameObjectModel) -> ServerCommandError {
    ServerCommandError::GameObjectError { error: GameObjectError::FieldCountOverflow(o.id, o.template_id) }
}

pub open spec fn with_field(o: GameObjectModel, k: FieldId, v: SpecFieldValue) -> GameObjectModel {
    GameObjectModel { fields: inserted(o.fields, k, v), ..o }
}

/// Set a field and send the command, or fail when the object is full.
pub open spec fn set_and_send(o: GameObjectModel, k: FieldId, v: SpecFieldValue, c: SpecS2CCommand) -> (GameObjectModel, ActionResult) {
    if can_set(o.fields, k) {
        (with_field(o, k, v), Ok(Some(c)))
    } else {
        (o, Err(overflow(o)))
    }
}

/// Set a field as a compare-and-set, making the member its owner when asked.
pub open spec fn compare_and_set(
    o: GameObjectModel,
    k: FieldId,
    v: SpecFieldValue,
    reset: bool,
    member: RoomMemberId,
    c: SpecS2CCommand,
) -> (GameObjectModel, ActionResult) {
    if !can_set(o.fields, k) {
        (o, Err(overflow(o)))
    } else {
        let o1 = with_field(o, k, v);
        if !reset {
            (o1, Ok(Some(c)))
        } else if has_key(o1.owners, k) || o1.owners.len() < MAX_FIELD_COUNT {
            (GameObjectModel { owners: inserted(o1.owners, k, member), ..o1 }, Ok(Some(c)))
        } else {
            (o1, Err(overflow(o1)))
        }
    }
}

/// A compare-and-set finds the value it expects (or no value) and changes the field.
pub open spec fn compare_holds(a: SpecFieldAction, o: GameObjectModel, k: FieldId) -> bool {
    match a {
        FieldActionOf::CompareAndSetLong { current, .. } => match lookup(o.fields, k) {
            None => true,
            Some(v) => v == FieldValueOf::<Seq<u8>>::Long(current),
        },
        FieldActionOf::CompareAndSetStructure { current, .. } => match lookup(o.fields, k) {
            None => true,
            Some(v) => v == FieldValueOf::<Seq<u8>>::Structure(current),
        },
        _ => false,
    }
}

/// The field holds a value of the type that the action reads.
pub open spec fn action_types_ok(a: SpecFieldAction, o: GameObjectModel, k: FieldId) -> bool {
    match a {
        FieldActionOf::IncrementLong(_) => holds_long_or_none(o.fields, k),
        FieldActionOf::CompareAndSetLong { .. } => holds_long_or_none(o.fields, k),
        FieldActionOf::SetStructure(_) => holds_structure_or_none(o.fields, k),
        FieldActionOf::CompareAndSetStructure { .. } => holds_structure_or_none(o.fields, k),
        _ => true,
    }
}

/// The object after an action on one of its fields, and the action's result.
pub open spec fn apply_action(
    a: SpecFieldAction,
    o: GameObjectModel,
    object_id: GameObjectId,
    k: FieldId,
    member: RoomMemberId,
) -> (GameObjectModel, ActionResult) {
    match a {
        FieldActionOf::Nothing => (o, Ok(None)),
        FieldActionOf::Send(c) => (o, Ok(Some(c))),
        FieldActionOf::SetLong(v) => set_and_send(
            o,
            k,
            FieldValueOf::Long(v),
            S2CCommandOf::SetLong(SetLongCommand { object_id, field_id: k, value: v }),
        ),
        FieldActionOf::IncrementLong(inc) => match lookup(o.fields, k) {
            Some(FieldValueOf::Long(v)) => if i64::MIN <= v + inc <= i64::MAX {
                set_and_send(
                    o,
                    k,
                    FieldValueOf::Long((v + inc) as i64),
                    S2CCommandOf::SetLong(SetLongCommand { object_id, field_id: k, value: (v + inc) as i64 }),
                )
            } else {
                (o, Ok(Some(S2CCommandOf::SetLong(SetLongCommand { object_id, field_id: k, value: v }))))
            },
            _ => set_and_send(
                o,
                k,
                FieldValueOf::Long(inc),
                S2CCommandOf::SetLong(SetLongCommand { object_id, field_id: k, value: inc }),
            ),
        },
        FieldActionOf::SetDouble(v) => set_and_send(
            o,
            k,
            FieldValueOf::Double(v),
            S2CCommandOf::SetDouble(SetDoubleCommand { object_id, field_id: k, value: v }),
        ),
        FieldActionOf::SetStructure(b) => set_and_send(
            o,
            k,
            FieldValueOf::Structure(b),
            S2CCommandOf::SetStructure(SetStructureCommandOf { object_id, field_id: k, structure: b }),
        ),
        FieldActionOf::CompareAndSetLong { current, new, reset } => if compare_holds(a, o, k) {
            compare_and_set(
                o,
                k,
                FieldValueOf::Long(new),
                reset,
                member,
                S2CCommandOf::SetLong(SetLongCommand { object_id, field_id: k, value: new }),
            )
        } else {
            (o, Ok(None))
        },
        FieldActionOf::CompareAndSetStructure { current, new, reset } => if compare_holds(a, o, k) {
            compare_and_set(
                o,
                k,
                FieldValueOf::Structure(new),
                reset,
                member,
                S2CCommandOf::SetStructure(SetStructureCommandOf { object_id, field_id: k, structure: new }),
            )
        } else {
            (o, Ok(None))
        },
        FieldActionOf::Event(b) => (o, Ok(Some(S2CCommandOf::Event(EventCommandOf { object_id, field_id: k, event: b })))),
        FieldActionOf::DeleteField(t) => (
            GameObjectModel { fields: swap_removed(o.fields, k), ..o },
            Ok(Some(S2CCommandOf::DeleteField(DeleteFieldCommand { object_id, field_id: k, field_type: t }))),
        ),
    }
}

pub(crate) fn bytes_equal(a: &Vec<u8>, b: &Vec<u8>) -> (r: bool)
    ensures
        r == (a@ == b@),
{
    if a.len() != b.len() {
        return false;
    }
    let mut i: usize = 0;
    while i < a.len()
        invariant
            a@.len() == b@.len(),
            i <= a@.len(),
            forall|j: int| 0 <= j < i ==> a@[j] == b@[j],
        decreases a@.len() - i,
    {
        if a[i] != b[i] {
            return false;
        }
        i = i + 1;
    }
    proof {
        assert(a@ == b@);
    }
    true
}

fn field_error(r: Result<(), GameObjectError>) -> (e: Result<(), ServerCommandError>)
    ensures
        match r {
            Ok(()) => e is Ok,
            Err(x) => e == Err::<(), ServerCommandError>(ServerCommandError::GameObjectError { error: x }),
        },
{
    match r {
        Ok(()) => Ok(()),
        Err(x) => Err(ServerCommandError::GameObjectError { error: x }),
    }
}

/// Carry out an action on a field of an object.
pub fn apply(
    action: &FieldAction,
    object: &mut GameObject,
    object_id: GameObjectId,
    field_id: FieldId,
    member: RoomMemberId,
) -> (r: Result<Option<S2CCommandOf<Vec<u8>>>, ServerCommandError>)
    requires
        old(object).wf(),
        action_types_ok(action@, old(object)@, field_id),
    ensures
        final(object).wf(),
        (final(object)@, action_result_view(r)) == apply_action(action@, old(object)@, object_id, field_id, member),
{
    match action {
        FieldActionOf::Nothing => Ok(None),
        FieldActionOf::Send(c) => Ok(Some(c.copy())),
        FieldActionOf::SetLong(v) => {
            field_error(object.set_long(field_id, *v))?;
            Ok(Some(S2CCommandOf::SetLong(SetLongCommand { object_id, field_id, value: *v })))
        },
        FieldActionOf::IncrementLong(inc) => {
            let value = match object.get_long(&field_id) {
                Some(value) => {
                    let value = *value;
                    match value.checked_add(*inc) {
                        None => value,
                        Some(result) => {
                            field_error(object.set_long(field_id, result))?;
                            result
                        },
                    }
                },
                None => {
                    field_error(object.set_long(field_id, *inc))?;
                    *inc
                },
            };
            Ok(Some(S2CCommandOf::SetLong(SetLongCommand { object_id, field_id, value })))
        },
        FieldActionOf::SetDouble(v) => {
            field_error(object.set_double(field_id, *v))?;
            Ok(Some(S2CCommandOf::SetDouble(SetDoubleCommand { object_id, field_id, value: *v })))
        },
        FieldActionOf::SetStructure(b) => {
            field_error(object.set_structure(field_id, b.as_slice()))?;
            Ok(Some(S2CCommandOf::SetStructure(SetStructureCommandOf { object_id, field_id, structure: copy_bytes(b) })))
        },
        FieldActionOf::CompareAndSetLong { current, new, reset } => {
            let allow = match object.get_long(&field_id) {
                None => true,
                Some(value) => *value == *current,
            };
            if allow {
                field_error(object.set_long(field_id, *new))?;
                if *reset {
                    field_error(object.set_compare_and_set_owner(field_id, member))?;
                }
                Ok(Some(S2CCommandOf::SetLong(SetLongCommand { object_id, field_id, value: *new })))
            } else {
                Ok(None)
            }
        },
        FieldActionOf::CompareAndSetStructure { current, new, reset } => {
            let allow = match object.get_structure(&field_id) {
                None => true,
                Some(value) => bytes_equal(value, current),
            };
            if allow {
                field_error(object.set_structure(field_id, new.as_slice()))?;
                if *reset {
                    field_error(object.set_compare_and_set_owner(field_id, member))?;
                }
                Ok(Some(S2CCommandOf::SetStructure(SetStructureCommandOf { object_id, field_id, structure: copy_bytes(new) })))
            } else {
                Ok(None)
            }
        },
        FieldActionOf::Event(b) => Ok(Some(S2CCommandOf::Event(EventCommandOf { object_id, field_id, event: copy_bytes(b) }))),
        FieldActionOf::DeleteField(t) => {
            object.delete_field(field_id);
            Ok(Some(S2CCommandOf::DeleteField(DeleteFieldCommand { object_id, field_id, field_type: *t })))
        },
    }
}

/// The member that owns an object, if a member does.
pub open spec fn member_owner(id: GameObjectId) -> Option<RoomMemberId> {
    match id.owner {
        GameObjectOwner::User(m) => Some(m),
        GameObjectOwner::Room => None,
    }
}

/// The member may act on the field: it owns the object, or has the permission.
pub open spec fn action_allowed(
    room: Room,
    o: GameObjectModel,
    field: Field,
    creator: RoomMemberId,
    groups: crate::types::AccessGroups,
    permission: Permission,
) -> bool {
    member_owner(o.id) == Some(creator) || permission_rank(
        permission_of(room.permission_manager.permissions.templates@, o.template_id, field, groups),
    ) >= permission_rank(permission)
}

/// The member, the object, its groups and the permission let the action run.
pub open spec fn action_runs(
    before: Room,
    object_id: GameObjectId,
    field: Field,
    creator: RoomMemberId,
    permission: Permission,
) -> bool {
    &&& has_member(before.members@, creator)
    &&& has_key(before.object_model(), object_id)
    &&& {
        let groups = before.members@[member_index_of(before.members@, creator)].template.groups;
        let o = lookup(before.object_model(), object_id)->0;
        &&& o.access_groups.spec_contains_any(groups)
        &&& action_allowed(before, o, field, creator, groups, permission)
    }
}

/// Nothing of the room changed.
pub open spec fn room_unchanged(after: Room, before: Room) -> bool {
    &&& same_settings(after, before)
    &&& after.objects == before.objects
    &&& after.members == before.members
    &&& after.out_commands == before.out_commands
    &&& after.command_trace_session == before.command_trace_session
}

/// What an action of a member does to a room, and its result: the checks of
/// the member, the object, its groups and the permission; the change of the
/// object; and the command sent, for a fully created object, to the target or
/// to the members that can see the object.
pub open spec fn action_done(
    before: Room,
    after: Room,
    object_id: GameObjectId,
    field: Field,
    creator: RoomMemberId,
    permission: Permission,
    target: Option<RoomMemberId>,
    action: SpecFieldAction,
    r: Result<(), ServerCommandError>,
) -> bool {
    if !has_member(before.members@, creator) {
        &&& r == Err::<(), ServerCommandError>(ServerCommandError::MemberNotFound(creator))
        &&& room_unchanged(after, before)
    } else if !has_key(before.object_model(), object_id) {
        &&& r == Err::<(), ServerCommandError>(ServerCommandError::GameObjectNotFound { object_id })
        &&& room_unchanged(after, before)
    } else {
        let groups = before.members@[member_index_of(before.members@, creator)].template.groups;
        let o = lookup(before.object_model(), object_id)->0;
        if !o.access_groups.spec_contains_any(groups) {
            &&& r == Err::<(), ServerCommandError>(
                ServerCommandError::MemberCannotAccessToObject {
                    room_id: before.id,
                    member_id: creator,
                    object_id,
                    member_access_group: groups,
                    object_access_group: o.access_groups,
                },
            )
            &&& room_unchanged(after, before)
        } else if !action_allowed(before, o, field, creator, groups, permission) {
            &&& r is Ok
            &&& room_unchanged(after, before)
        } else {
            let (o2, res) = apply_action(action, o, object_id, field.id, creator);
            &&& same_settings(after, before)
            &&& after.object_model() == before.object_model().update(index_of(before.object_model(), object_id), (object_id, o2))
            &&& match res {
                Err(e) => {
                    &&& r == Err::<(), ServerCommandError>(e)
                    &&& after.members == before.members
                    &&& after.out_commands == before.out_commands
                    &&& after.command_trace_session == before.command_trace_session
                },
                Ok(c) => if o2.created && c is Some {
                    let cs = seq![S2CCommandWithFieldInfoOf { field: Some(field), command: c->0 }];
                    let ts = before.permission_manager.permissions.templates@;
                    let channel = channel_or_default(before.current_channel);
                    let from = creator_or_relay(before.current_member_id);
                    &&& same_sessions(after.command_trace_session.view(), before.command_trace_session.view())
                    &&& match target {
                        Some(t) => {
                            &&& after.out_commands == before.out_commands
                            &&& if has_member(before.members@, t) {
                                &&& r is Ok
                                &&& members_after_send_to(before.members@, after.members@, t, ts, o2.template_id, cs, channel, from)
                            } else {
                                &&& r == Err::<(), ServerCommandError>(ServerCommandError::MemberNotFound(t))
                                &&& after.members == before.members
                            }
                        },
                        None => {
                            &&& r is Ok
                            &&& members_after_send(
                                before.members@,
                                after.members@,
                                o2.access_groups,
                                o2.template_id,
                                cs,
                                MemberFilter::OwnerIfWritable { owner: member_owner(o2.id), field },
                                ts,
                                channel,
                                from,
                            )
                            &&& log_view(after.out_commands@) == pushed_front(before.record_sent, log_view(before.out_commands@), o2.access_groups, cs)
                        },
                    }
                } else {
                    &&& r is Ok
                    &&& after.members == before.members
                    &&& after.out_commands == before.out_commands
                    &&& after.command_trace_session == before.command_trace_session
                },
            }
        }
    }
}

/// The object stored under an identifier has that identifier.
proof fn lemma_stored_object_id(room: Room, object_id: GameObjectId)
    requires
        room.wf(),
        has_key(room.object_model(), object_id),
    ensures
        (lookup(room.object_model(), object_id)->0).id == object_id,
        room.object_model()[index_of(room.object_model(), object_id)] == (object_id, lookup(room.object_model(), object_id)->0),
{
    let s = room.object_model();
    let i = index_of(s, object_id);
    assert(s[i].0 == object_id);
    assert(s[i].1.id == s[i].0);
}

/// A member outside the object's groups cannot act on it: the action is
/// refused and the room does not change.
pub proof fn law_outsider_cannot_act(
    before: Room,
    after: Room,
    object_id: GameObjectId,
    field: Field,
    creator: RoomMemberId,
    permission: Permission,
    target: Option<RoomMemberId>,
    action: SpecFieldAction,
    r: Result<(), ServerCommandError>,
)
    requires
        action_done(before, after, object_id, field, creator, permission, target, action, r),
        has_member(before.members@, creator),
        has_key(before.object_model(), object_id),
        !(lookup(before.object_model(), object_id)->0).access_groups.spec_contains_any(
            before.members@[member_index_of(before.members@, creator)].template.groups,
        ),
    ensures
        r is Err,
        room_unchanged(after, before),
{
}

/// An action on an object that is not fully created tells nobody: the
/// members and the record of sent commands stay as they were.
pub proof fn law_uncreated_object_tells_nobody(
    before: Room,
    after: Room,
    object_id: GameObjectId,
    field: Field,
    creator: RoomMemberId,
    permission: Permission,
    target: Option<RoomMemberId>,
    action: SpecFieldAction,
    r: Result<(), ServerCommandError>,
)
    requires
        action_done(before, after, object_id, field, creator, permission, target, action, r),
        has_key(before.object_model(), object_id),
        !(lookup(before.object_model(), object_id)->0).created,
    ensures
        after.members == before.members,
        after.out_commands == before.out_commands,
{
    let o = lookup(before.object_model(), object_id)->0;
    assert(!apply_action(action, o, object_id, field.id, creator).0.created);
}

/// The owner of an object may act on any of its fields, whatever permission
/// the action asks for: a member of the object's groups that owns it sees the
/// action carried out on the object.
pub proof fn law_owner_may_act(
    before: Room,
    after: Room,
    object_id: GameObjectId,
    field: Field,
    creator: RoomMemberId,
    permission: Permission,
    target: Option<RoomMemberId>,
    action: SpecFieldAction,
    r: Result<(), ServerCommandError>,
)
    requires
        before.wf(),
        action_done(before, after, object_id, field, creator, permission, target, action, r),
        has_member(before.members@, creator),
        has_key(before.object_model(), object_id),
        member_owner(object_id) == Some(creator),
        (lookup(before.object_model(), object_id)->0).access_groups.spec_contains_any(
            before.members@[member_index_of(before.members@, creator)].template.groups,
        ),
    ensures
        action_runs(before, object_id, field, creator, permission),
        after.object_model() == before.object_model().update(
            index_of(before.object_model(), object_id),
            (object_id, apply_action(action, lookup(before.object_model(), object_id)->0, object_id, field.id, creator).0),
        ),
{
    lemma_stored_object_id(before, object_id);
}

impl Room {
    /// Check that the member can act on the field of the object, carry out the
    /// action, and send its command: to the target, or else to the members that
    /// can see the object (the owner only if someone else can write the field).
    pub fn do_action_and_send_commands(
        &mut self,
        game_object_id: &GameObjectId,
        field: Field,
        creator_id: RoomMemberId,
        permission: Permission,
        target: Option<RoomMemberId>,
        action: &FieldAction,
    ) -> (r: Result<(), ServerCommandError>)
        requires
            old(self).wf(),
            action_runs(*old(self), *game_object_id, field, creator_id, permission) ==> action_types_ok(
                action@,
                lookup(old(self).object_model(), *game_object_id)->0,
                field.id,
            ),
        ensures
            final(self).wf(),
            final(self).command_trace_session.session_id_generator == old(self).command_trace_session.session_id_generator,
            action_done(*old(self), *final(self), *game_object_id, field, creator_id, permission, target, action@, r),
    {
        self.do_action_and_tell(game_object_id, field, creator_id, permission, target, action).0
    }

    /// Whether an action of the member on the field of the object would run:
    /// the member and the object exist, they share a group, and the member owns
    /// the object or has the permission on the field.
    pub fn action_would_run(
        &self,
        game_object_id: &GameObjectId,
        field: Field,
        creator_id: RoomMemberId,
        permission: Permission,
    ) -> (r: bool)
        requires
            self.wf(),
        ensures
            r == action_runs(*self, *game_object_id, field, creator_id, permission),
    {
        let groups = match self.member_index(creator_id) {
            None => return false,
            Some(i) => self.members[i].template.groups,
        };
        match objects_get(&self.objects, game_object_id) {
            None => false,
            Some(object) => {
                let is_owner = match object.id.owner {
                    GameObjectOwner::User(m) => m == creator_id,
                    GameObjectOwner::Room => false,
                };
                object.access_groups.contains_any(&groups) && (is_owner || permission_at_least(
                    self.permission_manager.get_permission(object.template_id, field, groups),
                    permission,
                ))
            },
        }
    }

    /// As `do_action_and_send_commands`, telling also whether the action ran.
    ///
    /// Check that the member can act on the field of the object, carry out the
    /// action, and send its command: to the target, or else to the members that
    /// can see the object (the owner only if someone else can write the field).
    pub(crate) fn do_action_and_tell(
        &mut self,
        game_object_id: &GameObjectId,
        field: Field,
        creator_id: RoomMemberId,
        permission: Permission,
        target: Option<RoomMemberId>,
        action: &FieldAction,
    ) -> (out: (Result<(), ServerCommandError>, bool))
        requires
            old(self).wf(),
            action_runs(*old(self), *game_object_id, field, creator_id, permission) ==> action_types_ok(
                action@,
                lookup(old(self).object_model(), *game_object_id)->0,
                field.id,
            ),
        ensures
            final(self).wf(),
            final(self).command_trace_session.session_id_generator == old(self).command_trace_session.session_id_generator,
            action_done(*old(self), *final(self), *game_object_id, field, creator_id, permission, target, action@, out.0),
            out.1 == action_runs(*old(self), *game_object_id, field, creator_id, permission),
    {
        let groups = match self.member_index(creator_id) {
            None => return (Err(ServerCommandError::MemberNotFound(creator_id)), false),
            Some(i) => self.members[i].template.groups,
        };
        let (object_groups, template, owner) = match objects_get(&self.objects, game_object_id) {
            None => return (Err(ServerCommandError::GameObjectNotFound { object_id: *game_object_id }), false),
            Some(object) => {
                let owner = match object.id.owner {
                    GameObjectOwner::User(m) => Some(m),
                    GameObjectOwner::Room => None,
                };
                (object.access_groups, object.template_id, owner)
            },
        };
        if !object_groups.contains_any(&groups) {
            return (
                Err(
                    ServerCommandError::MemberCannotAccessToObject {
                        room_id: self.id,
                        member_id: creator_id,
                        object_id: *game_object_id,
                        member_access_group: groups,
                        object_access_group: object_groups,
                    },
                ),
                false,
            );
        }
        let is_owner = match owner {
            Some(o) => o == creator_id,
            None => false,
        };
        let allow = is_owner || permission_at_least(self.permission_manager.get_permission(template, field, groups), permission);
        if !allow {
            return (Ok(()), false);
        }
        let ghost objects0 = self.object_model();
        let object = objects_get_mut(&mut self.objects, game_object_id);
        let result = apply(action, object, *game_object_id, field.id, creator_id);
        let ghost o2 = object@;
        proof {
            lemma_objects_updated(objects0, *game_object_id, o2);
        }
        let command = match result {
            Err(e) => return (Err(e), true),
            Ok(c) => c,
        };
        let created = match objects_get(&self.objects, game_object_id) {
            Some(object) => object.created,
            None => false,
        };
        if created {
            if let Some(command) = command {
                let mut commands: Vec<S2CCommandWithFieldInfoOf<Vec<u8>>> = Vec::new();
                commands.push(S2CCommandWithFieldInfoOf { field: Some(field), command });
                proof {
                    assert(commands_view(commands@) == seq![S2CCommandWithFieldInfoOf { field: Some(field), command: command@ }]);
                }
                match target {
                    Some(t) => {
                        let sent = self.send_to_member(&t, template, commands.as_slice());
                        if let Err(e) = sent {
                            return (Err(e), true);
                        }
                    },
                    None => {
                        self.send_to_members(
                            object_groups,
                            template,
                            commands.as_slice(),
                            MemberFilter::OwnerIfWritable { owner, field },
                        );
                    },
                }
            }
        }
        (Ok(()), true)
    }
}

/// Incrementing a long field adds the increment, negative or not: a field
/// that holds `v` holds `v + inc` afterwards when that fits in 64 bits, and
/// the new value is what is sent; on overflow the field keeps `v`, which is
/// sent back. A missing field takes the increment. Other fields keep their values.
pub proof fn law_increment_long_adds(
    o: GameObjectModel,
    object_id: GameObjectId,
    k: FieldId,
    member: RoomMemberId,
    inc: i64,
)
    requires
        object_wf(o),
        holds_long_or_none(o.fields, k),
        lookup(o.fields, k) is None ==> o.fields.len() < FIELD_CAPACITY,
    ensures
        ({
            let (o2, res) = apply_action(FieldActionOf::IncrementLong(inc), o, object_id, k, member);
            let expected: int = match lookup(o.fields, k) {
                Some(FieldValueOf::Long(v)) => v + inc,
                _ => inc as int,
            };
            &&& i64::MIN <= expected <= i64::MAX ==> {
                &&& lookup(o2.fields, k) == Some(FieldValueOf::<Seq<u8>>::Long(expected as i64))
                &&& res == Ok::<Option<SpecS2CCommand>, ServerCommandError>(
                    Some(S2CCommandOf::SetLong(SetLongCommand { object_id, field_id: k, value: expected as i64 })),
                )
            }
            &&& !(i64::MIN <= expected <= i64::MAX) ==> {
                &&& o2 == o
                &&& lookup(o.fields, k) matches Some(FieldValueOf::Long(v)) && res == Ok::<
                    Option<SpecS2CCommand>,
                    ServerCommandError,
                >(Some(S2CCommandOf::SetLong(SetLongCommand { object_id, field_id: k, value: v })))
            }
            &&& forall|k2: FieldId| k2 != k ==> #[trigger] lookup(o2.fields, k2) == lookup(o.fields, k2)
        }),
{
    crate::room::maps::lemma_inserted(o.fields, k, FieldValueOf::Long(inc));
    if let Some(FieldValueOf::Long(v)) = lookup(o.fields, k) {
        if i64::MIN <= v + inc <= i64::MAX {
            crate::room::maps::lemma_inserted(o.fields, k, FieldValueOf::Long((v + inc) as i64));
        }
    }
}

/// A compare-and-set of a structure field compares bytes: a field that holds
/// bytes other than `current` (even of the same length) is left as it is and
/// nothing is sent; a field that holds exactly `current`, or nothing, takes
/// `new`, which is sent.
pub proof fn law_structure_compare_is_bytewise(
    o: GameObjectModel,
    object_id: GameObjectId,
    k: FieldId,
    member: RoomMemberId,
    current: Seq<u8>,
    new: Seq<u8>,
    reset: bool,
)
    requires
        object_wf(o),
        can_set(o.fields, k),
        reset ==> has_key(o.owners, k) || o.owners.len() < MAX_FIELD_COUNT,
    ensures
        ({
            let (o2, res) = apply_action(
                FieldActionOf::CompareAndSetStructure { current, new, reset },
                o,
                object_id,
                k,
                member,
            );
            &&& (lookup(o.fields, k) matches Some(FieldValueOf::Structure(b)) && b != current) ==> o2 == o && res
                == Ok::<Option<SpecS2CCommand>, ServerCommandError>(None)
            &&& (lookup(o.fields, k) is None || lookup(o.fields, k) == Some(FieldValueOf::<Seq<u8>>::Structure(current)))
                ==> {
                &&& lookup(o2.fields, k) == Some(FieldValueOf::<Seq<u8>>::Structure(new))
                &&& res == Ok::<Option<SpecS2CCommand>, ServerCommandError>(
                    Some(S2CCommandOf::SetStructure(SetStructureCommandOf { object_id, field_id: k, structure: new })),
                )
            }
        }),
{
    crate::room::maps::lemma_inserted(o.fields, k, FieldValueOf::Structure(new));
    if let Some(FieldValueOf::Structure(b)) = lookup(o.fields, k) {
        if b != current {
            assert(FieldValueOf::<Seq<u8>>::Structure(b) != FieldValueOf::<Seq<u8>>::Structure(current));
        }
    }
}

} // verus!
