//! Commands of members, executed by the room.
pub mod compare_and_set;
pub mod create;
pub mod created;
pub mod delete;
pub mod double;
pub mod event;
pub mod field;
pub mod long;
pub mod room;
pub mod structure;

use vstd::prelude::*;

use crate::commands::{C2SCommand, C2SCommandOf};
use crate::commands::option_bytes_view;
use crate::room::action::{action_done, action_runs, room_unchanged, FieldActionOf};
use crate::room::command::compare_and_set::compare_and_set_done;
use crate::room::command::create::creation_done;
use crate::room::command::created::creation_finished;
use crate::room::command::double::current_double;
use crate::room::command::room::{attach_done, attach_to_room, detach_done, detach_from_room};
use crate::room::maps::{has_key, lookup};
use crate::room::member::ResetValueOf;
use crate::room::object::{holds_double_or_none, holds_long_or_none, holds_structure_or_none, GameObjectError};
use crate::room::objects::objects_get;
use crate::room::template::Permission;
use crate::room::{deletion_applied, Room};
use crate::types::{AccessGroups, Field, FieldId, FieldType, GameObjectId, GameObjectTemplateId, RoomId, RoomMemberId};

verus! {

/// A command of a member that the room executes.
pub trait ServerCommandExecutor {
    /// The fields that the command reads hold values of the types it reads.
    spec fn reads_fit(&self, room: Room, member_id: RoomMemberId) -> bool;

    /// Execute the command of the member on the room.
    fn execute(&self, room: &mut Room, member_id: RoomMemberId) -> (r: Result<(), ServerCommandError>)
        requires
            old(room).wf(),
            self.reads_fit(*old(room), member_id),
        ensures
            final(room).wf(),
    ;
}

/// Error of a command executed by the room.
#[derive(Debug)]
pub enum ServerCommandError {
    Error(String),
    GameObjectError { error: GameObjectError },
    MemberNotOwnerGameObject { object_id: GameObjectId, member_id: RoomMemberId },
    MemberNotFound(RoomMemberId),
    MemberCannotAccessToObject {
        room_id: RoomId,
        member_id: RoomMemberId,
        object_id: GameObjectId,
        member_access_group: AccessGroups,
        object_access_group: AccessGroups,
    },
    MemberCannotAccessToObjectField {
        room_id: RoomId,
        member_id: RoomMemberId,
        object_id: GameObjectId,
        template_id: GameObjectTemplateId,
        field: Field,
    },
    GameObjectNotFound { object_id: GameObjectId },
}

impl ServerCommandError {
    pub fn from_object_error(error: GameObjectError) -> (r: ServerCommandError)
        ensures
            r == (ServerCommandError::GameObjectError { error }),
    {
        ServerCommandError::GameObjectError { error }
    }
}

/// Type of value that a command reads from a field.
#[derive(Clone, Copy, Debug, PartialEq, Eq, Structural)]
pub enum ValueKind {
    Long,
    Double,
    Structure,
}

/// The field that a command of the kind acts on.
pub open spec fn kind_field(field_id: FieldId, kind: ValueKind) -> Field {
    Field {
        id: field_id,
        field_type: match kind {
            ValueKind::Long => FieldType::Long,
            ValueKind::Double => FieldType::Double,
            ValueKind::Structure => FieldType::Structure,
        },
    }
}

/// Where the member's action on the field of the object would run, the
/// field holds a value of the kind or nothing.
pub open spec fn field_fits(
    room: Room,
    object_id: GameObjectId,
    field_id: FieldId,
    kind: ValueKind,
    member_id: RoomMemberId,
) -> bool {
    action_runs(room, object_id, kind_field(field_id, kind), member_id, Permission::Rw) ==> {
        let fields = lookup(room.object_model(), object_id)->0.fields;
        match kind {
            ValueKind::Long => holds_long_or_none(fields, field_id),
            ValueKind::Double => holds_double_or_none(fields, field_id),
            ValueKind::Structure => holds_structure_or_none(fields, field_id),
        }
    }
}

/// The command of the member, where it runs, reads fields only as the type they hold.
pub open spec fn command_fits(room: Room, c: C2SCommand, member_id: RoomMemberId) -> bool {
    match c {
        C2SCommandOf::IncrementLongValue(x) => field_fits(room, x.object_id, x.field_id, ValueKind::Long, member_id),
        C2SCommandOf::CompareAndSetLong(x) => field_fits(room, x.object_id, x.field_id, ValueKind::Long, member_id),
        C2SCommandOf::IncrementDouble(x) => field_fits(room, x.object_id, x.field_id, ValueKind::Double, member_id),
        C2SCommandOf::SetStructure(x) => field_fits(room, x.object_id, x.field_id, ValueKind::Structure, member_id),
        C2SCommandOf::CompareAndSetStructure(x) => field_fits(room, x.object_id, x.field_id, ValueKind::Structure, member_id),
        _ => true,
    }
}

/// Whether the field of the object fits a kind of value, where the member's
/// action on it would run.
pub fn fits(room: &Room, object_id: &GameObjectId, field_id: FieldId, kind: ValueKind, member_id: RoomMemberId) -> (r: bool)
    requires
        room.wf(),
    ensures
        r == field_fits(*room, *object_id, field_id, kind, member_id),
{
    let field = Field {
        id: field_id,
        field_type: match kind {
            ValueKind::Long => FieldType::Long,
            ValueKind::Double => FieldType::Double,
            ValueKind::Structure => FieldType::Structure,
        },
    };
    if !room.action_would_run(object_id, field, member_id, Permission::Rw) {
        return true;
    }
    match objects_get(&room.objects, object_id) {
        None => true,
        Some(object) => match object.field(&field_id) {
            None => true,
            Some(v) => match (kind, v) {
                (ValueKind::Long, crate::room::field::FieldValueOf::Long(_)) => true,
                (ValueKind::Double, crate::room::field::FieldValueOf::Double(_)) => true,
                (ValueKind::Structure, crate::room::field::FieldValueOf::Structure(_)) => true,
                _ => false,
            },
        },
    }
}

/// What a command of a member does to the room, as its own `execute` states;
/// a command that would read a field as a type it does not hold is refused.
pub open spec fn executed<F: Fn(u64, u64) -> u64>(
    before: Room,
    after: Room,
    c: C2SCommand,
    member_id: RoomMemberId,
    sum: F,
    r: Result<(), ServerCommandError>,
) -> bool {
    if !command_fits(before, c, member_id) {
        &&& r matches Err(ServerCommandError::Error(_))
        &&& room_unchanged(after, before)
    } else {
        match c {
            C2SCommandOf::Create(x) => creation_done(before, after, x, member_id, r),
            C2SCommandOf::Created(x) => creation_finished(before, after, x, member_id, r),
            C2SCommandOf::SetLong(x) => action_done(
                before,
                after,
                x.object_id,
                Field { id: x.field_id, field_type: FieldType::Long },
                member_id,
                Permission::Rw,
                None,
                FieldActionOf::SetLong(x.value),
                r,
            ),
            C2SCommandOf::IncrementLongValue(x) => action_done(
                before,
                after,
                x.object_id,
                Field { id: x.field_id, field_type: FieldType::Long },
                member_id,
                Permission::Rw,
                None,
                FieldActionOf::IncrementLong(x.increment),
                r,
            ),
            C2SCommandOf::CompareAndSetLong(x) => compare_and_set_done(
                before,
                after,
                x.object_id,
                Field { id: x.field_id, field_type: FieldType::Long },
                member_id,
                FieldActionOf::CompareAndSetLong { current: x.current, new: x.new, reset: x.reset is Some },
                match x.reset {
                    Some(v) => Some(ResetValueOf::Long(v)),
                    None => None,
                },
                r,
            ),
            C2SCommandOf::SetDouble(x) => action_done(
                before,
                after,
                x.object_id,
                Field { id: x.field_id, field_type: FieldType::Double },
                member_id,
                Permission::Rw,
                None,
                FieldActionOf::SetDouble(x.value),
                r,
            ),
            C2SCommandOf::IncrementDouble(x) => exists|value: u64|
                {
                    &&& match current_double(before, x) {
                        Some(v) => sum.ensures((v, x.increment), value),
                        None => value == x.increment,
                    }
                    &&& action_done(
                        before,
                        after,
                        x.object_id,
                        Field { id: x.field_id, field_type: FieldType::Double },
                        member_id,
                        Permission::Rw,
                        None,
                        FieldActionOf::SetDouble(value),
                        r,
                    )
                },
            C2SCommandOf::SetStructure(x) => action_done(
                before,
                after,
                x.object_id,
                Field { id: x.field_id, field_type: FieldType::Structure },
                member_id,
                Permission::Rw,
                None,
                FieldActionOf::SetStructure(x.structure@),
                r,
            ),
            C2SCommandOf::CompareAndSetStructure(x) => compare_and_set_done(
                before,
                after,
                x.object_id,
                Field { id: x.field_id, field_type: FieldType::Structure },
                member_id,
                FieldActionOf::CompareAndSetStructure { current: x.current@, new: x.new@, reset: x.reset is Some },
                match option_bytes_view(x.reset) {
                    Some(v) => Some(ResetValueOf::Structure(v)),
                    None => None,
                },
                r,
            ),
            C2SCommandOf::Event(x) => action_done(
                before,
                after,
                x.object_id,
                Field { id: x.field_id, field_type: FieldType::Event },
                member_id,
                Permission::Rw,
                None,
                FieldActionOf::Event(x.event@),
                r,
            ),
            C2SCommandOf::TargetEvent(x) => action_done(
                before,
                after,
                x.event.object_id,
                Field { id: x.event.field_id, field_type: FieldType::Event },
                member_id,
                Permission::Rw,
                Some(x.target),
                FieldActionOf::Event(x.event.event@),
                r,
            ),
            C2SCommandOf::Delete(x) => {
                &&& deletion_applied(before, after, x.object_id)
                &&& (r is Ok <==> has_key(before.object_model(), x.object_id))
                &&& r is Err ==> r == Err::<(), ServerCommandError>(ServerCommandError::GameObjectNotFound { object_id: x.object_id })
            },
            C2SCommandOf::AttachToRoom => attach_done(before, after, member_id, r),
            C2SCommandOf::DetachFromRoom => detach_done(before, after, member_id, r),
            C2SCommandOf::DeleteField(x) => action_done(
                before,
                after,
                x.object_id,
                Field { id: x.field_id, field_type: x.field_type },
                member_id,
                Permission::Rw,
                None,
                FieldActionOf::DeleteField(x.field_type),
                r,
            ),
        }
    }
}

/// Execute a command of a member; `sum` adds two doubles given by their bit
/// patterns. A command that would read a field as a type it does not hold is
/// refused.
pub fn execute<F: Fn(u64, u64) -> u64>(command: &C2SCommand, room: &mut Room, member_id: RoomMemberId, sum: &F) -> (r: Result<(), ServerCommandError>)
    requires
        old(room).wf(),
        forall|a: u64, b: u64| sum.requires((a, b)),
    ensures
        final(room).wf(),
        executed(*old(room), *final(room), *command, member_id, *sum, r),
        final(room).id == old(room).id,
{
    let ok = match command {
        C2SCommandOf::IncrementLongValue(x) => fits(room, &x.object_id, x.field_id, ValueKind::Long, member_id),
        C2SCommandOf::CompareAndSetLong(x) => fits(room, &x.object_id, x.field_id, ValueKind::Long, member_id),
        C2SCommandOf::IncrementDouble(x) => fits(room, &x.object_id, x.field_id, ValueKind::Double, member_id),
        C2SCommandOf::SetStructure(x) => fits(room, &x.object_id, x.field_id, ValueKind::Structure, member_id),
        C2SCommandOf::CompareAndSetStructure(x) => fits(room, &x.object_id, x.field_id, ValueKind::Structure, member_id),
        _ => true,
    };
    if !ok {
        return Err(ServerCommandError::Error("The field holds a value of another type".to_owned()));
    }
    match command {
        C2SCommandOf::Create(c) => c.execute(room, member_id),
        C2SCommandOf::Created(c) => c.execute(room, member_id),
        C2SCommandOf::SetLong(c) => c.execute(room, member_id),
        C2SCommandOf::IncrementLongValue(c) => c.execute(room, member_id),
        C2SCommandOf::CompareAndSetLong(c) => c.execute(room, member_id),
        C2SCommandOf::SetDouble(c) => c.execute(room, member_id),
        C2SCommandOf::IncrementDouble(c) => c.execute(room, member_id, sum),
        C2SCommandOf::SetStructure(c) => c.execute(room, member_id),
        C2SCommandOf::CompareAndSetStructure(c) => c.execute(room, member_id),
        C2SCommandOf::Event(c) => c.execute(room, member_id),
        C2SCommandOf::TargetEvent(c) => c.execute(room, member_id),
        C2SCommandOf::Delete(c) => c.execute(room, member_id),
        C2SCommandOf::AttachToRoom => attach_to_room(room, member_id),
        C2SCommandOf::DetachFromRoom => detach_from_room(room, member_id),
        C2SCommandOf::DeleteField(c) => c.execute(room, member_id),
    }
}

} // verus!
