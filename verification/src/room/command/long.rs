//! Setting and incrementing long fields.
use vstd::prelude::*;

use crate::commands::{IncrementLongCommand, SetLongCommand};
use crate::room::action::{action_done, FieldActionOf};
use crate::room::command::{ServerCommandError, ServerCommandExecutor, ValueKind, field_fits};
use crate::room::maps::{has_key, lookup};
use crate::room::object::holds_long_or_none;
use crate::room::template::Permission;
use crate::room::Room;
use crate::types::{Field, FieldType, RoomMemberId};

verus! {

impl ServerCommandExecutor for SetLongCommand {
    open spec fn reads_fit(&self, room: Room, member_id: RoomMemberId) -> bool {
        true
    }

    /// Set the field, if the member may write it, and send the new value.
    fn execute(&self, room: &mut Room, member_id: RoomMemberId) -> (r: Result<(), ServerCommandError>)
        ensures
            final(room).wf(),
            action_done(
                *old(room),
                *final(room),
                self.object_id,
                Field { id: self.field_id, field_type: FieldType::Long },
                member_id,
                Permission::Rw,
                None,
                FieldActionOf::SetLong(self.value),
                r,
            ),
    {
        let action = FieldActionOf::SetLong(self.value);
        room.do_action_and_send_commands(
            &self.object_id,
            Field { id: self.field_id, field_type: FieldType::Long },
            member_id,
            Permission::Rw,
            None,
            &action,
        )
    }
}

impl ServerCommandExecutor for IncrementLongCommand {
    open spec fn reads_fit(&self, room: Room, member_id: RoomMemberId) -> bool {
        field_fits(room, self.object_id, self.field_id, ValueKind::Long, member_id)
    }

    /// Add to the field (a missing field counts as 0), if the member may write
    /// it, and send the new value; on overflow the field keeps its value.
    fn execute(&self, room: &mut Room, member_id: RoomMemberId) -> (r: Result<(), ServerCommandError>)
        ensures
            final(room).wf(),
            action_done(
                *old(room),
                *final(room),
                self.object_id,
                Field { id: self.field_id, field_type: FieldType::Long },
                member_id,
                Permission::Rw,
                None,
                FieldActionOf::IncrementLong(self.increment),
                r,
            ),
    {
        let action = FieldActionOf::IncrementLong(self.increment);
        room.do_action_and_send_commands(
            &self.object_id,
            Field { id: self.field_id, field_type: FieldType::Long },
            member_id,
            Permission::Rw,
            None,
            &action,
        )
    }
}

} // verus!
