//! Setting structure fields.
use vstd::prelude::*;

use crate::commands::{copy_bytes, SetStructureCommand};
use crate::room::action::{action_done, FieldActionOf};
use crate::room::command::{ServerCommandError, ServerCommandExecutor, ValueKind, field_fits};
use crate::room::maps::{has_key, lookup};
use crate::room::object::holds_structure_or_none;
use crate::room::template::Permission;
use crate::room::Room;
use crate::types::{Field, FieldType, RoomMemberId};

verus! {

impl ServerCommandExecutor for SetStructureCommand {
    open spec fn reads_fit(&self, room: Room, member_id: RoomMemberId) -> bool {
        field_fits(room, self.object_id, self.field_id, ValueKind::Structure, member_id)
    }

    /// Set the field, if the member may write it, and send the new value.
    fn execute(&self, room: &mut Room, member_id: RoomMemberId) -> (r: Result<(), ServerCommandError>)
        ensures
            final(room).wf(),
            action_done(
                *old(room),
                *final(room),
                self.object_id,
                Field { id: self.field_id, field_type: FieldType::Structure },
                member_id,
                Permission::Rw,
                None,
                FieldActionOf::SetStructure(self.structure@),
                r,
            ),
    {
        let action = FieldActionOf::SetStructure(copy_bytes(&self.structure));
        room.do_action_and_send_commands(
            &self.object_id,
            Field { id: self.field_id, field_type: FieldType::Structure },
            member_id,
            Permission::Rw,
            None,
            &action,
        )
    }
}

} // verus!
