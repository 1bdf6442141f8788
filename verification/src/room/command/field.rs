//! Deleting fields of objects.
use vstd::prelude::*;

use crate::commands::DeleteFieldCommand;
use crate::room::action::{action_done, FieldActionOf};
use crate::room::command::{ServerCommandError, ServerCommandExecutor};
use crate::room::template::Permission;
use crate::room::Room;
use crate::types::{Field, RoomMemberId};

verus! {

impl ServerCommandExecutor for DeleteFieldCommand {
    open spec fn reads_fit(&self, room: Room, member_id: RoomMemberId) -> bool {
        true
    }

    /// Remove the field, if the member may write it, and send the deletion.
    fn execute(&self, room: &mut Room, member_id: RoomMemberId) -> (r: Result<(), ServerCommandError>)
        ensures
            final(room).wf(),
            action_done(
                *old(room),
                *final(room),
                self.object_id,
                Field { id: self.field_id, field_type: self.field_type },
                member_id,
                Permission::Rw,
                None,
                FieldActionOf::DeleteField(self.field_type),
                r,
            ),
    {
        let action = FieldActionOf::DeleteField(self.field_type);
        room.do_action_and_send_commands(
            &self.object_id,
            Field { id: self.field_id, field_type: self.field_type },
            member_id,
            Permission::Rw,
            None,
            &action,
        )
    }
}

} // verus!
