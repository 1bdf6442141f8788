//! Events on fields of objects, to all members or to one.
use vstd::prelude::*;

use crate::commands::{copy_bytes, EventCommand, TargetEventCommand};
use crate::room::action::{action_done, FieldActionOf};
use crate::room::command::{ServerCommandError, ServerCommandExecutor};
use crate::room::template::Permission;
use crate::room::Room;
use crate::types::{Field, FieldType, RoomMemberId};

verus! {

impl ServerCommandExecutor for EventCommand {
    open spec fn reads_fit(&self, room: Room, member_id: RoomMemberId) -> bool {
        true
    }

    /// Send the event to the members that can see the object, if the member may write the field.
    fn execute(&self, room: &mut Room, member_id: RoomMemberId) -> (r: Result<(), ServerCommandError>)
        ensures
            final(room).wf(),
            action_done(
                *old(room),
                *final(room),
                self.object_id,
                Field { id: self.field_id, field_type: FieldType::Event },
                member_id,
                Permission::Rw,
                None,
                FieldActionOf::Event(self.event@),
                r,
            ),
    {
        let action = FieldActionOf::Event(copy_bytes(&self.event));
        room.do_action_and_send_commands(
            &self.object_id,
            Field { id: self.field_id, field_type: FieldType::Event },
            member_id,
            Permission::Rw,
            None,
            &action,
        )
    }
}

impl ServerCommandExecutor for TargetEventCommand {
    open spec fn reads_fit(&self, room: Room, member_id: RoomMemberId) -> bool {
        true
    }

    /// Send the event to the target member, if the member may write the field.
    fn execute(&self, room: &mut Room, member_id: RoomMemberId) -> (r: Result<(), ServerCommandError>)
        ensures
            final(room).wf(),
            action_done(
                *old(room),
                *final(room),
                self.event.object_id,
                Field { id: self.event.field_id, field_type: FieldType::Event },
                member_id,
                Permission::Rw,
                Some(self.target),
                FieldActionOf::Event(self.event.event@),
                r,
            ),
    {
        let action = FieldActionOf::Event(copy_bytes(&self.event.event));
        room.do_action_and_send_commands(
            &self.event.object_id,
            Field { id: self.event.field_id, field_type: FieldType::Event },
            member_id,
            Permission::Rw,
            Some(self.target),
            &action,
        )
    }
}

} // verus!
