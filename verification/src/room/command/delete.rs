//! Deleting game objects.
use vstd::prelude::*;

use crate::commands::DeleteGameObjectCommand;
use crate::room::command::{ServerCommandError, ServerCommandExecutor};
use crate::room::maps::has_key;
use crate::room::{deletion_applied, Room};
use crate::types::RoomMemberId;

verus! {

impl ServerCommandExecutor for DeleteGameObjectCommand {
    open spec fn reads_fit(&self, room: Room, member_id: RoomMemberId) -> bool {
        true
    }

    /// Remove the object and tell the members that can see it.
    fn execute(&self, room: &mut Room, member_id: RoomMemberId) -> (r: Result<(), ServerCommandError>)
        ensures
            final(room).wf(),
            deletion_applied(*old(room), *final(room), self.object_id),
            r is Ok <==> has_key(old(room).object_model(), self.object_id),
            r is Err ==> r == Err::<(), ServerCommandError>(ServerCommandError::GameObjectNotFound { object_id: self.object_id }),
    {
        match room.delete_object(&self.object_id) {
            Ok(_) => Ok(()),
            Err(e) => Err(e),
        }
    }
}

} // verus!
