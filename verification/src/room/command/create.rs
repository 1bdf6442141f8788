//! Creating game objects of members.
use vstd::prelude::*;

use crate::commands::CreateGameObjectCommand;
use crate::room::action::room_unchanged;
use crate::room::command::{ServerCommandError, ServerCommandExecutor};
use crate::room::field::SpecFieldValue;
use crate::room::maps::has_key;
use crate::room::object::{GameObject, GameObjectModel};
use crate::room::{has_member, member_index_of, same_settings, Room};
use crate::types::{FieldId, GameObjectOwner, RoomMemberId};

verus! {

/// The object that a creation command makes: empty, not yet fully created.
pub open spec fn created_object(c: CreateGameObjectCommand) -> GameObjectModel {
    GameObjectModel {
        id: c.object_id,
        template_id: c.template,
        access_groups: c.access_groups,
        created: false,
        fields: Seq::empty(),
        owners: Seq::empty(),
    }
}

/// What a creation command of a member does: an object of the member, with a
/// non-zero number, in groups of the member, owned by the room or by the
/// member and not already existing, goes last among the objects.
pub open spec fn creation_done(before: Room, after: Room, c: CreateGameObjectCommand, member_id: RoomMemberId, r: Result<(), ServerCommandError>) -> bool {
    &&& !has_member(before.members@, member_id) ==> r == Err::<(), ServerCommandError>(ServerCommandError::MemberNotFound(member_id))
    &&& has_member(before.members@, member_id) ==> {
        let groups = before.members@[member_index_of(before.members@, member_id)].template.groups;
        if c.object_id.id == 0 || !c.access_groups.spec_is_sub_groups(groups) {
            r matches Err(ServerCommandError::Error(_))
        } else if c.object_id.owner matches GameObjectOwner::User(owner) && owner != member_id {
            r == Err::<(), ServerCommandError>(
                ServerCommandError::MemberNotOwnerGameObject { object_id: c.object_id, member_id },
            )
        } else if has_key(before.object_model(), c.object_id) {
            r matches Err(ServerCommandError::Error(_))
        } else {
            r is Ok
        }
    }
    &&& r is Err ==> room_unchanged(after, before)
    &&& r is Ok ==> {
        &&& same_settings(after, before)
        &&& after.members == before.members
        &&& after.out_commands == before.out_commands
        &&& after.command_trace_session == before.command_trace_session
        &&& after.object_model() == before.object_model().push((c.object_id, created_object(c)))
    }
}

impl ServerCommandExecutor for CreateGameObjectCommand {
    open spec fn reads_fit(&self, room: Room, member_id: RoomMemberId) -> bool {
        true
    }

    /// Create an object of the member: with a non-zero number, in groups of the
    /// member, owned by the room or by the member, and not already existing.
    fn execute(&self, room: &mut Room, member_id: RoomMemberId) -> (r: Result<(), ServerCommandError>)
        ensures
            final(room).wf(),
            creation_done(*old(room), *final(room), *self, member_id, r),
    {
        let groups = match room.get_user(member_id) {
            None => return Err(ServerCommandError::MemberNotFound(member_id)),
            Some(member) => member.template.groups,
        };
        if self.object_id.id == 0 {
            return Err(ServerCommandError::Error("0 is forbidden for game object id".to_owned()));
        }
        if !self.access_groups.is_sub_groups(&groups) {
            return Err(ServerCommandError::Error("Incorrect access group for the member".to_owned()));
        }
        if let GameObjectOwner::User(owner) = self.object_id.owner {
            if owner != member_id {
                return Err(ServerCommandError::MemberNotOwnerGameObject { object_id: self.object_id, member_id });
            }
        }
        if room.contains_object(&self.object_id) {
            return Err(ServerCommandError::Error("Object already exists".to_owned()));
        }
        let object = GameObject::new(self.object_id, self.template, self.access_groups, false);
        room.insert_object(object);
        Ok(())
    }
}

} // verus!
