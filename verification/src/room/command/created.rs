//! The end of the creation of a game object.
use vstd::prelude::*;

use crate::commands::CreatedGameObjectCommand;
use crate::room::action::room_unchanged;
use crate::room::command::{ServerCommandError, ServerCommandExecutor};
use crate::room::maps::{has_key, index_of, lookup};
use crate::room::object::{
    appended_within_capacity, collector_new, collector_to_vec, create_commands, GameObjectModel,
    SpecS2CCommandWithFieldInfo,
};
use crate::room::objects::{lemma_objects_updated, objects_get, objects_get_mut};
use crate::room::sender::{
    channel_or_default, commands_view, creator_or_relay, log_view, members_after_send, pushed_front, same_sessions,
    MemberFilter,
};
use crate::room::{same_settings, Room};
use crate::types::RoomMemberId;

verus! {

/// The object, fully created.
pub open spec fn fully_created(o: GameObjectModel) -> GameObjectModel {
    GameObjectModel { created: true, ..o }
}

/// The commands that create an object on a client, as one collector takes them.
pub open spec fn collected_create_commands(o: GameObjectModel) -> Seq<SpecS2CCommandWithFieldInfo> {
    appended_within_capacity(Seq::empty(), create_commands(o))
}

/// What the end of a creation does: a missing object is an error, and so is
/// an object already fully created; otherwise the object is fully created and
/// loaded on the other members that can see it.
pub open spec fn creation_finished(
    before: Room,
    after: Room,
    c: CreatedGameObjectCommand,
    member_id: RoomMemberId,
    r: Result<(), ServerCommandError>,
) -> bool {
    &&& !has_key(before.object_model(), c.object_id) ==> {
        &&& r == Err::<(), ServerCommandError>(ServerCommandError::GameObjectNotFound { object_id: c.object_id })
        &&& room_unchanged(after, before)
    }
    &&& has_key(before.object_model(), c.object_id) ==> {
        let o = lookup(before.object_model(), c.object_id)->0;
        if o.created {
            &&& r matches Err(ServerCommandError::Error(_))
            &&& room_unchanged(after, before)
        } else {
            let o2 = fully_created(o);
            &&& r is Ok
            &&& same_settings(after, before)
            &&& after.object_model() == before.object_model().update(
                index_of(before.object_model(), c.object_id),
                (c.object_id, o2),
            )
            &&& members_after_send(
                before.members@,
                after.members@,
                o2.access_groups,
                o2.template_id,
                collected_create_commands(o2),
                MemberFilter::AllBut(member_id),
                before.permission_manager.permissions.templates@,
                channel_or_default(before.current_channel),
                creator_or_relay(before.current_member_id),
            )
            &&& log_view(after.out_commands@) == pushed_front(
                before.record_sent,
                log_view(before.out_commands@),
                o2.access_groups,
                collected_create_commands(o2),
            )
            &&& same_sessions(after.command_trace_session.view(), before.command_trace_session.view())
        }
    }
}

/// The member that finishes the creation of an object is not sent the
/// creation back: what it has queued stays as it was.
pub proof fn law_creator_not_told(
    before: Room,
    after: Room,
    c: CreatedGameObjectCommand,
    member_id: RoomMemberId,
    r: Result<(), ServerCommandError>,
)
    requires
        creation_finished(before, after, c, member_id, r),
    ensures
        after.members@.len() == before.members@.len(),
        forall|i: int|
            0 <= i < before.members@.len() && before.members@[i].id == member_id ==> (#[trigger] after.members@[i]).out()
                == before.members@[i].out(),
{
    assert forall|i: int| 0 <= i < before.members@.len() && before.members@[i].id == member_id implies (#[trigger] after.members@[i]).out()
        == before.members@[i].out() by {
        if after.members != before.members {
            assert(after.members@[i].out() == before.members@[i].out() + Seq::<crate::protocol::SpecCommandWithChannelType>::empty());
        }
    }
}

impl ServerCommandExecutor for CreatedGameObjectCommand {
    open spec fn reads_fit(&self, room: Room, member_id: RoomMemberId) -> bool {
        true
    }

    /// Mark the object fully created and load it on the other members that can see it.
    fn execute(&self, room: &mut Room, member_id: RoomMemberId) -> (r: Result<(), ServerCommandError>)
        ensures
            final(room).wf(),
            creation_finished(*old(room), *final(room), *self, member_id, r),
    {
        let created = match objects_get(&room.objects, &self.object_id) {
            None => return Err(ServerCommandError::GameObjectNotFound { object_id: self.object_id }),
            Some(object) => object.created,
        };
        if created {
            return Err(ServerCommandError::Error("Object already created".to_owned()));
        }
        let ghost objects0 = room.object_model();
        let object = objects_get_mut(&mut room.objects, &self.object_id);
        object.created = true;
        let groups = object.access_groups;
        let template = object.template_id;
        let mut collector = collector_new();
        object.collect_create_commands(&mut collector);
        let ghost o2 = object@;
        proof {
            lemma_objects_updated(objects0, self.object_id, o2);
        }
        let commands = collector_to_vec(&collector);
        proof {
            assert(commands_view(commands@) == collected_create_commands(o2));
        }
        room.send_to_members(groups, template, commands.as_slice(), MemberFilter::AllBut(member_id));
        Ok(())
    }
}

} // verus!
