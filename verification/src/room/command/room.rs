//! Members entering and leaving the room's flow of commands.
use vstd::prelude::*;

use crate::protocol::{ChannelType, SpecCommandWithChannelType};
use crate::room::command::ServerCommandError;
use crate::room::command::created::collected_create_commands;
use crate::room::maps::lookup;
use crate::room::member::User;
use crate::room::object::{collector_new, collector_to_vec, GameObjectModel};
use crate::room::objects::{object_entries, objects_get, objects_keys};
use crate::room::sender::{
    channel_or_default, commands_view, creator_or_relay, delivered, member_received, same_sessions,
};
use crate::room::template::GameObjectTemplatePermission;
use crate::room::{has_member, lemma_member_index, member_index_of, members_wf, same_settings, Room};
use crate::types::{AccessGroups, GameObjectId, RoomMemberId};

verus! {

broadcast use vstd::std_specs::vec::group_vec_axioms;

/// What a member of the groups receives when it enters the room: for each
/// fully created object it can see, in order, the commands that create it.
pub open spec fn load_commands(
    objects: Seq<(GameObjectId, GameObjectModel)>,
    groups: AccessGroups,
    ts: Seq<GameObjectTemplatePermission>,
    channel: ChannelType,
    creator: RoomMemberId,
) -> Seq<SpecCommandWithChannelType>
    decreases objects.len(),
{
    if objects.len() == 0 {
        Seq::empty()
    } else {
        let before = load_commands(objects.drop_last(), groups, ts, channel, creator);
        let o = objects.last().1;
        if o.created && o.access_groups.spec_contains_any(groups) {
            before + delivered(ts, o.template_id, collected_create_commands(o), groups, channel, creator)
        } else {
            before
        }
    }
}

/// The member is attached to the room; if it is connected, it receives the
/// objects it can see.
pub open spec fn attached_member(before: Room, after: Room, member_id: RoomMemberId) -> bool {
    let i = member_index_of(before.members@, member_id);
    let m = before.members@[i];
    &&& after.members@.len() == before.members@.len()
    &&& forall|j: int| 0 <= j < before.members@.len() && j != i ==> #[trigger] after.members@[j] == before.members@[j]
    &&& member_received(
        User { attached: true, ..m },
        after.members@[i],
        if m.connected {
            load_commands(
                before.object_model(),
                m.template.groups,
                before.permission_manager.permissions.templates@,
                channel_or_default(before.current_channel),
                creator_or_relay(before.current_member_id),
            )
        } else {
            Seq::empty()
        },
    )
}

/// What attaching a member does: a missing member is an error; otherwise the
/// member is attached and, if connected, receives the objects it can see.
pub open spec fn attach_done(before: Room, after: Room, member_id: RoomMemberId, r: Result<(), ServerCommandError>) -> bool {
    &&& same_settings(after, before)
    &&& after.objects == before.objects
    &&& after.out_commands == before.out_commands
    &&& same_sessions(after.command_trace_session.view(), before.command_trace_session.view())
    &&& !has_member(before.members@, member_id) ==> {
        &&& r == Err::<(), ServerCommandError>(ServerCommandError::MemberNotFound(member_id))
        &&& after.members == before.members
    }
    &&& has_member(before.members@, member_id) ==> r is Ok && attached_member(before, after, member_id)
}

/// Attach the member to the room and load on it the objects it can see.
pub fn attach_to_room(room: &mut Room, member_id: RoomMemberId) -> (r: Result<(), ServerCommandError>)
    requires
        old(room).wf(),
    ensures
        final(room).wf(),
        attach_done(*old(room), *final(room), member_id, r),
{
    let i = match room.member_index(member_id) {
        None => return Err(ServerCommandError::MemberNotFound(member_id)),
        Some(i) => i,
    };
    let ghost room0 = *room;
    let ghost m0 = room.members@[i as int];
    room.members[i].attach_to_room();
    let groups = room.members[i].template.groups;
    let ghost ts = room.permission_manager.permissions.templates@;
    let ghost channel = channel_or_default(room.current_channel);
    let ghost creator = creator_or_relay(room.current_member_id);
    let ghost entries = room.object_model();
    let keys = objects_keys(&room.objects);
    proof {
        assert(m0.out() + Seq::<SpecCommandWithChannelType>::empty() == m0.out());
        assert(entries.take(0) == Seq::<(GameObjectId, GameObjectModel)>::empty());
        assert(members_wf(room.members@, room.member_id_generator)) by {
            assert forall|a: int| 0 <= a < room.members@.len() implies #[trigger] room.members@[a].id == room0.members@[a].id
                && room.members@[a].cleaners() == room0.members@[a].cleaners() by {}
        }
    }
    let mut k: usize = 0;
    while k < keys.len()
        invariant
            k <= keys@.len(),
            keys@.len() == entries.len(),
            forall|a: int| 0 <= a < keys@.len() ==> #[trigger] keys@[a] == entries[a].0,
            room.wf(),
            same_settings(*room, room0),
            room.objects == room0.objects,
            room.object_model() == entries,
            entries == room0.object_model(),
            room.out_commands == room0.out_commands,
            same_sessions(room.command_trace_session.view(), room0.command_trace_session.view()),
            i < room.members@.len(),
            room.members@.len() == room0.members@.len(),
            room.members@[i as int].id == member_id,
            room.members@[i as int].attached,
            room.members@[i as int].connected == m0.connected,
            room.members@[i as int].template.groups == groups,
            groups == m0.template.groups,
            m0 == room0.members@[i as int],
            ts == room.permission_manager.permissions.templates@,
            channel == channel_or_default(room.current_channel),
            creator == creator_or_relay(room.current_member_id),
            forall|j: int| 0 <= j < room0.members@.len() && j != i ==> #[trigger] room.members@[j] == room0.members@[j],
            member_received(
                User { attached: true, ..m0 },
                room.members@[i as int],
                if m0.connected {
                    load_commands(entries.take(k as int), groups, ts, channel, creator)
                } else {
                    Seq::empty()
                },
            ),
        decreases keys@.len() - k,
    {
        proof {
            assert(entries.take(k + 1).drop_last() == entries.take(k as int));
            assert(entries.take(k + 1).last() == entries[k as int]);
            crate::room::maps::lemma_index_of(entries, k as int);
        }
        let key = keys[k];
        let (created, object_groups, template) = match objects_get(&room.objects, &key) {
            Some(object) => (object.created, object.access_groups, object.template_id),
            None => (false, groups, 0),
        };
        if created && object_groups.contains_any(&groups) {
            let o = objects_get(&room.objects, &key);
            let mut collector = collector_new();
            match o {
                Some(object) => object.collect_create_commands(&mut collector),
                None => {},
            }
            let commands = collector_to_vec(&collector);
            let ghost before = room.members@[i as int];
            let ghost members_before = room.members@;
            proof {
                lemma_member_index(room.members@, room.member_id_generator, i as int);
                assert(commands_view(commands@) == collected_create_commands(entries[k as int].1));
            }
            let sent = room.send_to_member(&member_id, template, commands.as_slice());
            proof {
                assert(sent is Ok);
                assert(room.members@[i as int].out() == before.out() + (if m0.connected {
                    delivered(ts, template, collected_create_commands(entries[k as int].1), groups, channel, creator)
                } else {
                    Seq::<SpecCommandWithChannelType>::empty()
                }));
                assert forall|j: int| 0 <= j < room0.members@.len() && j != i implies #[trigger] room.members@[j] == room0.members@[j] by {
                    assert(room.members@[j] == members_before[j]);
                }
                let base = User { attached: true, ..m0 };
                if m0.connected {
                    let a = load_commands(entries.take(k as int), groups, ts, channel, creator);
                    let x = delivered(ts, template, collected_create_commands(entries[k as int].1), groups, channel, creator);
                    assert(load_commands(entries.take(k + 1), groups, ts, channel, creator) == a + x);
                    assert(base.out() + a + x == base.out() + (a + x));
                } else {
                    assert(before.out() + Seq::<SpecCommandWithChannelType>::empty() == before.out());
                }
            }
        } else {
            proof {
                if m0.connected {
                    assert(load_commands(entries.take(k + 1), groups, ts, channel, creator) == load_commands(
                        entries.take(k as int),
                        groups,
                        ts,
                        channel,
                        creator,
                    ));
                }
            }
        }
        k = k + 1;
    }
    proof {
        assert(entries.take(keys@.len() as int) == entries);
    }
    Ok(())
}

/// What detaching a member does: a missing member is an error; otherwise the
/// member is no longer attached.
pub open spec fn detach_done(before: Room, after: Room, member_id: RoomMemberId, r: Result<(), ServerCommandError>) -> bool {
    &&& same_settings(after, before)
    &&& after.objects == before.objects
    &&& after.out_commands == before.out_commands
    &&& after.command_trace_session == before.command_trace_session
    &&& !has_member(before.members@, member_id) ==> {
        &&& r == Err::<(), ServerCommandError>(ServerCommandError::MemberNotFound(member_id))
        &&& after.members == before.members
    }
    &&& has_member(before.members@, member_id) ==> {
        let i = member_index_of(before.members@, member_id);
        &&& r is Ok
        &&& after.members@ == before.members@.update(i, User { attached: false, ..before.members@[i] })
    }
}

/// Detach the member from the room: it stops receiving its commands.
pub fn detach_from_room(room: &mut Room, member_id: RoomMemberId) -> (r: Result<(), ServerCommandError>)
    requires
        old(room).wf(),
    ensures
        final(room).wf(),
        detach_done(*old(room), *final(room), member_id, r),
{
    match room.member_index(member_id) {
        None => Err(ServerCommandError::MemberNotFound(member_id)),
        Some(i) => {
            let ghost before = room.members@;
            room.members[i].detach_from_room();
            proof {
                assert(room.members@ == before.update(i as int, User { attached: false, ..before[i as int] }));
                assert forall|a: int| 0 <= a < room.members@.len() implies #[trigger] room.members@[a].id == before[a].id
                    && room.members@[a].cleaners() == before[a].cleaners() by {}
            }
            Ok(())
        },
    }
}

} // verus!
