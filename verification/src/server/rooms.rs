//! The rooms of a server, by identifier.
use vstd::prelude::*;

use crate::protocol::{CommandWithChannel, CommandWithChannelType, MemberAndRoomId, SpecCommandWithChannelType};
use crate::room::command::ServerCommandError;
use crate::room::template::{UserTemplate, RoomTemplate};
use crate::room::member::{out_view, User};
use crate::room::{member_left, room_objects_from, same_settings, templates_ok, Room};
use crate::types::{RoomId, RoomMemberId};

verus! {

broadcast use vstd::std_specs::vec::group_vec_axioms;

/// Error of a registration of a member.
#[derive(Debug, Clone, Copy, PartialEq, Eq, Structural)]
pub enum RegisterUserError {
    RoomNotFound,
}

/// The rooms of a server, in the order they were created, and the rooms
/// changed since they were created, in the order they first changed.
#[derive(Debug)]
pub struct Rooms {
    pub room_by_id: Vec<Room>,
    pub room_id_generator: RoomId,
    pub changed_rooms: Vec<RoomId>,
}

/// The room has the identifier.
pub open spec fn has_room(rooms: Seq<Room>, id: RoomId) -> bool {
    exists|i: int| 0 <= i < rooms.len() && #[trigger] rooms[i].id == id
}

/// Position of the room with the identifier.
pub open spec fn room_index_of(rooms: Seq<Room>, id: RoomId) -> int {
    choose|i: int| 0 <= i < rooms.len() && #[trigger] rooms[i].id == id
}

/// A changed room is recorded once; a room already recorded stays in its place.
pub open spec fn marked_changed(changed: Seq<RoomId>, id: RoomId) -> Seq<RoomId> {
    if changed.contains(id) {
        changed
    } else {
        changed.push(id)
    }
}

/// What executing the commands of a frame from a member does: in the room of
/// the member, the member connects (on its first frame) and its commands run
/// in order; the room is recorded as changed. A missing room changes nothing.
pub open spec fn commands_executed<F: Fn(u64, u64) -> u64>(
    before: Rooms,
    after: Rooms,
    member_and_room_id: MemberAndRoomId,
    commands: Seq<CommandWithChannel>,
    sum: F,
) -> bool {
    &&& after.room_id_generator == before.room_id_generator
    &&& after.room_by_id@.len() == before.room_by_id@.len()
    &&& !has_room(before.room_by_id@, member_and_room_id.room_id) ==> after.room_by_id == before.room_by_id
        && after.changed_rooms == before.changed_rooms
    &&& has_room(before.room_by_id@, member_and_room_id.room_id) ==> {
        let i = room_index_of(before.room_by_id@, member_and_room_id.room_id);
        &&& forall|j: int| 0 <= j < before.room_by_id@.len() && j != i ==> #[trigger] after.room_by_id@[j] == before.room_by_id@[j]
        &&& after.room_by_id@[i].id == member_and_room_id.room_id
        &&& after.changed_rooms@ == marked_changed(before.changed_rooms@, member_and_room_id.room_id)
        &&& exists|connected: Room, processed: Room|
            #![trigger crate::room::commands_processed(connected, processed, commands, member_and_room_id.member_id, sum)]
            {
                &&& crate::room::member_connected(before.room_by_id@[i], connected, member_and_room_id.member_id)
                &&& crate::room::commands_processed(connected, processed, commands, member_and_room_id.member_id, sum)
                &&& after.room_by_id@[i] == Room { current_member_id: None, current_channel: None, ..processed }
            }
    }
}

/// What the loss of a member's connection does: the member leaves its room,
/// which is recorded as changed unless an error stopped the leaving; a
/// missing room is an error and changes nothing.
pub open spec fn member_disconnected(
    before: Rooms,
    after: Rooms,
    member_and_room_id: MemberAndRoomId,
    r: Result<(), ServerCommandError>,
) -> bool {
    &&& after.room_id_generator == before.room_id_generator
    &&& after.room_by_id@.len() == before.room_by_id@.len()
    &&& !has_room(before.room_by_id@, member_and_room_id.room_id) ==> {
        &&& r matches Err(ServerCommandError::Error(_))
        &&& after.room_by_id == before.room_by_id
        &&& after.changed_rooms == before.changed_rooms
    }
    &&& has_room(before.room_by_id@, member_and_room_id.room_id) ==> {
        let i = room_index_of(before.room_by_id@, member_and_room_id.room_id);
        &&& forall|j: int| 0 <= j < before.room_by_id@.len() && j != i ==> #[trigger] after.room_by_id@[j] == before.room_by_id@[j]
        &&& exists|left: Result<(), ServerCommandError>|
            {
                &&& member_left(before.room_by_id@[i], after.room_by_id@[i], member_and_room_id.member_id, left)
                &&& (left is Err ==> r == left && after.changed_rooms == before.changed_rooms)
                &&& (left is Ok ==> r is Ok && after.changed_rooms@ == marked_changed(before.changed_rooms@, member_and_room_id.room_id))
            }
    }
}

/// What creating a room does: the next identifier, and a new room last, with
/// the objects of the template and no member.
pub open spec fn room_created(before: Rooms, after: Rooms, template: RoomTemplate, r: RoomId) -> bool {
    &&& r == before.room_id_generator + 1
    &&& after.room_id_generator == r
    &&& after.room_by_id@ == before.room_by_id@.push(after.room_by_id@.last())
    &&& after.room_by_id@.last().id == r
    &&& after.room_by_id@.last().template_name == template.name
    &&& after.room_by_id@.last().permission_manager.permissions == template.permissions
    &&& after.room_by_id@.last().object_model() == room_objects_from(template.objects@)
    &&& after.room_by_id@.last().members@.len() == 0
    &&& after.changed_rooms == before.changed_rooms
}

/// What registering a member does: the member joins the room with the next
/// identifier of the room, or the room is not found.
pub open spec fn user_registered(
    before: Rooms,
    after: Rooms,
    room_id: RoomId,
    template: UserTemplate,
    r: Result<RoomMemberId, RegisterUserError>,
) -> bool {
    &&& after.room_id_generator == before.room_id_generator
    &&& after.changed_rooms == before.changed_rooms
    &&& if has_room(before.room_by_id@, room_id) {
        let i = room_index_of(before.room_by_id@, room_id);
        let room = before.room_by_id@[i];
        &&& r == Ok::<RoomMemberId, RegisterUserError>((room.member_id_generator + 1) as RoomMemberId)
        &&& after.room_by_id@.len() == before.room_by_id@.len()
        &&& forall|j: int| 0 <= j < before.room_by_id@.len() && j != i ==> #[trigger] after.room_by_id@[j] == before.room_by_id@[j]
        &&& after.room_by_id@[i].members@ == room.members@.push(after.room_by_id@[i].members@.last())
        &&& after.room_by_id@[i].members@.last().id == room.member_id_generator + 1
        &&& after.room_by_id@[i].members@.last().template == template
        &&& after.room_by_id@[i].object_model() == room.object_model()
    } else {
        &&& r == Err::<RoomMemberId, RegisterUserError>(RegisterUserError::RoomNotFound)
        &&& after.room_by_id == before.room_by_id
    }
}

impl Rooms {
    /// Room identifiers are distinct and not above the last one given; each
    /// room is well formed; changed rooms are recorded once.
    pub open spec fn wf(&self) -> bool {
        &&& forall|i: int, j: int| 0 <= i < j < self.room_by_id@.len() ==> #[trigger] self.room_by_id@[i].id != #[trigger] self.room_by_id@[j].id
        &&& forall|i: int| 0 <= i < self.room_by_id@.len() ==> #[trigger] self.room_by_id@[i].id <= self.room_id_generator
        &&& forall|i: int| 0 <= i < self.room_by_id@.len() ==> (#[trigger] self.room_by_id@[i]).wf()
        &&& self.changed_rooms@.no_duplicates()
    }

    pub fn new() -> (r: Rooms)
        ensures
            r.wf(),
            r.room_by_id@.len() == 0,
            r.room_id_generator == 0,
            r.changed_rooms@.len() == 0,
    {
        Rooms { room_by_id: Vec::new(), room_id_generator: 0, changed_rooms: Vec::new() }
    }

    /// The picture of a room, if there is one with the identifier.
    pub fn dump(&self, room_id: RoomId) -> (r: Option<crate::debug::dump::DumpResponse>)
        requires
            self.wf(),
        ensures
            match r {
                Some(d) => has_room(self.room_by_id@, room_id) && crate::debug::dump::room_dumped(
                    d,
                    self.room_by_id@[room_index_of(self.room_by_id@, room_id)],
                ),
                None => !has_room(self.room_by_id@, room_id),
            },
    {
        match self.room_index(room_id) {
            Some(i) => Some(crate::debug::dump::DumpResponse::from(&self.room_by_id[i])),
            None => None,
        }
    }

    pub(crate) fn room_index(&self, room_id: RoomId) -> (r: Option<usize>)
        requires
            self.wf(),
        ensures
            match r {
                Some(i) => i < self.room_by_id@.len() && self.room_by_id@[i as int].id == room_id && has_room(self.room_by_id@, room_id)
                    && room_index_of(self.room_by_id@, room_id) == i,
                None => !has_room(self.room_by_id@, room_id),
            },
    {
        let mut i: usize = 0;
        while i < self.room_by_id.len()
            invariant
                i <= self.room_by_id@.len(),
                self.wf(),
                forall|j: int| 0 <= j < i ==> self.room_by_id@[j].id != room_id,
            decreases self.room_by_id@.len() - i,
        {
            if self.room_by_id[i].id == room_id {
                proof {
                    let k = room_index_of(self.room_by_id@, room_id);
                    if k < i {
                        assert(self.room_by_id@[k].id != self.room_by_id@[i as int].id);
                    } else if k > i {
                        assert(self.room_by_id@[i as int].id != self.room_by_id@[k].id);
                    }
                }
                return Some(i);
            }
            i = i + 1;
        }
        None
    }

    fn mark_changed(&mut self, room_id: RoomId)
        requires
            old(self).wf(),
        ensures
            final(self).wf(),
            final(self).changed_rooms@ == marked_changed(old(self).changed_rooms@, room_id),
            final(self).room_by_id == old(self).room_by_id,
            final(self).room_id_generator == old(self).room_id_generator,
    {
        let mut i: usize = 0;
        while i < self.changed_rooms.len()
            invariant
                i <= self.changed_rooms@.len(),
                self.wf(),
                self.changed_rooms == old(self).changed_rooms,
                self.room_by_id == old(self).room_by_id,
                self.room_id_generator == old(self).room_id_generator,
                forall|j: int| 0 <= j < i ==> self.changed_rooms@[j] != room_id,
            decreases self.changed_rooms@.len() - i,
        {
            if self.changed_rooms[i] == room_id {
                proof {
                    assert(self.changed_rooms@.contains(room_id));
                }
                return;
            }
            i = i + 1;
        }
        proof {
            assert(!self.changed_rooms@.contains(room_id));
        }
        self.changed_rooms.push(room_id);
    }

    /// Create a room from a template, with the next identifier.
    pub fn create_room(&mut self, template: RoomTemplate) -> (r: RoomId)
        requires
            old(self).wf(),
            old(self).room_id_generator < u64::MAX,
            templates_ok(template.objects@),
        ensures
            final(self).wf(),
            room_created(*old(self), *final(self), template, r),
    {
        self.room_id_generator = self.room_id_generator + 1;
        let room_id = self.room_id_generator;
        let room = Room::new(room_id, template);
        self.room_by_id.push(room);
        room_id
    }

    /// Register a member in a room.
    pub fn register_user(&mut self, room_id: RoomId, template: UserTemplate) -> (r: Result<RoomMemberId, RegisterUserError>)
        requires
            old(self).wf(),
            has_room(old(self).room_by_id@, room_id) ==> old(self).room_by_id@[room_index_of(old(self).room_by_id@, room_id)].member_id_generator < u16::MAX,
            templates_ok(template.objects@),
        ensures
            final(self).wf(),
            user_registered(*old(self), *final(self), room_id, template, r),
    {
        match self.room_index(room_id) {
            None => Err(RegisterUserError::RoomNotFound),
            Some(i) => {
                let ghost before = self.room_by_id@;
                let id = self.room_by_id[i].register_user(template);
                proof {
                    let rs = self.room_by_id@;
                    assert(rs == before.update(i as int, rs[i as int]));
                    assert forall|a: int, b: int| 0 <= a < b < rs.len() implies #[trigger] rs[a].id != #[trigger] rs[b].id by {
                        assert(rs[a].id == before[a].id);
                        assert(rs[b].id == before[b].id);
                    }
                    assert forall|a: int| 0 <= a < rs.len() implies #[trigger] rs[a].id <= self.room_id_generator by {
                        assert(rs[a].id == before[a].id);
                    }
                }
                Ok(id)
            },
        }
    }

    /// Execute the commands of a frame from a member of a room, and record the
    /// room as changed; `sum` adds two doubles given by their bit patterns.
    pub fn execute_commands<F: Fn(u64, u64) -> u64>(&mut self, member_and_room_id: MemberAndRoomId, commands: &[CommandWithChannel], sum: &F)
        requires
            old(self).wf(),
            forall|a: u64, b: u64| sum.requires((a, b)),
        ensures
            final(self).wf(),
            commands_executed(*old(self), *final(self), member_and_room_id, commands@, *sum),
    {
        match self.room_index(member_and_room_id.room_id) {
            None => {},
            Some(i) => {
                let ghost before = self.room_by_id@;
                self.room_by_id[i].execute_commands(member_and_room_id.member_id, commands, sum);
                proof {
                    let rs = self.room_by_id@;
                    assert(rs == before.update(i as int, rs[i as int]));
                    assert(rs[i as int].id == before[i as int].id);
                    assert forall|a: int, b: int| 0 <= a < b < rs.len() implies #[trigger] rs[a].id != #[trigger] rs[b].id by {
                        assert(rs[a].id == before[a].id);
                        assert(rs[b].id == before[b].id);
                    }
                    assert forall|a: int| 0 <= a < rs.len() implies #[trigger] rs[a].id <= self.room_id_generator by {
                        assert(rs[a].id == before[a].id);
                    }
                }
                self.mark_changed(member_and_room_id.room_id);
            },
        }
    }

    /// A member's connection is lost: it leaves its room, which is recorded as changed.
    pub fn user_disconnected(&mut self, member_and_room_id: &MemberAndRoomId) -> (r: Result<(), ServerCommandError>)
        requires
            old(self).wf(),
        ensures
            final(self).wf(),
            member_disconnected(*old(self), *final(self), *member_and_room_id, r),
    {
        match self.room_index(member_and_room_id.room_id) {
            None => Err(ServerCommandError::Error("[rooms] room not found in user_disconnect".to_owned())),
            Some(i) => {
                let ghost before = self.room_by_id@;
                let left = self.room_by_id[i].disconnect_user(member_and_room_id.member_id);
                proof {
                    let rs = self.room_by_id@;
                    assert(rs == before.update(i as int, rs[i as int]));
                    assert(rs[i as int].id == before[i as int].id) by {
                        crate::room::lemma_member_left_keeps_id(before[i as int], rs[i as int], member_and_room_id.member_id, left);
                    }
                    assert forall|a: int, b: int| 0 <= a < b < rs.len() implies #[trigger] rs[a].id != #[trigger] rs[b].id by {
                        assert(rs[a].id == before[a].id);
                        assert(rs[b].id == before[b].id);
                    }
                    assert forall|a: int| 0 <= a < rs.len() implies #[trigger] rs[a].id <= self.room_id_generator by {
                        assert(rs[a].id == before[a].id);
                    }
                }
                match left {
                    Err(e) => Err(e),
                    Ok(()) => {
                        self.mark_changed(member_and_room_id.room_id);
                        Ok(())
                    },
                }
            },
        }
    }

    /// Take the commands queued in the changed rooms: for each changed room, in
    /// order, and each of its members, in order.
    pub fn collect_out_commands(&mut self) -> (r: Vec<(RoomId, RoomMemberId, Vec<CommandWithChannelType>)>)
        requires
            old(self).wf(),
        ensures
            final(self).wf(),
            final(self).room_id_generator == old(self).room_id_generator,
            final(self).changed_rooms == old(self).changed_rooms,
            taken_view(r@) == queued_commands(old(self).room_by_id@, old(self).changed_rooms@),
            final(self).room_by_id@.len() == old(self).room_by_id@.len(),
            forall|j: int|
                0 <= j < old(self).room_by_id@.len() ==> if old(self).changed_rooms@.contains(old(self).room_by_id@[j].id) {
                    queues_taken(old(self).room_by_id@[j], #[trigger] final(self).room_by_id@[j])
                } else {
                    final(self).room_by_id@[j] == old(self).room_by_id@[j]
                },
    {
        let mut r: Vec<(RoomId, RoomMemberId, Vec<CommandWithChannelType>)> = Vec::new();
        let ghost rooms0 = self.room_by_id@;
        let ghost changed = self.changed_rooms@;
        let mut k: usize = 0;
        proof {
            assert(changed.take(0) == Seq::<RoomId>::empty());
        }
        while k < self.changed_rooms.len()
            invariant
                k <= changed.len(),
                self.wf(),
                self.room_id_generator == old(self).room_id_generator,
                self.changed_rooms == old(self).changed_rooms,
                changed == old(self).changed_rooms@,
                rooms0 == old(self).room_by_id@,
                self.room_by_id@.len() == rooms0.len(),
                forall|a: int, b: int| 0 <= a < b < rooms0.len() ==> #[trigger] rooms0[a].id != #[trigger] rooms0[b].id,
                forall|j: int| 0 <= j < rooms0.len() ==> (#[trigger] self.room_by_id@[j]).id == rooms0[j].id,
                taken_view(r@) == queued_commands(rooms0, changed.take(k as int)),
                forall|j: int|
                    0 <= j < rooms0.len() ==> if changed.take(k as int).contains(rooms0[j].id) {
                        queues_taken(rooms0[j], #[trigger] self.room_by_id@[j])
                    } else {
                        self.room_by_id@[j] == rooms0[j]
                    },
            decreases changed.len() - k,
        {
            let room_id = self.changed_rooms[k];
            let ghost cur = changed.take(k as int);
            let ghost next = changed.take(k + 1);
            proof {
                assert(next.drop_last() == cur);
                assert(next.last() == room_id);
                assert(!cur.contains(room_id)) by {
                    if cur.contains(room_id) {
                        let x = choose|x: int| 0 <= x < cur.len() && #[trigger] cur[x] == room_id;
                        assert(changed[x] == changed[k as int]);
                    }
                }
                assert forall|id: RoomId| #[trigger] next.contains(id) <==> (cur.contains(id) || id == room_id) by {
                    if next.contains(id) && id != room_id {
                        let x = choose|x: int| 0 <= x < next.len() && #[trigger] next[x] == id;
                        assert(cur[x] == id);
                    }
                    if cur.contains(id) {
                        let x = choose|x: int| 0 <= x < cur.len() && #[trigger] cur[x] == id;
                        assert(next[x] == id);
                    }
                    if id == room_id {
                        assert(next[k as int] == id);
                    }
                }
            }
            match self.room_index(room_id) {
                None => {
                    proof {
                        assert(!has_room(rooms0, room_id)) by {
                            if has_room(rooms0, room_id) {
                                let j = choose|j: int| 0 <= j < rooms0.len() && #[trigger] rooms0[j].id == room_id;
                                assert(self.room_by_id@[j].id == room_id);
                            }
                        }
                        assert(queued_commands(rooms0, next) == queued_commands(rooms0, cur));
                        assert forall|j: int| 0 <= j < rooms0.len() implies (if next.contains(rooms0[j].id) {
                            queues_taken(rooms0[j], #[trigger] self.room_by_id@[j])
                        } else {
                            self.room_by_id@[j] == rooms0[j]
                        }) by {
                            assert(rooms0[j].id != room_id);
                        }
                    }
                },
                Some(i) => {
                    proof {
                        lemma_room_index(rooms0, i as int);
                        assert(rooms0[i as int].id == room_id);
                        assert(self.room_by_id@[i as int] == rooms0[i as int]);
                    }
                    let ghost before = self.room_by_id@;
                    let ghost r0 = taken_view(r@);
                    let taken = self.room_by_id[i].collect_out_commands();
                    let ghost part = rooms0[i as int].members@.map_values(|m: User| (room_id, m.id, m.out()));
                    proof {
                        let rs = self.room_by_id@;
                        assert(rs == before.update(i as int, rs[i as int]));
                        assert forall|x: int| 0 <= x < rooms0[i as int].members@.len() implies (#[trigger] rs[i as int].members@[x]).out_commands@.len()
                            == 0 && rs[i as int].members@[x] == (User {
                            out_commands: rs[i as int].members@[x].out_commands,
                            ..rooms0[i as int].members@[x]
                        }) by {
                            assert(taken@[x].0 == rooms0[i as int].members@[x].id);
                        }
                        assert(queues_taken(rooms0[i as int], rs[i as int]));
                        assert forall|a: int, b: int| 0 <= a < b < rs.len() implies #[trigger] rs[a].id != #[trigger] rs[b].id by {
                            assert(rs[a].id == before[a].id);
                            assert(rs[b].id == before[b].id);
                        }
                        assert forall|a: int| 0 <= a < rs.len() implies #[trigger] rs[a].id <= self.room_id_generator by {
                            assert(rs[a].id == before[a].id);
                        }
                        assert forall|j: int| 0 <= j < rooms0.len() implies (#[trigger] self.room_by_id@[j]).id == rooms0[j].id by {
                            assert(rs[j].id == before[j].id);
                        }
                        assert(queued_commands(rooms0, next) == r0 + part);
                        assert forall|j: int| 0 <= j < rooms0.len() implies (if next.contains(rooms0[j].id) {
                            queues_taken(rooms0[j], #[trigger] self.room_by_id@[j])
                        } else {
                            self.room_by_id@[j] == rooms0[j]
                        }) by {
                            if j != i {
                                assert(rooms0[j].id != rooms0[i as int].id);
                                assert(rs[j] == before[j]);
                            }
                        }
                    }
                    let n = taken.len();
                    let ghost all = taken@;
                    let mut taken = taken;
                    let mut m: usize = 0;
                    while m < n
                        invariant
                            m <= n,
                            n == all.len(),
                            all.len() == part.len(),
                            taken@ == all.subrange(m as int, n as int),
                            forall|x: int| 0 <= x < all.len() ==> (#[trigger] all[x]).0 == part[x].1 && out_view(all[x].1@) == part[x].2,
                            forall|x: int| 0 <= x < part.len() ==> (#[trigger] part[x]).0 == room_id,
                            taken_view(r@) == r0 + part.take(m as int),
                        decreases n - m,
                    {
                        let ghost before_r = r@;
                        let (member_id, commands) = taken.remove(0);
                        proof {
                            assert(all[m as int] == all.subrange(m as int, n as int)[0]);
                        }
                        r.push((room_id, member_id, commands));
                        proof {
                            assert(part.take(m + 1) == part.take(m as int).push(part[m as int]));
                            assert(taken_view(r@) == taken_view(before_r).push(part[m as int]));
                            assert(taken@ == all.subrange(m + 1, n as int));
                        }
                        m = m + 1;
                    }
                    proof {
                        assert(part.take(n as int) == part);
                    }
                },
            }
            k = k + 1;
        }
        proof {
            assert(changed.take(changed.len() as int) == changed);
        }
        r
    }
}

/// The model of the taken commands.
pub open spec fn taken_view(
    r: Seq<(RoomId, RoomMemberId, Vec<CommandWithChannelType>)>,
) -> Seq<(RoomId, RoomMemberId, Seq<SpecCommandWithChannelType>)> {
    r.map_values(|e: (RoomId, RoomMemberId, Vec<CommandWithChannelType>)| (e.0, e.1, out_view(e.2@)))
}

/// The commands that the members of the changed rooms have queued: for each
/// changed room, in order, each of its members, in order.
pub open spec fn queued_commands(rooms: Seq<Room>, changed: Seq<RoomId>) -> Seq<(RoomId, RoomMemberId, Seq<SpecCommandWithChannelType>)>
    decreases changed.len(),
{
    if changed.len() == 0 {
        Seq::empty()
    } else {
        let id = changed.last();
        queued_commands(rooms, changed.drop_last()) + if has_room(rooms, id) {
            rooms[room_index_of(rooms, id)].members@.map_values(|m: User| (id, m.id, m.out()))
        } else {
            Seq::empty()
        }
    }
}

/// The room after its members' queues were taken: all is kept but the
/// queues, which are empty.
pub open spec fn queues_taken(before: Room, after: Room) -> bool {
    &&& same_settings(after, before)
    &&& after.objects == before.objects
    &&& after.out_commands == before.out_commands
    &&& after.command_trace_session == before.command_trace_session
    &&& after.members@.len() == before.members@.len()
    &&& forall|i: int|
        0 <= i < before.members@.len() ==> (#[trigger] after.members@[i]).out_commands@.len() == 0 && after.members@[i] == (User {
            out_commands: after.members@[i].out_commands,
            ..before.members@[i]
        })
}

/// With distinct identifiers, a room stands where its identifier is found.
proof fn lemma_room_index(rooms: Seq<Room>, i: int)
    requires
        0 <= i < rooms.len(),
        forall|a: int, b: int| 0 <= a < b < rooms.len() ==> #[trigger] rooms[a].id != #[trigger] rooms[b].id,
    ensures
        has_room(rooms, rooms[i].id),
        room_index_of(rooms, rooms[i].id) == i,
{
    let id = rooms[i].id;
    assert(rooms[i].id == id);
    let k = room_index_of(rooms, id);
    if k < i {
        assert(rooms[k].id != rooms[i].id);
    } else if k > i {
        assert(rooms[i].id != rooms[k].id);
    }
}

} // verus!
