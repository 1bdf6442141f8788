//! Requests to the server from other threads, and what it answers.
use vstd::prelude::*;

use crate::debug::tracer::query::parse_query;
use crate::debug::tracer::sessions::{task_done, CommandTracerSessionsAnswer, CommandTracerSessionsTask};
use crate::room::template::{UserTemplate, RoomTemplate};
use crate::debug::tracer::parser::try_parse;
use crate::room::{templates_fit, templates_ok, Room};
use crate::server::rooms::{has_room, room_created, room_index_of, user_registered, RegisterUserError, Rooms};
use crate::types::{RoomId, RoomMemberId};

verus! {

#[verifier::external_type_specification]
#[verifier::external_body]
pub struct ExRecvTimeoutError(std::sync::mpsc::RecvTimeoutError);

/// Error of a request for the command tracer of a room.
#[derive(Debug)]
pub enum CommandTracerSessionTaskError {
    RoomNotFound,
    RecvTimeoutError,
}

/// Error of a request to create a room.
#[derive(Debug)]
pub enum RegisterRoomRequestError {
    ChannelError(std::sync::mpsc::RecvTimeoutError),
}

/// Error of a request to register a member.
#[derive(Debug)]
pub enum RegisterUserRequestError {
    ChannelError(std::sync::mpsc::RecvTimeoutError),
    Error(RegisterUserError),
}

/// A request that the server thread serves between its cycles.
#[derive(Debug)]
pub enum ManagementRequest {
    RegisterRoom(RoomTemplate),
    RegisterUser(RoomId, UserTemplate),
    GetRooms,
    CommandTracerSessionTask(RoomId, CommandTracerSessionsTask),
}

/// The answer to a request.
#[derive(Debug)]
pub enum ManagementAnswer {
    RoomRegistered(RoomId),
    UserRegistered(Result<RoomMemberId, RegisterUserError>),
    Rooms(Vec<RoomId>),
    CommandTracerSessionTask(Result<CommandTracerSessionsAnswer, CommandTracerSessionTaskError>),
}

/// What a request for the command tracer of a room does, and its result:
/// the task runs on the room's sessions, or the room is not found.
pub open spec fn tracer_task_done(
    before: Rooms,
    after: Rooms,
    room_id: RoomId,
    task: CommandTracerSessionsTask,
    r: Result<CommandTracerSessionsAnswer, CommandTracerSessionTaskError>,
) -> bool {
    &&& after.room_id_generator == before.room_id_generator
    &&& after.changed_rooms == before.changed_rooms
    &&& if has_room(before.room_by_id@, room_id) {
        let i = room_index_of(before.room_by_id@, room_id);
        let room = before.room_by_id@[i];
        &&& r matches Ok(answer) && task_done(room.command_trace_session, after.room_by_id@[i].command_trace_session, task, answer)
        &&& after.room_by_id@ == before.room_by_id@.update(
            i,
            Room { command_trace_session: after.room_by_id@[i].command_trace_session, ..room },
        )
    } else {
        &&& r matches Err(CommandTracerSessionTaskError::RoomNotFound)
        &&& after.room_by_id == before.room_by_id
    }
}

/// What serving a request does to the rooms, and its answer.
pub open spec fn request_handled(before: Rooms, after: Rooms, request: ManagementRequest, r: ManagementAnswer) -> bool {
    match request {
        ManagementRequest::RegisterRoom(template) => r matches ManagementAnswer::RoomRegistered(id) && room_created(
            before,
            after,
            template,
            id,
        ),
        ManagementRequest::RegisterUser(room_id, template) => r matches ManagementAnswer::UserRegistered(result)
            && user_registered(before, after, room_id, template, result),
        ManagementRequest::GetRooms => r matches ManagementAnswer::Rooms(ids) && ids@.len() == before.room_by_id@.len()
            && (forall|i: int| 0 <= i < ids@.len() ==> #[trigger] ids@[i] == before.room_by_id@[i].id) && after == before,
        ManagementRequest::CommandTracerSessionTask(room_id, task) => r matches ManagementAnswer::CommandTracerSessionTask(result)
            && tracer_task_done(before, after, room_id, task, result),
    }
}

/// The request can be served: identifiers remain to be given, templates
/// describe objects, and a tracer request can be carried out.
pub open spec fn request_ok(rooms: Rooms, request: ManagementRequest) -> bool {
    match request {
        ManagementRequest::RegisterRoom(template) => rooms.room_id_generator < u64::MAX && templates_ok(template.objects@),
        ManagementRequest::RegisterUser(room_id, template) => {
            &&& templates_ok(template.objects@)
            &&& has_room(rooms.room_by_id@, room_id) ==> rooms.room_by_id@[room_index_of(rooms.room_by_id@, room_id)].member_id_generator < u16::MAX
        },
        ManagementRequest::GetRooms => true,
        ManagementRequest::CommandTracerSessionTask(room_id, task) => has_room(rooms.room_by_id@, room_id) ==> {
            let tracer = rooms.room_by_id@[room_index_of(rooms.room_by_id@, room_id)].command_trace_session;
            &&& task is CreateSession ==> tracer.session_id_generator < u16::MAX
            &&& task matches CommandTracerSessionsTask::SetFilter(_, query) ==> !(parse_query(query@) is Aborted)
        },
    }
}

impl Rooms {
    /// Whether the request can be served (see `request_ok`).
    pub fn can_serve(&self, request: &ManagementRequest) -> (r: bool)
        requires
            self.wf(),
        ensures
            r == request_ok(*self, *request),
    {
        match request {
            ManagementRequest::RegisterRoom(template) => self.room_id_generator < u64::MAX && templates_fit(&template.objects),
            ManagementRequest::RegisterUser(room_id, template) => {
                templates_fit(&template.objects) && match self.room_index(*room_id) {
                    Some(i) => self.room_by_id[i].member_id_generator < u16::MAX,
                    None => true,
                }
            },
            ManagementRequest::GetRooms => true,
            ManagementRequest::CommandTracerSessionTask(room_id, task) => match self.room_index(*room_id) {
                None => true,
                Some(i) => match task {
                    CommandTracerSessionsTask::CreateSession => self.room_by_id[i].command_trace_session.session_id_generator
                        < u16::MAX,
                    CommandTracerSessionsTask::SetFilter(_, query) => try_parse(query.as_str()).is_some(),
                    _ => true,
                },
            },
        }
    }

    /// The identifiers of the rooms, in the order they were created.
    pub fn room_ids(&self) -> (r: Vec<RoomId>)
        ensures
            r@.len() == self.room_by_id@.len(),
            forall|i: int| 0 <= i < r@.len() ==> #[trigger] r@[i] == self.room_by_id@[i].id,
    {
        let mut r: Vec<RoomId> = Vec::new();
        let mut i: usize = 0;
        while i < self.room_by_id.len()
            invariant
                i <= self.room_by_id@.len(),
                r@.len() == i,
                forall|j: int| 0 <= j < i ==> #[trigger] r@[j] == self.room_by_id@[j].id,
            decreases self.room_by_id@.len() - i,
        {
            r.push(self.room_by_id[i].id);
            i = i + 1;
        }
        r
    }

    /// Serve a request and give the answer to send back.
    pub fn handle_request(&mut self, request: ManagementRequest) -> (r: ManagementAnswer)
        requires
            old(self).wf(),
            request_ok(*old(self), request),
        ensures
            final(self).wf(),
            request_handled(*old(self), *final(self), request, r),
    {
        match request {
            ManagementRequest::RegisterRoom(template) => ManagementAnswer::RoomRegistered(self.create_room(template)),
            ManagementRequest::RegisterUser(room_id, template) => ManagementAnswer::UserRegistered(self.register_user(room_id, template)),
            ManagementRequest::GetRooms => ManagementAnswer::Rooms(self.room_ids()),
            ManagementRequest::CommandTracerSessionTask(room_id, task) => ManagementAnswer::CommandTracerSessionTask(
                self.execute_tracer_task(room_id, task),
            ),
        }
    }

    /// Carry out a request for the command tracer of a room.
    pub fn execute_tracer_task(&mut self, room_id: RoomId, task: CommandTracerSessionsTask) -> (r: Result<CommandTracerSessionsAnswer, CommandTracerSessionTaskError>)
        requires
            old(self).wf(),
            request_ok(*old(self), ManagementRequest::CommandTracerSessionTask(room_id, task)),
        ensures
            final(self).wf(),
            tracer_task_done(*old(self), *final(self), room_id, task, r),
    {
        let mut i: usize = 0;
        while i < self.room_by_id.len()
            invariant
                i <= self.room_by_id@.len(),
                self.wf(),
                self.room_by_id == old(self).room_by_id,
                self.room_id_generator == old(self).room_id_generator,
                self.changed_rooms == old(self).changed_rooms,
                request_ok(*old(self), ManagementRequest::CommandTracerSessionTask(room_id, task)),
                forall|j: int| 0 <= j < i ==> self.room_by_id@[j].id != room_id,
            decreases self.room_by_id@.len() - i,
        {
            if self.room_by_id[i].id == room_id {
                proof {
                    let k = room_index_of(self.room_by_id@, room_id);
                    if k < i {
                        assert(self.room_by_id@[k].id != self.room_by_id@[i as int].id);
                    } else if k > i {
                        assert(self.room_by_id@[i as int].id != self.room_by_id@[k].id);
                    }
                }
                let ghost before = self.room_by_id@;
                let answer = self.room_by_id[i].command_trace_session.execute_task(task);
                proof {
                    let rs = self.room_by_id@;
                    assert(rs == before.update(i as int, rs[i as int]));
                    assert(rs[i as int] == crate::room::Room { command_trace_session: rs[i as int].command_trace_session, ..before[i as int] });
                    assert forall|a: int, b: int| 0 <= a < b < rs.len() implies #[trigger] rs[a].id != #[trigger] rs[b].id by {
                        assert(rs[a].id == before[a].id);
                        assert(rs[b].id == before[b].id);
                    }
                    assert forall|a: int| 0 <= a < rs.len() implies #[trigger] rs[a].id <= self.room_id_generator by {
                        assert(rs[a].id == before[a].id);
                    }
                }
                return Ok(answer);
            }
            i = i + 1;
        }
        Err(CommandTracerSessionTaskError::RoomNotFound)
    }
}

} // verus!
