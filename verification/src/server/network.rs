//! What the network layer decides about members' frames: whose frames are
//! accepted, where a member's frames come from, and where its commands go.
use vstd::prelude::*;

use crate::protocol::{CommandWithChannel, CommandWithChannelType, MemberAndRoomId, SpecCommandWithChannelType};
use crate::room::command::ServerCommandError;
use crate::room::maps::{has_key, index_of, inserted, lemma_index_of, lemma_inserted, lookup, shift_removed, unique_keys};
use crate::room::member::out_view;
use crate::room::template::PrivateKey;
use crate::server::manager::{request_handled, request_ok, ManagementAnswer, ManagementRequest};
use crate::server::rooms::{commands_executed, member_disconnected, taken_view, Rooms};
use crate::types::{RoomId, RoomMemberId};

verus! {

/// Identifier of a frame; frames of a member are numbered upward from 1.
pub type FrameId = u64;

/// Where a member's frames come from, as far as the server knows.
#[derive(Debug, Clone, Copy, PartialEq, Eq)]
pub struct PeerState<A> {
    /// The address of the frame with the greatest identifier so far.
    pub peer_address: Option<A>,
    pub max_receive_frame_id: FrameId,
}

impl<A: Copy> PeerState<A> {
    pub fn new() -> (r: PeerState<A>)
        ensures
            r.peer_address is None,
            r.max_receive_frame_id == 0,
    {
        PeerState { peer_address: None, max_receive_frame_id: 0 }
    }

    /// A frame arrived from an address: the address becomes the member's if
    /// the frame is newer than all before it, or the first one.
    pub fn on_frame_received(&mut self, frame_id: FrameId, address: A)
        ensures
            if frame_id > old(self).max_receive_frame_id || old(self).max_receive_frame_id == 0 {
                &&& final(self).peer_address == Some(address)
                &&& final(self).max_receive_frame_id == frame_id
            } else {
                *final(self) == *old(self)
            },
    {
        if frame_id > self.max_receive_frame_id || self.max_receive_frame_id == 0 {
            self.peer_address = Some(address);
            self.max_receive_frame_id = frame_id;
        }
    }
}

/// Where a member's frames come from after a frame arrived from an address.
pub open spec fn received<A>(p: PeerState<A>, frame_id: FrameId, address: A) -> PeerState<A> {
    if frame_id > p.max_receive_frame_id || p.max_receive_frame_id == 0 {
        PeerState { peer_address: Some(address), max_receive_frame_id: frame_id }
    } else {
        p
    }
}

/// What the server knows of a member's connection: where its frames come
/// from, and the key of its frames.
#[derive(Debug, Clone, Copy)]
pub struct MemberSession<A> {
    pub peer: PeerState<A>,
    pub private_key: PrivateKey,
}

/// The sessions of the members, by member and room.
#[derive(Debug)]
pub struct NetworkSessions<A> {
    pub sessions: Vec<(MemberAndRoomId, MemberSession<A>)>,
}

/// What became of a received frame.
#[derive(Debug, Clone, Copy, PartialEq, Eq, Structural)]
pub enum FrameOutcome {
    /// The frame names no member and room.
    HeaderMissing,
    /// The member of the frame has no session.
    SessionNotFound,
    /// The commands of the frame could not be read with the member's key.
    Undecodable,
    /// The frame was accepted and its commands executed.
    Executed,
}

/// Where the commands taken from the rooms go: to each member that has a
/// session and an address, with the key of its frames; the others are skipped.
pub open spec fn routed<A>(
    sessions: Seq<(MemberAndRoomId, MemberSession<A>)>,
    out: Seq<(RoomId, RoomMemberId, Seq<SpecCommandWithChannelType>)>,
) -> Seq<(A, PrivateKey, Seq<SpecCommandWithChannelType>)>
    decreases out.len(),
{
    if out.len() == 0 {
        Seq::empty()
    } else {
        let e = out.last();
        let before = routed(sessions, out.drop_last());
        match lookup(sessions, MemberAndRoomId { member_id: e.1, room_id: e.0 }) {
            Some(s) => match s.peer.peer_address {
                Some(a) => before.push((a, s.private_key, e.2)),
                None => before,
            },
            None => before,
        }
    }
}

/// The session a member gets when it is registered: no address yet, and the
/// key of its frames.
pub open spec fn new_session<A>(private_key: PrivateKey) -> MemberSession<A> {
    MemberSession { peer: PeerState { peer_address: None, max_receive_frame_id: 0 }, private_key }
}

/// The sessions after a request was served: a member that a registration
/// request registered gets a new session; otherwise they are unchanged.
pub open spec fn sessions_after_request<A>(
    before: Seq<(MemberAndRoomId, MemberSession<A>)>,
    after: Seq<(MemberAndRoomId, MemberSession<A>)>,
    request: ManagementRequest,
    r: ManagementAnswer,
) -> bool {
    match (request, r) {
        (ManagementRequest::RegisterUser(room_id, template), ManagementAnswer::UserRegistered(Ok(member_id))) => after
            == inserted(before, MemberAndRoomId { member_id, room_id }, new_session::<A>(template.private_key)),
        _ => after == before,
    }
}

/// The rooms and the sessions of a run of requests, served in turn: before
/// each answered request the rooms could serve it, and each answer is what
/// serving it gives, with the rooms and sessions that follow.
pub open spec fn run_served<A>(
    trace: Seq<Rooms>,
    sessions: Seq<Seq<(MemberAndRoomId, MemberSession<A>)>>,
    requests: Seq<ManagementRequest>,
    answers: Seq<ManagementAnswer>,
) -> bool {
    &&& answers.len() <= requests.len()
    &&& trace.len() == answers.len() + 1
    &&& sessions.len() == answers.len() + 1
    &&& forall|i: int| 0 <= i < answers.len() ==> #[trigger] step_served(trace, sessions, requests, answers, i)
}

/// The request at `i` of a run could be served, and was: its answer, and the
/// rooms and sessions after it.
pub open spec fn step_served<A>(
    trace: Seq<Rooms>,
    sessions: Seq<Seq<(MemberAndRoomId, MemberSession<A>)>>,
    requests: Seq<ManagementRequest>,
    answers: Seq<ManagementAnswer>,
    i: int,
) -> bool {
    &&& request_ok(trace[i], requests[i])
    &&& request_handled(trace[i], trace[i + 1], requests[i], answers[i])
    &&& sessions_after_request(sessions[i], sessions[i + 1], requests[i], answers[i])
}

/// After a registration request, a member has a session in the room exactly
/// when it had one before or the registration gave it that identifier; the
/// registered member's session has the key of its template.
pub proof fn law_session_exactly_when_registered<A>(
    before: Seq<(MemberAndRoomId, MemberSession<A>)>,
    after: Seq<(MemberAndRoomId, MemberSession<A>)>,
    room_id: RoomId,
    template: crate::room::template::UserTemplate,
    r: ManagementAnswer,
    member_id: RoomMemberId,
)
    requires
        unique_keys(before),
        r is UserRegistered,
        sessions_after_request(before, after, ManagementRequest::RegisterUser(room_id, template), r),
    ensures
        has_key(after, MemberAndRoomId { member_id, room_id }) <==> (has_key(before, MemberAndRoomId { member_id, room_id })
            || r == ManagementAnswer::UserRegistered(Ok(member_id))),
        r == ManagementAnswer::UserRegistered(Ok(member_id)) ==> lookup(after, MemberAndRoomId { member_id, room_id })
            == Some(new_session::<A>(template.private_key)),
{
    if let ManagementAnswer::UserRegistered(Ok(id)) = r {
        lemma_inserted(before, MemberAndRoomId { member_id: id, room_id }, new_session::<A>(template.private_key));
        let k = MemberAndRoomId { member_id, room_id };
        if id != member_id {
            assert(lookup(after, k) == lookup(before, k));
        }
    }
}

/// The model of commands to send.
pub open spec fn routed_view<A>(
    r: Seq<(A, PrivateKey, Vec<CommandWithChannelType>)>,
) -> Seq<(A, PrivateKey, Seq<SpecCommandWithChannelType>)> {
    r.map_values(|e: (A, PrivateKey, Vec<CommandWithChannelType>)| (e.0, e.1, out_view(e.2@)))
}

impl<A: Copy> NetworkSessions<A> {
    /// No member has two sessions.
    pub open spec fn wf(&self) -> bool {
        unique_keys(self.sessions@)
    }

    pub fn new() -> (r: NetworkSessions<A>)
        ensures
            r.wf(),
            r.sessions@.len() == 0,
    {
        NetworkSessions { sessions: Vec::new() }
    }

    fn find(&self, id: &MemberAndRoomId) -> (r: Option<usize>)
        requires
            self.wf(),
        ensures
            match r {
                Some(i) => i < self.sessions@.len() && self.sessions@[i as int].0 == *id && has_key(self.sessions@, *id)
                    && index_of(self.sessions@, *id) == i,
                None => !has_key(self.sessions@, *id),
            },
    {
        let mut i: usize = 0;
        while i < self.sessions.len()
            invariant
                i <= self.sessions@.len(),
                self.wf(),
                forall|j: int| 0 <= j < i ==> #[trigger] self.sessions@[j].0 != *id,
            decreases self.sessions@.len() - i,
        {
            if self.sessions[i].0 == *id {
                proof {
                    lemma_index_of(self.sessions@, i as int);
                }
                return Some(i);
            }
            i = i + 1;
        }
        proof {
            if has_key(self.sessions@, *id) {
                let j = index_of(self.sessions@, *id);
                assert(self.sessions@[j].0 == *id);
            }
        }
        None
    }

    /// A member was registered in a room: it gets a new session, without an
    /// address yet, with the key of its frames.
    pub fn register_user(&mut self, room_id: RoomId, member_id: RoomMemberId, private_key: PrivateKey)
        requires
            old(self).wf(),
        ensures
            final(self).wf(),
            final(self).sessions@ == inserted(old(self).sessions@, MemberAndRoomId { member_id, room_id }, new_session::<A>(private_key)),
    {
        let id = MemberAndRoomId { member_id, room_id };
        let session = MemberSession { peer: PeerState::new(), private_key };
        proof {
            lemma_inserted(self.sessions@, id, session);
        }
        match self.find(&id) {
            Some(i) => {
                self.sessions.set(i, (id, session));
            },
            None => {
                self.sessions.push((id, session));
            },
        }
    }

    /// The key of the frames of a member, if it has a session.
    pub fn private_key(&self, id: &MemberAndRoomId) -> (r: Option<PrivateKey>)
        requires
            self.wf(),
        ensures
            r == match lookup(self.sessions@, *id) {
                Some(s) => Some(s.private_key),
                None => None::<PrivateKey>,
            },
    {
        match self.find(id) {
            Some(i) => Some(self.sessions[i].1.private_key),
            None => None,
        }
    }

    /// A frame arrived from an address, naming a member and room (if it
    /// does), with its identifier and commands (if they could be read with
    /// the member's key). A frame of a member with a session is accepted:
    /// the member's address follows the newest frame and its commands run in
    /// its room; any other frame changes nothing.
    pub fn on_frame<F: Fn(u64, u64) -> u64>(
        &mut self,
        rooms: &mut Rooms,
        header: Option<MemberAndRoomId>,
        frame: Option<(FrameId, Vec<CommandWithChannel>)>,
        address: A,
        sum: &F,
    ) -> (r: FrameOutcome)
        requires
            old(self).wf(),
            old(rooms).wf(),
            forall|a: u64, b: u64| sum.requires((a, b)),
        ensures
            final(self).wf(),
            final(rooms).wf(),
            match header {
                None => r == FrameOutcome::HeaderMissing && final(self).sessions == old(self).sessions && *final(rooms) == *old(rooms),
                Some(id) => if !has_key(old(self).sessions@, id) {
                    r == FrameOutcome::SessionNotFound && final(self).sessions == old(self).sessions && *final(rooms) == *old(rooms)
                } else {
                    match frame {
                        None => r == FrameOutcome::Undecodable && final(self).sessions == old(self).sessions && *final(rooms)
                            == *old(rooms),
                        Some((frame_id, commands)) => {
                            let i = index_of(old(self).sessions@, id);
                            let s = old(self).sessions@[i].1;
                            &&& r == FrameOutcome::Executed
                            &&& final(self).sessions@ == old(self).sessions@.update(
                                i,
                                (id, MemberSession { peer: received(s.peer, frame_id, address), ..s }),
                            )
                            &&& commands_executed(*old(rooms), *final(rooms), id, commands@, *sum)
                        },
                    }
                },
            },
    {
        let id = match header {
            None => return FrameOutcome::HeaderMissing,
            Some(id) => id,
        };
        let i = match self.find(&id) {
            None => return FrameOutcome::SessionNotFound,
            Some(i) => i,
        };
        let (frame_id, commands) = match frame {
            None => return FrameOutcome::Undecodable,
            Some(f) => f,
        };
        let mut session = self.sessions[i].1;
        session.peer.on_frame_received(frame_id, address);
        let ghost before = self.sessions@;
        self.sessions.set(i, (id, session));
        proof {
            assert forall|a: int, b: int| 0 <= a < b < self.sessions@.len() implies #[trigger] self.sessions@[a].0
                != #[trigger] self.sessions@[b].0 by {
                assert(self.sessions@[a].0 == before[a].0);
                assert(self.sessions@[b].0 == before[b].0);
            }
        }
        rooms.execute_commands(id, commands.as_slice(), sum);
        FrameOutcome::Executed
    }

    /// Where to send the commands taken from the rooms: the address and key
    /// of each member that has a session with an address, in order.
    pub fn destinations(&self, out: Vec<(RoomId, RoomMemberId, Vec<CommandWithChannelType>)>) -> (r: Vec<(A, PrivateKey, Vec<CommandWithChannelType>)>)
        requires
            self.wf(),
        ensures
            routed_view(r@) == routed(self.sessions@, taken_view(out@)),
    {
        let ghost all = taken_view(out@);
        let mut r: Vec<(A, PrivateKey, Vec<CommandWithChannelType>)> = Vec::new();
        let n = out.len();
        let mut pending = out;
        let mut k: usize = 0;
        proof {
            assert(all.take(0) == Seq::<(RoomId, RoomMemberId, Seq<SpecCommandWithChannelType>)>::empty());
        }
        while k < n
            invariant
                k <= n,
                n == all.len(),
                self.wf(),
                taken_view(pending@) == all.subrange(k as int, n as int),
                routed_view(r@) == routed(self.sessions@, all.take(k as int)),
            decreases n - k,
        {
            let ghost before_r = r@;
            let ghost rest = pending@;
            proof {
                assert(taken_view(rest).len() == rest.len());
            }
            let (room_id, member_id, commands) = pending.remove(0);
            proof {
                assert(taken_view(rest)[0] == all[k as int]);
                assert(all.take(k + 1).drop_last() == all.take(k as int));
                assert(all.take(k + 1).last() == all[k as int]);
                assert(pending@ == rest.drop_first());
                assert(taken_view(pending@) =~= taken_view(rest).drop_first());
                assert(taken_view(pending@) == all.subrange(k + 1, n as int));
            }
            let id = MemberAndRoomId { member_id, room_id };
            match self.find(&id) {
                Some(i) => match self.sessions[i].1.peer.peer_address {
                    Some(a) => {
                        r.push((a, self.sessions[i].1.private_key, commands));
                        proof {
                            assert(routed_view(r@) == routed_view(before_r).push((a, self.sessions@[i as int].1.private_key, out_view(commands@))));
                        }
                    },
                    None => {},
                },
                None => {},
            }
            k = k + 1;
        }
        proof {
            assert(all.take(n as int) == all);
        }
        r
    }

    /// Serve a request on the rooms; a member registered in a room gets a new
    /// session with the key of its template, and no other request changes the
    /// sessions.
    pub fn serve_request(&mut self, rooms: &mut Rooms, request: ManagementRequest) -> (r: ManagementAnswer)
        requires
            old(self).wf(),
            old(rooms).wf(),
            request_ok(*old(rooms), request),
        ensures
            final(self).wf(),
            final(rooms).wf(),
            request_handled(*old(rooms), *final(rooms), request, r),
            sessions_after_request(old(self).sessions@, final(self).sessions@, request, r),
    {
        let registration = match &request {
            ManagementRequest::RegisterUser(room_id, template) => Some((*room_id, template.private_key)),
            _ => None,
        };
        let answer = rooms.handle_request(request);
        match (registration, &answer) {
            (Some((room_id, private_key)), ManagementAnswer::UserRegistered(Ok(member_id))) => {
                self.register_user(room_id, *member_id, private_key);
            },
            _ => {},
        }
        answer
    }

    /// Serve a run of requests in turn, one answer each, as `serve_request`
    /// does; the run stops before the first request that cannot be served
    /// (see `request_ok`), which then gets no answer.
    pub fn serve_requests(&mut self, rooms: &mut Rooms, requests: Vec<ManagementRequest>) -> (r: Vec<ManagementAnswer>)
        requires
            old(self).wf(),
            old(rooms).wf(),
        ensures
            final(self).wf(),
            final(rooms).wf(),
            exists|trace: Seq<Rooms>, sessions: Seq<Seq<(MemberAndRoomId, MemberSession<A>)>>|
                {
                    &&& #[trigger] run_served(trace, sessions, requests@, r@)
                    &&& trace[0] == *old(rooms)
                    &&& trace.last() == *final(rooms)
                    &&& sessions[0] == old(self).sessions@
                    &&& sessions.last() == final(self).sessions@
                },
            r@.len() < requests@.len() ==> !request_ok(*final(rooms), requests@[r@.len() as int]),
    {
        let ghost all = requests@;
        let ghost mut trace: Seq<Rooms> = seq![*rooms];
        let ghost mut sessions: Seq<Seq<(MemberAndRoomId, MemberSession<A>)>> = seq![self.sessions@];
        let mut rest = requests;
        let mut answers: Vec<ManagementAnswer> = Vec::new();
        let mut stopped = false;
        while !stopped && rest.len() > 0
            invariant
                self.wf(),
                rooms.wf(),
                answers@.len() <= all.len(),
                rest@ == all.skip(answers@.len() as int),
                run_served(trace, sessions, all, answers@),
                trace.last() == *rooms,
                sessions.last() == self.sessions@,
                trace[0] == *old(rooms),
                sessions[0] == old(self).sessions@,
                stopped ==> answers@.len() < all.len() && !request_ok(*rooms, all[answers@.len() as int]),
            decreases rest@.len() + if stopped { 0int } else { 1int },
        {
            let ghost k = answers@.len() as int;
            assert(rest@.len() == all.len() - k);
            assert(rest@[0] == all[k]);
            if !rooms.can_serve(&rest[0]) {
                stopped = true;
            } else {
                let request = rest.remove(0);
                let ghost rooms0 = *rooms;
                let ghost a0 = answers@;
                let ghost t0 = trace;
                let ghost s0 = sessions;
                let answer = self.serve_request(rooms, request);
                answers.push(answer);
                proof {
                    trace = t0.push(*rooms);
                    sessions = s0.push(self.sessions@);
                    assert(all.skip(k + 1) == all.skip(k).drop_first());
                    assert forall|i: int| 0 <= i < answers@.len() implies #[trigger] step_served(trace, sessions, all, answers@, i) by {
                        if i < k {
                            assert(step_served(t0, s0, all, a0, i));
                            assert(answers@[i] == a0[i]);
                            assert(trace[i] == t0[i] && trace[i + 1] == t0[i + 1]);
                            assert(sessions[i] == s0[i] && sessions[i + 1] == s0[i + 1]);
                        } else {
                            assert(trace[i] == rooms0);
                        }
                    }
                    assert(answers@.len() <= all.len());
                    assert(trace.len() == answers@.len() + 1);
                    assert(sessions.len() == answers@.len() + 1);
                    assert(run_served(trace, sessions, all, answers@));
                }
            }
        }
        proof {
            if answers@.len() < all.len() && !stopped {
                assert(rest@.len() == 0);
                assert(all.skip(answers@.len() as int).len() == all.len() - answers@.len());
            }
        }
        answers
    }

    /// A member's connection is lost: the member leaves its room and its
    /// session goes.
    pub fn disconnected(&mut self, rooms: &mut Rooms, id: MemberAndRoomId) -> (r: Result<(), ServerCommandError>)
        requires
            old(self).wf(),
            old(rooms).wf(),
        ensures
            final(self).wf(),
            final(rooms).wf(),
            final(self).sessions@ == shift_removed(old(self).sessions@, id),
            member_disconnected(*old(rooms), *final(rooms), id, r),
    {
        let r = rooms.user_disconnected(&id);
        proof {
            crate::room::maps::lemma_shift_removed(self.sessions@, id);
        }
        match self.find(&id) {
            Some(i) => {
                let _ = self.sessions.remove(i);
            },
            None => {},
        }
        r
    }
}

} // verus!
