//! Sessions that collect network commands for debugging. Each session keeps
//! every command since its creation (up to a limit) and the commands that
//! pass its filter; a client changes the filter of a session and reads the
//! filtered commands.
use vstd::prelude::*;

use crate::commands::{c2s_object_id, C2SCommand, C2SCommandOf, S2CCommand, SpecC2SCommand};
use crate::debug::tracer::filter::{lemma_rule_matches_view, rule_matches, rule_view, Filter, SpecRule};
use crate::debug::tracer::parser::{error_text, error_view, parse, try_parse};
use crate::debug::tracer::query::{parse_query, Outcome, ParseError, SpecParseError};
use crate::debug::tracer::traced::{SpecTracedCommand, TracedCommand, TracedCommandOf, UniDirectionCommand, UniDirectionCommandOf};
use crate::room::maps::lookup;
use crate::room::object::GameObjectModel;
use crate::room::objects::{object_entries, objects_get, GameObjects};
use crate::types::{GameObjectId, GameObjectTemplateId, RoomMemberId};

verus! {

broadcast use vstd::std_specs::vec::group_vec_axioms;

pub type SessionId = u16;

/// Largest number of commands a session keeps, plus one.
pub const BUFFER_LIMIT: usize = 65000;

/// Error of a tracer request.
#[derive(Debug)]
pub enum CommandTracerSessionsError {
    QueryError(String),
    SessionNotFound,
}

/// A collecting session.
#[derive(Debug)]
pub struct Session {
    /// The filter; without one, every command is a filtered command.
    pub filter: Option<Filter>,
    /// Every command since the session was created, within the buffer limit.
    pub commands: std::collections::VecDeque<TracedCommand>,
    /// The commands that passed the filter and were not read yet.
    pub filtered_commands: std::collections::VecDeque<TracedCommand>,
}

/// Model of a session.
pub struct SessionModel {
    pub filter: Option<SpecRule>,
    pub commands: Seq<SpecTracedCommand>,
    pub filtered: Seq<SpecTracedCommand>,
}

pub open spec fn commands_view(s: Seq<TracedCommand>) -> Seq<SpecTracedCommand> {
    s.map_values(|c: TracedCommand| c@)
}

pub open spec fn filter_view(f: Option<Filter>) -> Option<SpecRule> {
    match f {
        Some(f) => Some(rule_view(f.rule)),
        None => None,
    }
}

impl View for Session {
    type V = SessionModel;

    open spec fn view(&self) -> SessionModel {
        SessionModel {
            filter: filter_view(self.filter),
            commands: commands_view(self.commands@),
            filtered: commands_view(self.filtered_commands@),
        }
    }
}

/// Whether a command passes an optional filter (no filter passes everything).
pub open spec fn passes(filter: Option<SpecRule>, c: SpecTracedCommand) -> bool {
    match filter {
        Some(rule) => rule_matches(rule, c),
        None => true,
    }
}

/// A buffer after a push, with its oldest element dropped when it reached the limit.
pub open spec fn limited(s: Seq<SpecTracedCommand>) -> Seq<SpecTracedCommand> {
    if s.len() >= BUFFER_LIMIT {
        s.drop_first()
    } else {
        s
    }
}

/// The session after it collected a command.
pub open spec fn collected(s: SessionModel, c: SpecTracedCommand) -> SessionModel {
    SessionModel {
        filter: s.filter,
        commands: limited(s.commands.push(c)),
        filtered: if passes(s.filter, c) {
            limited(s.filtered.push(c))
        } else {
            s.filtered
        },
    }
}

/// The commands of a sequence that pass a rule, in order.
pub open spec fn matching(rule: SpecRule, s: Seq<SpecTracedCommand>) -> Seq<SpecTracedCommand>
    decreases s.len(),
{
    if s.len() == 0 {
        s
    } else if rule_matches(rule, s.last()) {
        matching(rule, s.drop_last()).push(s.last())
    } else {
        matching(rule, s.drop_last())
    }
}

pub open spec fn empty_session() -> SessionModel {
    SessionModel { filter: None, commands: Seq::empty(), filtered: Seq::empty() }
}

impl Session {
    pub open spec fn wf(&self) -> bool {
        &&& self.commands@.len() < BUFFER_LIMIT
        &&& self.filtered_commands@.len() < BUFFER_LIMIT
    }

    pub fn new() -> (r: Session)
        ensures
            r@ == empty_session(),
            r.wf(),
    {
        let r = Session {
            filter: None,
            commands: std::collections::VecDeque::new(),
            filtered_commands: std::collections::VecDeque::new(),
        };
        proof {
            assert(commands_view(r.commands@) == Seq::<SpecTracedCommand>::empty());
            assert(commands_view(r.filtered_commands@) == Seq::<SpecTracedCommand>::empty());
        }
        r
    }

    fn push_limited(buffer: &mut std::collections::VecDeque<TracedCommand>, command: TracedCommand)
        requires
            old(buffer)@.len() < BUFFER_LIMIT,
        ensures
            commands_view(final(buffer)@) == limited(commands_view(old(buffer)@).push(command@)),
            final(buffer)@.len() < BUFFER_LIMIT,
    {
        let ghost before = buffer@;
        buffer.push_back(command);
        proof {
            assert(commands_view(buffer@) == commands_view(before).push(command@));
        }
        if buffer.len() >= BUFFER_LIMIT {
            let ghost full = buffer@;
            let _ = buffer.pop_front();
            proof {
                assert(commands_view(buffer@) == commands_view(full).drop_first());
            }
        }
    }

    /// Store a command: in the filtered commands if it passes the filter, and
    /// in every command; each buffer drops its oldest command at the limit.
    pub fn collect(&mut self, time: u64, template: Option<GameObjectTemplateId>, user: RoomMemberId, network_command: crate::debug::tracer::traced::UniDirectionCommand)
        requires
            old(self).wf(),
        ensures
            final(self).wf(),
            final(self)@ == collected(old(self)@, TracedCommandOf { time, template, user, network_command: network_command@ }),
    {
        let command = TracedCommandOf { time, template, user, network_command };
        let pass = match &self.filter {
            None => true,
            Some(filter) => filter.filter(&command),
        };
        proof {
            if self.filter is Some {
                lemma_rule_matches_view(rule_view(self.filter->0.rule), command);
            }
        }
        if pass {
            let copy = command.copy();
            Self::push_limited(&mut self.filtered_commands, copy);
        }
        Self::push_limited(&mut self.commands, command);
    }

    /// Keep the filter in the session and make the filtered commands those of
    /// the collected commands that pass it.
    pub fn apply_filter(&mut self, filter: Filter)
        requires
            old(self).wf(),
        ensures
            final(self).wf(),
            final(self)@.filter == Some(rule_view(filter.rule)),
            final(self)@.commands == old(self)@.commands,
            final(self)@.filtered == matching(rule_view(filter.rule), old(self)@.commands),
    {
        let mut filtered: std::collections::VecDeque<TracedCommand> = std::collections::VecDeque::new();
        let mut i: usize = 0;
        let ghost all = commands_view(self.commands@);
        while i < self.commands.len()
            invariant
                i <= self.commands@.len(),
                all == commands_view(self.commands@),
                commands_view(filtered@) == matching(rule_view(filter.rule), all.take(i as int)),
                filtered@.len() <= i,
            decreases self.commands@.len() - i,
        {
            let ghost before = filtered@;
            let c = &self.commands[i];
            proof {
                assert(all.take(i + 1).drop_last() == all.take(i as int));
                assert(all.take(i + 1).last() == c@);
            }
            proof {
                lemma_rule_matches_view(rule_view(filter.rule), *c);
            }
            if filter.filter(c) {
                filtered.push_back(c.copy());
                proof {
                    assert(commands_view(filtered@) == commands_view(before).push(c@));
                }
            }
            i = i + 1;
        }
        proof {
            assert(all.take(self.commands@.len() as int) == all);
        }
        self.filtered_commands = filtered;
        self.filter = Some(filter);
    }

    /// Take the filtered commands out of the session.
    pub fn drain_filtered(&mut self) -> (r: Vec<TracedCommand>)
        requires
            old(self).wf(),
        ensures
            final(self).wf(),
            commands_view(r@) == old(self)@.filtered,
            final(self)@.filtered == Seq::<SpecTracedCommand>::empty(),
            final(self)@.filter == old(self)@.filter,
            final(self)@.commands == old(self)@.commands,
    {
        let mut r: Vec<TracedCommand> = Vec::new();
        let ghost all = commands_view(self.filtered_commands@);
        while self.filtered_commands.len() > 0
            invariant
                all == commands_view(r@) + commands_view(self.filtered_commands@),
                self.filtered_commands@.len() < BUFFER_LIMIT,
                self.filter == old(self).filter,
                self.commands == old(self).commands,
                self.commands@.len() < BUFFER_LIMIT,
            decreases self.filtered_commands@.len(),
        {
            let ghost rest = self.filtered_commands@;
            let ghost done = r@;
            let c = self.filtered_commands.pop_front().unwrap();
            r.push(c);
            proof {
                assert(commands_view(r@) == commands_view(done).push(c@));
                assert(commands_view(self.filtered_commands@) == commands_view(rest).drop_first());
                assert(commands_view(rest) == seq![c@] + commands_view(rest).drop_first());
                assert(commands_view(done) + commands_view(rest) == commands_view(r@) + commands_view(
                    self.filtered_commands@,
                ));
            }
        }
        proof {
            assert(commands_view(self.filtered_commands@) == Seq::<SpecTracedCommand>::empty());
            assert(all == commands_view(r@));
        }
        r
    }
}

/// Nanoseconds since the Unix epoch by the system clock (0 before the epoch).
#[verifier::external_body]
fn now_nanos() -> u64 {
    std::time::SystemTime::now().duration_since(std::time::UNIX_EPOCH).map(|d| d.as_nanos() as u64).unwrap_or(0)
}

/// The collecting sessions of a room. A client creates a session, changes its
/// filter over the commands already collected and those still to come, and
/// takes the filtered commands.
#[derive(Debug)]
pub struct CommandTracerSessions {
    pub session_id_generator: SessionId,
    pub sessions: Vec<(SessionId, Session)>,
}

/// A request to the sessions of a room.
#[derive(Debug)]
pub enum CommandTracerSessionsTask {
    CreateSession,
    SetFilter(SessionId, String),
    GetCommands(SessionId),
    CloseSession(SessionId),
}

/// The answer to a request.
#[derive(Debug)]
pub enum CommandTracerSessionsAnswer {
    SessionCreated(SessionId),
    FilterSet(Result<(), CommandTracerSessionsError>),
    Commands(Result<Vec<TracedCommand>, CommandTracerSessionsError>),
    SessionClosed(Result<(), CommandTracerSessionsError>),
}

pub open spec fn sessions_view(s: Seq<(SessionId, Session)>) -> Seq<(SessionId, SessionModel)> {
    s.map_values(|e: (SessionId, Session)| (e.0, e.1@))
}

/// Every session after it collected a command.
pub open spec fn all_collected(s: Seq<(SessionId, SessionModel)>, c: SpecTracedCommand) -> Seq<(SessionId, SessionModel)> {
    s.map_values(|e: (SessionId, SessionModel)| (e.0, collected(e.1, c)))
}

/// The session has the identifier.
pub open spec fn has_session(s: Seq<(SessionId, SessionModel)>, id: SessionId) -> bool {
    exists|i: int| 0 <= i < s.len() && #[trigger] s[i].0 == id
}

/// Position of the session with the identifier.
pub open spec fn session_index(s: Seq<(SessionId, SessionModel)>, id: SessionId) -> int {
    choose|i: int| 0 <= i < s.len() && #[trigger] s[i].0 == id
}

/// The template of the object that a client command refers to: the one it
/// creates, or the one of the existing object.
pub open spec fn c2s_template(objects: Seq<(GameObjectId, GameObjectModel)>, c: SpecC2SCommand) -> Option<GameObjectTemplateId> {
    match c2s_object_id(c) {
        None => None,
        Some(id) => match c {
            C2SCommandOf::Create(create) => Some(create.template),
            _ => match lookup(objects, id) {
                Some(o) => Some(o.template_id),
                None => None,
            },
        },
    }
}

impl CommandTracerSessions {
    pub open spec fn view(&self) -> Seq<(SessionId, SessionModel)> {
        sessions_view(self.sessions@)
    }

    /// Session identifiers are distinct and below the next one; every session is well formed.
    pub open spec fn wf(&self) -> bool {
        &&& forall|i: int, j: int| 0 <= i < j < self.sessions@.len() ==> #[trigger] self.sessions@[i].0 != #[trigger] self.sessions@[j].0
        &&& forall|i: int| 0 <= i < self.sessions@.len() ==> #[trigger] self.sessions@[i].0 < self.session_id_generator
        &&& forall|i: int| 0 <= i < self.sessions@.len() ==> (#[trigger] self.sessions@[i]).1.wf()
    }

    pub fn new() -> (r: CommandTracerSessions)
        ensures
            r.wf(),
            r.view() == Seq::<(SessionId, SessionModel)>::empty(),
            r.session_id_generator == 0,
    {
        let r = CommandTracerSessions { session_id_generator: 0, sessions: Vec::new() };
        proof {
            assert(r.view() == Seq::<(SessionId, SessionModel)>::empty());
        }
        r
    }

    /// Create an empty session with the next identifier.
    pub fn create_session(&mut self) -> (r: SessionId)
        requires
            old(self).wf(),
            old(self).session_id_generator < u16::MAX,
        ensures
            final(self).wf(),
            r == old(self).session_id_generator,
            final(self).session_id_generator == old(self).session_id_generator + 1,
            final(self).view() == old(self).view().push((r, empty_session())),
    {
        let id = self.session_id_generator;
        self.session_id_generator = self.session_id_generator + 1;
        let ghost before = self.sessions@;
        self.sessions.push((id, Session::new()));
        proof {
            assert(sessions_view(self.sessions@) == sessions_view(before).push((id, empty_session())));
        }
        id
    }

    fn find(&self, id: SessionId) -> (r: Option<usize>)
        requires
            self.wf(),
        ensures
            match r {
                Some(i) => i < self.sessions@.len() && self.sessions@[i as int].0 == id && has_session(self.view(), id)
                    && session_index(self.view(), id) == i,
                None => !has_session(self.view(), id),
            },
    {
        let mut i: usize = 0;
        while i < self.sessions.len()
            invariant
                i <= self.sessions@.len(),
                self.wf(),
                forall|j: int| 0 <= j < i ==> self.sessions@[j].0 != id,
            decreases self.sessions@.len() - i,
        {
            if self.sessions[i].0 == id {
                proof {
                    assert(self.view()[i as int].0 == id);
                    let k = session_index(self.view(), id);
                    assert(self.view()[k].0 == self.sessions@[k].0);
                    if k < i {
                        assert(self.sessions@[k].0 != self.sessions@[i as int].0);
                    } else if k > i {
                        assert(self.sessions@[i as int].0 != self.sessions@[k].0);
                    }
                }
                return Some(i);
            }
            i = i + 1;
        }
        proof {
            if has_session(self.view(), id) {
                let k = session_index(self.view(), id);
                assert(self.view()[k].0 == self.sessions@[k].0);
            }
        }
        None
    }

    /// Set the filter of a session from a query, and filter its collected commands anew.
    pub fn set_filter(&mut self, session_id: SessionId, query: &str) -> (r: Result<(), CommandTracerSessionsError>)
        requires
            old(self).wf(),
            !(parse_query(query@) is Aborted),
        ensures
            final(self).wf(),
            filter_set(*old(self), *final(self), session_id, query@, r),
    {
        match parse(query) {
            Err(e) => Err(CommandTracerSessionsError::QueryError(e.to_debug_string())),
            Ok(rule) => {
                let filter = Filter::new(rule);
                match self.find(session_id) {
                    None => Err(CommandTracerSessionsError::SessionNotFound),
                    Some(i) => {
                        let ghost before = self.sessions@;
                        let (id, mut session) = self.sessions.remove(i);
                        session.apply_filter(filter);
                        let ghost changed = session;
                        self.sessions.insert(i, (id, session));
                        proof {
                            assert(self.sessions@ == before.update(i as int, (id, changed)));
                            assert(sessions_view(self.sessions@) == sessions_view(before).update(i as int, (id, changed@)));
                            assert forall|a: int, b: int| 0 <= a < b < self.sessions@.len() implies #[trigger] self.sessions@[a].0 != #[trigger] self.sessions@[b].0 by {
                                assert(self.sessions@[a].0 == before[a].0);
                                assert(self.sessions@[b].0 == before[b].0);
                            }
                            assert forall|a: int| 0 <= a < self.sessions@.len() implies #[trigger] self.sessions@[a].0 < self.session_id_generator by {
                                assert(self.sessions@[a].0 == before[a].0);
                            }
                        }
                        Ok(())
                    },
                }
            },
        }
    }

    /// Every session collects a client command at the given time.
    pub fn collect_c2s_at(&mut self, time: u64, objects: &GameObjects, user: RoomMemberId, command: &C2SCommand)
        requires
            old(self).wf(),
        ensures
            final(self).wf(),
            final(self).session_id_generator == old(self).session_id_generator,
            final(self).view() == all_collected(
                old(self).view(),
                TracedCommandOf {
                    time,
                    template: c2s_template(object_entries(*objects), command@),
                    user,
                    network_command: UniDirectionCommandOf::C2S(command@),
                },
            ),
    {
        let template = match command.get_object_id() {
            None => None,
            Some(object_id) => match command {
                C2SCommandOf::Create(create) => Some(create.template),
                _ => match objects_get(objects, &object_id) {
                    None => None,
                    Some(object) => Some(object.template_id),
                },
            },
        };
        self.collect_all(time, template, user, UniDirectionCommandOf::C2S(command.copy()));
    }

    /// Every session collects a client command, at the time of the system clock.
    pub fn collect_c2s(&mut self, objects: &GameObjects, user: RoomMemberId, command: &C2SCommand)
        requires
            old(self).wf(),
        ensures
            final(self).wf(),
            final(self).session_id_generator == old(self).session_id_generator,
            exists|time: u64| final(self).view() == all_collected(
                old(self).view(),
                TracedCommandOf {
                    time,
                    template: c2s_template(object_entries(*objects), command@),
                    user,
                    network_command: UniDirectionCommandOf::C2S(command@),
                },
            ),
    {
        let time = now_nanos();
        self.collect_c2s_at(time, objects, user, command);
    }

    /// Every session collects a command to a client at the given time.
    pub fn collect_s2c_at(&mut self, time: u64, template: GameObjectTemplateId, user: RoomMemberId, command: &S2CCommand)
        requires
            old(self).wf(),
        ensures
            final(self).wf(),
            final(self).session_id_generator == old(self).session_id_generator,
            final(self).view() == all_collected(
                old(self).view(),
                TracedCommandOf {
                    time,
                    template: Some(template),
                    user,
                    network_command: UniDirectionCommandOf::S2C(command@),
                },
            ),
    {
        self.collect_all(time, Some(template), user, UniDirectionCommandOf::S2C(command.copy()));
    }

    /// Every session collects a command to a client, at the time of the system clock.
    pub fn collect_s2c(&mut self, template: GameObjectTemplateId, user: RoomMemberId, command: &S2CCommand)
        requires
            old(self).wf(),
        ensures
            final(self).wf(),
            final(self).session_id_generator == old(self).session_id_generator,
            exists|time: u64| final(self).view() == all_collected(
                old(self).view(),
                TracedCommandOf {
                    time,
                    template: Some(template),
                    user,
                    network_command: UniDirectionCommandOf::S2C(command@),
                },
            ),
    {
        let time = now_nanos();
        self.collect_s2c_at(time, template, user, command);
    }

    fn collect_all(&mut self, time: u64, template: Option<GameObjectTemplateId>, user: RoomMemberId, network_command: UniDirectionCommand)
        requires
            old(self).wf(),
        ensures
            final(self).wf(),
            final(self).session_id_generator == old(self).session_id_generator,
            final(self).view() == all_collected(
                old(self).view(),
                TracedCommandOf { time, template, user, network_command: network_command@ },
            ),
    {
        let ghost c = TracedCommandOf { time, template, user, network_command: network_command@ };
        let ghost before = self.view();
        let n = self.sessions.len();
        let mut i: usize = 0;
        while i < n
            invariant
                n == self.sessions@.len(),
                i <= n,
                before.len() == n,
                self.wf(),
                self.session_id_generator == old(self).session_id_generator,
                c == (TracedCommandOf { time, template, user, network_command: network_command@ }),
                forall|j: int| 0 <= j < i ==> #[trigger] self.view()[j] == (before[j].0, collected(before[j].1, c)),
                forall|j: int| i <= j < n ==> #[trigger] self.view()[j] == before[j],
            decreases n - i,
        {
            let ghost prev = self.sessions@;
            assert(self.view()[i as int] == before[i as int]);
            let (id, mut session) = self.sessions.remove(i);
            let ghost old_session = session;
            session.collect(time, template, user, network_command.copy());
            let ghost changed = session;
            self.sessions.insert(i, (id, session));
            proof {
                assert(self.sessions@ == prev.update(i as int, (id, changed)));
                assert(old_session == prev[i as int].1);
                assert(sessions_view(prev)[i as int] == before[i as int]);
                assert(changed@ == collected(old_session@, c));
                assert(sessions_view(self.sessions@) == sessions_view(prev).update(i as int, (id, changed@)));
                assert forall|a: int, b: int| 0 <= a < b < self.sessions@.len() implies #[trigger] self.sessions@[a].0 != #[trigger] self.sessions@[b].0 by {
                    assert(self.sessions@[a].0 == prev[a].0);
                    assert(self.sessions@[b].0 == prev[b].0);
                }
                assert forall|a: int| 0 <= a < self.sessions@.len() implies #[trigger] self.sessions@[a].0 < self.session_id_generator by {
                    assert(self.sessions@[a].0 == prev[a].0);
                }
                assert forall|j: int| 0 <= j < i + 1 implies #[trigger] self.view()[j] == (before[j].0, collected(before[j].1, c)) by {
                    if j < i {
                        assert(self.view()[j] == sessions_view(prev)[j]);
                    }
                }
                assert forall|j: int| i + 1 <= j < n implies #[trigger] self.view()[j] == before[j] by {
                    assert(self.view()[j] == sessions_view(prev)[j]);
                }
            }
            i = i + 1;
        }
        proof {
            assert(self.view() == all_collected(before, c));
        }
    }

    /// Take the filtered commands of a session.
    pub fn drain_filtered_commands(&mut self, session_id: SessionId) -> (r: Result<Vec<TracedCommand>, CommandTracerSessionsError>)
        requires
            old(self).wf(),
        ensures
            final(self).wf(),
            drained(*old(self), *final(self), session_id, r),
    {
        match self.find(session_id) {
            None => Err(CommandTracerSessionsError::SessionNotFound),
            Some(i) => {
                let ghost before = self.sessions@;
                let (id, mut session) = self.sessions.remove(i);
                let commands = session.drain_filtered();
                let ghost changed = session;
                self.sessions.insert(i, (id, session));
                proof {
                    assert(self.sessions@ == before.update(i as int, (id, changed)));
                    assert(sessions_view(self.sessions@) == sessions_view(before).update(i as int, (id, changed@)));
                    assert forall|a: int, b: int| 0 <= a < b < self.sessions@.len() implies #[trigger] self.sessions@[a].0 != #[trigger] self.sessions@[b].0 by {
                        assert(self.sessions@[a].0 == before[a].0);
                        assert(self.sessions@[b].0 == before[b].0);
                    }
                    assert forall|a: int| 0 <= a < self.sessions@.len() implies #[trigger] self.sessions@[a].0 < self.session_id_generator by {
                        assert(self.sessions@[a].0 == before[a].0);
                    }
                }
                Ok(commands)
            },
        }
    }

    /// Remove a session.
    pub fn close_session(&mut self, session_id: SessionId) -> (r: Result<(), CommandTracerSessionsError>)
        requires
            old(self).wf(),
        ensures
            final(self).wf(),
            session_closed(*old(self), *final(self), session_id, r),
    {
        match self.find(session_id) {
            None => Err(CommandTracerSessionsError::SessionNotFound),
            Some(i) => {
                let ghost before = self.sessions@;
                let _ = self.sessions.remove(i);
                proof {
                    assert(sessions_view(self.sessions@) == sessions_view(before).remove(i as int));
                    assert forall|a: int, b: int| 0 <= a < b < self.sessions@.len() implies #[trigger] self.sessions@[a].0 != #[trigger] self.sessions@[b].0 by {
                        let ia = if a < i { a } else { a + 1 };
                        let ib = if b < i { b } else { b + 1 };
                        assert(self.sessions@[a] == before[ia]);
                        assert(self.sessions@[b] == before[ib]);
                    }
                    assert forall|a: int| 0 <= a < self.sessions@.len() implies #[trigger] self.sessions@[a].0 < self.session_id_generator by {
                        let ia = if a < i { a } else { a + 1 };
                        assert(self.sessions@[a] == before[ia]);
                    }
                    assert forall|a: int| 0 <= a < self.sessions@.len() implies (#[trigger] self.sessions@[a]).1.wf() by {
                        let ia = if a < i { a } else { a + 1 };
                        assert(self.sessions@[a] == before[ia]);
                    }
                }
                Ok(())
            },
        }
    }

    /// Carry out a request and give its answer: the answer of the matching
    /// method (`law_task_is_direct_call`).
    pub fn execute_task(&mut self, task: CommandTracerSessionsTask) -> (r: CommandTracerSessionsAnswer)
        requires
            old(self).wf(),
            task is CreateSession ==> old(self).session_id_generator < u16::MAX,
            task matches CommandTracerSessionsTask::SetFilter(_, query) ==> !(parse_query(query@) is Aborted),
        ensures
            final(self).wf(),
            task_done(*old(self), *final(self), task, r),
    {
        match task {
            CommandTracerSessionsTask::CreateSession => CommandTracerSessionsAnswer::SessionCreated(self.create_session()),
            CommandTracerSessionsTask::SetFilter(id, query) => CommandTracerSessionsAnswer::FilterSet(self.set_filter(id, query.as_str())),
            CommandTracerSessionsTask::GetCommands(id) => CommandTracerSessionsAnswer::Commands(self.drain_filtered_commands(id)),
            CommandTracerSessionsTask::CloseSession(id) => CommandTracerSessionsAnswer::SessionClosed(self.close_session(id)),
        }
    }
}

} // verus!

verus! {

/// Taking the filtered commands of a session twice gives nothing the second time.
pub proof fn law_drain_twice(
    s0: CommandTracerSessions,
    s1: CommandTracerSessions,
    s2: CommandTracerSessions,
    id: SessionId,
    first: Result<Vec<TracedCommand>, CommandTracerSessionsError>,
    second: Result<Vec<TracedCommand>, CommandTracerSessionsError>,
)
    requires
        s0.wf(),
        s1.wf(),
        has_session(s0.view(), id),
        drained(s0, s1, id, first),
        drained(s1, s2, id, second),
    ensures
        second matches Ok(commands) && commands@.len() == 0,
{
    let i = session_index(s0.view(), id);
    assert(s1.view()[i].0 == id);
    assert(has_session(s1.view(), id));
    let k = session_index(s1.view(), id);
    assert(s1.view()[k].0 == s1.sessions@[k].0);
    assert(s1.view()[i].0 == s1.sessions@[i].0);
    if k < i {
        assert(s1.sessions@[k].0 != s1.sessions@[i].0);
    } else if k > i {
        assert(s1.sessions@[i].0 != s1.sessions@[k].0);
    }
    assert(k == i);
    let commands = second->Ok_0;
    assert(commands_view(commands@).len() == commands@.len());
}

/// What `set_filter` states of the sessions and its result.
pub open spec fn filter_set(
    before: CommandTracerSessions,
    after: CommandTracerSessions,
    session_id: SessionId,
    query: Seq<char>,
    r: Result<(), CommandTracerSessionsError>,
) -> bool {
    &&& after.session_id_generator == before.session_id_generator
    &&& match parse_query(query) {
        Outcome::Failed(e) => {
            &&& r matches Err(CommandTracerSessionsError::QueryError(text)) && text@ == error_text(e)
            &&& after.view() == before.view()
        },
        Outcome::Parsed(rule) => if has_session(before.view(), session_id) {
            let i = session_index(before.view(), session_id);
            &&& r is Ok
            &&& after.view() == before.view().update(
                i,
                (session_id, SessionModel {
                    filter: Some(rule),
                    commands: before.view()[i].1.commands,
                    filtered: matching(rule, before.view()[i].1.commands),
                }),
            )
        } else {
            &&& r matches Err(CommandTracerSessionsError::SessionNotFound)
            &&& after.view() == before.view()
        },
        Outcome::Aborted => false,
    }
}

/// What `close_session` states of the sessions and its result.
pub open spec fn session_closed(
    before: CommandTracerSessions,
    after: CommandTracerSessions,
    session_id: SessionId,
    r: Result<(), CommandTracerSessionsError>,
) -> bool {
    &&& after.session_id_generator == before.session_id_generator
    &&& if has_session(before.view(), session_id) {
        &&& r is Ok
        &&& after.view() == before.view().remove(session_index(before.view(), session_id))
    } else {
        &&& r matches Err(CommandTracerSessionsError::SessionNotFound)
        &&& after.view() == before.view()
    }
}

/// What a task does to the sessions, and its answer.
pub open spec fn task_done(
    before: CommandTracerSessions,
    after: CommandTracerSessions,
    task: CommandTracerSessionsTask,
    r: CommandTracerSessionsAnswer,
) -> bool {
    match task {
        CommandTracerSessionsTask::CreateSession => {
            &&& r == CommandTracerSessionsAnswer::SessionCreated(before.session_id_generator)
            &&& after.session_id_generator == before.session_id_generator + 1
            &&& after.view() == before.view().push((before.session_id_generator, empty_session()))
        },
        CommandTracerSessionsTask::SetFilter(id, query) => r matches CommandTracerSessionsAnswer::FilterSet(result) && filter_set(
            before,
            after,
            id,
            query@,
            result,
        ),
        CommandTracerSessionsTask::GetCommands(id) => r matches CommandTracerSessionsAnswer::Commands(result) && drained(
            before,
            after,
            id,
            result,
        ),
        CommandTracerSessionsTask::CloseSession(id) => r matches CommandTracerSessionsAnswer::SessionClosed(result)
            && session_closed(before, after, id, result),
    }
}

/// Two errors of the sessions agree: of the same kind, with the same text.
pub open spec fn same_error(a: CommandTracerSessionsError, b: CommandTracerSessionsError) -> bool {
    match (a, b) {
        (CommandTracerSessionsError::QueryError(x), CommandTracerSessionsError::QueryError(y)) => x@ == y@,
        (CommandTracerSessionsError::SessionNotFound, CommandTracerSessionsError::SessionNotFound) => true,
        _ => false,
    }
}

pub open spec fn same_unit_result(
    a: Result<(), CommandTracerSessionsError>,
    b: Result<(), CommandTracerSessionsError>,
) -> bool {
    match (a, b) {
        (Ok(_), Ok(_)) => true,
        (Err(x), Err(y)) => same_error(x, y),
        _ => false,
    }
}

/// Two answers agree: of the same kind, with the same session, the same
/// commands, or errors that agree.
pub open spec fn same_answer(a: CommandTracerSessionsAnswer, b: CommandTracerSessionsAnswer) -> bool {
    match (a, b) {
        (CommandTracerSessionsAnswer::SessionCreated(x), CommandTracerSessionsAnswer::SessionCreated(y)) => x == y,
        (CommandTracerSessionsAnswer::FilterSet(x), CommandTracerSessionsAnswer::FilterSet(y)) => same_unit_result(x, y),
        (CommandTracerSessionsAnswer::Commands(x), CommandTracerSessionsAnswer::Commands(y)) => match (x, y) {
            (Ok(p), Ok(q)) => commands_view(p@) == commands_view(q@),
            (Err(p), Err(q)) => same_error(p, q),
            _ => false,
        },
        (CommandTracerSessionsAnswer::SessionClosed(x), CommandTracerSessionsAnswer::SessionClosed(y)) => same_unit_result(x, y),
        _ => false,
    }
}

/// A request carried out as a task gives the answer, and leaves the sessions,
/// that a direct call of the matching method gives and leaves: `direct` is the
/// answer of `create_session`, `set_filter`, `drain_filtered_commands` or
/// `close_session` called on the same sessions, as that method states it.
pub proof fn law_task_is_direct_call(
    s0: CommandTracerSessions,
    by_task: CommandTracerSessions,
    by_call: CommandTracerSessions,
    task: CommandTracerSessionsTask,
    answer: CommandTracerSessionsAnswer,
    direct: CommandTracerSessionsAnswer,
)
    requires
        s0.wf(),
        task_done(s0, by_task, task, answer),
        match task {
            CommandTracerSessionsTask::CreateSession => direct matches CommandTracerSessionsAnswer::SessionCreated(id) && id
                == s0.session_id_generator && by_call.session_id_generator == s0.session_id_generator + 1
                && by_call.view() == s0.view().push((id, empty_session())),
            CommandTracerSessionsTask::SetFilter(id, query) => direct matches CommandTracerSessionsAnswer::FilterSet(r)
                && filter_set(s0, by_call, id, query@, r),
            CommandTracerSessionsTask::GetCommands(id) => direct matches CommandTracerSessionsAnswer::Commands(r) && drained(
                s0,
                by_call,
                id,
                r,
            ),
            CommandTracerSessionsTask::CloseSession(id) => direct matches CommandTracerSessionsAnswer::SessionClosed(r)
                && session_closed(s0, by_call, id, r),
        },
    ensures
        same_answer(answer, direct),
        by_task.view() == by_call.view(),
        by_task.session_id_generator == by_call.session_id_generator,
        match task {
            CommandTracerSessionsTask::CreateSession => answer == CommandTracerSessionsAnswer::SessionCreated(
                s0.session_id_generator,
            ) && !has_session(s0.view(), s0.session_id_generator) && has_session(by_task.view(), s0.session_id_generator),
            CommandTracerSessionsTask::SetFilter(id, query) => answer matches CommandTracerSessionsAnswer::FilterSet(r) && (r is Ok
                <==> (parse_query(query@) is Parsed && has_session(s0.view(), id))),
            CommandTracerSessionsTask::GetCommands(id) => answer matches CommandTracerSessionsAnswer::Commands(r) && (r is Ok
                <==> has_session(s0.view(), id)) && (r matches Ok(cs) ==> commands_view(cs@) == s0.view()[session_index(
                s0.view(),
                id,
            )].1.filtered),
            CommandTracerSessionsTask::CloseSession(id) => answer matches CommandTracerSessionsAnswer::SessionClosed(r) && (r is Ok
                <==> has_session(s0.view(), id)) && !has_session(by_task.view(), id),
        },
{
    match task {
        CommandTracerSessionsTask::CreateSession => {
            law_created_session_is_new(s0, by_task, s0.session_id_generator);
        },
        CommandTracerSessionsTask::CloseSession(id) => {
            if has_session(s0.view(), id) {
                law_closed_session_is_gone(s0, by_task, id);
            }
        },
        _ => {},
    }
}

/// What `drain_filtered_commands` states of a session and its result.
pub open spec fn drained(
    before: CommandTracerSessions,
    after: CommandTracerSessions,
    session_id: SessionId,
    r: Result<Vec<TracedCommand>, CommandTracerSessionsError>,
) -> bool {
    &&& after.session_id_generator == before.session_id_generator
    &&& if has_session(before.view(), session_id) {
        let i = session_index(before.view(), session_id);
        let s = before.view()[i].1;
        &&& r matches Ok(commands) && commands_view(commands@) == s.filtered
        &&& after.view() == before.view().update(
            i,
            (session_id, SessionModel { filter: s.filter, commands: s.commands, filtered: Seq::empty() }),
        )
    } else {
        &&& r matches Err(CommandTracerSessionsError::SessionNotFound)
        &&& after.view() == before.view()
    }
}

/// A new session is empty, and its identifier was no session's before.
pub proof fn law_created_session_is_new(s0: CommandTracerSessions, s1: CommandTracerSessions, id: SessionId)
    requires
        s0.wf(),
        id == s0.session_id_generator,
        s1.view() == s0.view().push((id, empty_session())),
    ensures
        !has_session(s0.view(), id),
        has_session(s1.view(), id),
        s1.view()[session_index(s1.view(), id)].1 == empty_session(),
{
    if has_session(s0.view(), id) {
        let k = session_index(s0.view(), id);
        assert(s0.sessions@[k].0 < s0.session_id_generator);
    }
    let n = s0.view().len() as int;
    assert(s1.view()[n].0 == id);
    let k = session_index(s1.view(), id);
    if k < n {
        assert(s1.view()[k] == s0.view()[k]);
        assert(s0.sessions@[k].0 < s0.session_id_generator);
    }
}

/// A closed session is found no more.
pub proof fn law_closed_session_is_gone(s0: CommandTracerSessions, s1: CommandTracerSessions, id: SessionId)
    requires
        s0.wf(),
        has_session(s0.view(), id),
        s1.view() == s0.view().remove(session_index(s0.view(), id)),
    ensures
        !has_session(s1.view(), id),
{
    let i = session_index(s0.view(), id);
    if has_session(s1.view(), id) {
        let k = session_index(s1.view(), id);
        let ko = if k < i { k } else { k + 1 };
        assert(s1.view()[k] == s0.view()[ko]);
        assert(s0.view()[ko].0 == s0.sessions@[ko].0);
        assert(s0.view()[i].0 == s0.sessions@[i].0);
        if ko < i {
            assert(s0.sessions@[ko].0 != s0.sessions@[i].0);
        } else {
            assert(s0.sessions@[i].0 != s0.sessions@[ko].0);
        }
    }
}

/// Without a filter, a session whose filtered commands are all its commands
/// keeps them so as it collects.
pub proof fn law_no_filter_keeps_every_command(s: SessionModel, c: SpecTracedCommand)
    requires
        s.filter is None,
        s.filtered == s.commands,
    ensures
        collected(s, c).filtered == collected(s, c).commands,
{
}

/// A collected command is the last command of the session, and the session
/// holds fewer commands than the limit.
pub proof fn law_collected_command_is_last(s: SessionModel, c: SpecTracedCommand)
    requires
        s.commands.len() < BUFFER_LIMIT,
    ensures
        collected(s, c).commands.last() == c,
        collected(s, c).commands.len() < BUFFER_LIMIT,
{
}

/// After a filter is set, every filtered command passes it, and the filtered
/// commands are no more than the commands.
pub proof fn law_filtered_commands_pass(rule: SpecRule, s: Seq<SpecTracedCommand>)
    ensures
        forall|i: int| 0 <= i < matching(rule, s).len() ==> rule_matches(rule, #[trigger] matching(rule, s)[i]),
        matching(rule, s).len() <= s.len(),
    decreases s.len(),
{
    if s.len() > 0 {
        law_filtered_commands_pass(rule, s.drop_last());
        let m = matching(rule, s.drop_last());
        if rule_matches(rule, s.last()) {
            assert forall|i: int| 0 <= i < m.push(s.last()).len() implies rule_matches(rule, #[trigger] m.push(s.last())[i]) by {
                if i < m.len() {
                    assert(m.push(s.last())[i] == m[i]);
                }
            }
        }
    }
}

/// A client command that names an existing object, other than the one that
/// creates it, is traced with the template of that object, so a template rule
/// keeps it exactly when the rule names that template; a command that creates
/// an object is traced with the template it creates.
pub proof fn law_client_command_traced_with_object_template(
    objects: Seq<(GameObjectId, GameObjectModel)>,
    c: SpecC2SCommand,
    id: GameObjectId,
    time: u64,
    user: RoomMemberId,
    t: GameObjectTemplateId,
)
    requires
        c2s_object_id(c) == Some(id),
    ensures
        !(c is Create) && crate::room::maps::has_key(objects, id) ==> {
            &&& c2s_template(objects, c) == Some((lookup(objects, id)->0).template_id)
            &&& rule_matches(
                SpecRule::Template(t),
                TracedCommandOf { time, template: c2s_template(objects, c), user, network_command: UniDirectionCommandOf::C2S(c) },
            ) <==> t == (lookup(objects, id)->0).template_id
        },
        c matches C2SCommandOf::Create(create) ==> c2s_template(objects, c) == Some(create.template),
        !(c is Create) && !crate::room::maps::has_key(objects, id) ==> c2s_template(objects, c) is None,
{
}

} // verus!
