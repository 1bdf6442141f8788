//! Sending commands to the members of a room, as their permissions allow.
use vstd::prelude::*;

use crate::commands::{S2CCommandOf, SpecS2CCommand};
use crate::debug::tracer::sessions::{CommandTracerSessions, SessionModel};
use crate::debug::tracer::sessions::SessionId;
use crate::protocol::{
    BothDirectionCommandOf, ChannelGroup, ChannelType, CommandWithChannelTypeOf, S2CCommandWithCreatorOf,
    SpecCommandWithChannelType,
};
use crate::room::command::ServerCommandError;
use crate::room::member::{out_view, User};
use crate::room::object::{S2CCommandWithFieldInfo, SpecS2CCommandWithFieldInfo};
use crate::room::permission::{permission_of, write_access, PermissionManager};
use crate::room::template::{GameObjectTemplatePermission, Permission};
use crate::room::{has_member, member_index_of, members_wf, same_settings, Room};
use crate::types::{AccessGroups, Field, GameObjectTemplateId, RoomMemberId};

verus! {

broadcast use vstd::std_specs::vec::group_vec_axioms;

/// Which of the members that can see an object receive a command.
#[derive(Clone, Copy, Debug, PartialEq, Eq, Structural)]
pub enum MemberFilter {
    /// All of them.
    All,
    /// All but one member.
    AllBut(RoomMemberId),
    /// All of them, except the owner of the object when nobody else can
    /// write the field (the owner is then the only source of its changes).
    OwnerIfWritable { owner: Option<RoomMemberId>, field: Field },
}

pub open spec fn passes_member_filter(
    f: MemberFilter,
    ts: Seq<GameObjectTemplatePermission>,
    template: GameObjectTemplateId,
    member_id: RoomMemberId,
) -> bool {
    match f {
        MemberFilter::All => true,
        MemberFilter::AllBut(id) => member_id != id,
        MemberFilter::OwnerIfWritable { owner, field } => if owner == Some(member_id) {
            write_access(ts, template, field)
        } else {
            true
        },
    }
}

/// A member of the groups may see the command: it changes no field, or a
/// field it has at least read access to.
pub open spec fn command_allowed(
    ts: Seq<GameObjectTemplatePermission>,
    template: GameObjectTemplateId,
    c: SpecS2CCommandWithFieldInfo,
    groups: AccessGroups,
) -> bool {
    match c.field {
        None => true,
        Some(f) => permission_of(ts, template, f, groups) != Permission::Deny,
    }
}

/// A command as queued for a member.
pub open spec fn out_command(channel: ChannelType, creator: RoomMemberId, c: SpecS2CCommand) -> SpecCommandWithChannelType {
    CommandWithChannelTypeOf {
        channel_type: channel,
        command: BothDirectionCommandOf::S2CWithCreator(S2CCommandWithCreatorOf { creator, command: c }),
    }
}

/// The commands a member of the groups receives, in order.
pub open spec fn delivered(
    ts: Seq<GameObjectTemplatePermission>,
    template: GameObjectTemplateId,
    cs: Seq<SpecS2CCommandWithFieldInfo>,
    groups: AccessGroups,
    channel: ChannelType,
    creator: RoomMemberId,
) -> Seq<SpecCommandWithChannelType>
    decreases cs.len(),
{
    if cs.len() == 0 {
        Seq::empty()
    } else {
        let before = delivered(ts, template, cs.drop_last(), groups, channel, creator);
        if command_allowed(ts, template, cs.last(), groups) {
            before.push(out_command(channel, creator, cs.last().command))
        } else {
            before
        }
    }
}

/// The owner of an object is not sent the changes of a field that nobody
/// else may write: it is their only source.
pub proof fn law_owner_not_echoed_unless_writable(
    before: Seq<User>,
    after: Seq<User>,
    access_groups: AccessGroups,
    template: GameObjectTemplateId,
    cs: Seq<SpecS2CCommandWithFieldInfo>,
    owner: RoomMemberId,
    field: Field,
    ts: Seq<GameObjectTemplatePermission>,
    channel: ChannelType,
    creator: RoomMemberId,
)
    requires
        members_after_send(
            before,
            after,
            access_groups,
            template,
            cs,
            MemberFilter::OwnerIfWritable { owner: Some(owner), field },
            ts,
            channel,
            creator,
        ),
        !write_access(ts, template, field),
    ensures
        forall|i: int| 0 <= i < before.len() && before[i].id == owner ==> (#[trigger] after[i]).out() == before[i].out(),
{
    assert forall|i: int| 0 <= i < before.len() && before[i].id == owner implies (#[trigger] after[i]).out() == before[i].out() by {
        assert(after[i].out() == before[i].out() + Seq::<SpecCommandWithChannelType>::empty());
    }
}

/// A member receives only commands it may see: each command delivered to a
/// member of the groups is one of those sent, changing no field or a field
/// that the groups are not denied.
pub proof fn law_only_allowed_commands_are_delivered(
    ts: Seq<GameObjectTemplatePermission>,
    template: GameObjectTemplateId,
    cs: Seq<SpecS2CCommandWithFieldInfo>,
    groups: AccessGroups,
    channel: ChannelType,
    creator: RoomMemberId,
)
    ensures
        forall|k: int|
            #![trigger delivered(ts, template, cs, groups, channel, creator)[k]]
            0 <= k < delivered(ts, template, cs, groups, channel, creator).len() ==> exists|j: int|
                0 <= j < cs.len() && command_allowed(ts, template, #[trigger] cs[j], groups)
                    && delivered(ts, template, cs, groups, channel, creator)[k] == out_command(channel, creator, cs[j].command),
    decreases cs.len(),
{
    if cs.len() > 0 {
        let d = cs.drop_last();
        law_only_allowed_commands_are_delivered(ts, template, d, groups, channel, creator);
        let before = delivered(ts, template, d, groups, channel, creator);
        let all = delivered(ts, template, cs, groups, channel, creator);
        assert forall|k: int| #![trigger all[k]] 0 <= k < all.len() implies exists|j: int|
            0 <= j < cs.len() && command_allowed(ts, template, #[trigger] cs[j], groups)
                && all[k] == out_command(channel, creator, cs[j].command) by {
            if k < before.len() {
                let j = choose|j: int|
                    0 <= j < d.len() && command_allowed(ts, template, #[trigger] d[j], groups)
                        && before[k] == out_command(channel, creator, d[j].command);
                assert(d[j] == cs[j]);
                assert(all[k] == before[k]);
            } else {
                assert(cs[cs.len() - 1] == cs.last());
            }
        }
    }
}

/// The channel of the command being executed, or the default one.
pub open spec fn channel_or_default(c: Option<ChannelType>) -> ChannelType {
    match c {
        Some(c) => c,
        None => ChannelType::ReliableSequence(ChannelGroup(0)),
    }
}

/// The member whose command is being executed, or 0 for the relay.
pub open spec fn creator_or_relay(c: Option<RoomMemberId>) -> RoomMemberId {
    match c {
        Some(c) => c,
        None => 0,
    }
}

/// The member receives what is sent to the groups through the filter.
pub open spec fn receives(
    m: User,
    access_groups: AccessGroups,
    filter: MemberFilter,
    ts: Seq<GameObjectTemplatePermission>,
    template: GameObjectTemplateId,
) -> bool {
    &&& m.attached
    &&& m.connected
    &&& m.template.groups.spec_contains_any(access_groups)
    &&& passes_member_filter(filter, ts, template, m.id)
}

/// The member after receiving commands: only its queue changes.
pub open spec fn member_received(before: User, after: User, added: Seq<SpecCommandWithChannelType>) -> bool {
    &&& after == User { out_commands: after.out_commands, ..before }
    &&& after.out() == before.out() + added
}

/// The members after a command was sent to the groups through the filter.
pub open spec fn members_after_send(
    before: Seq<User>,
    after: Seq<User>,
    access_groups: AccessGroups,
    template: GameObjectTemplateId,
    cs: Seq<SpecS2CCommandWithFieldInfo>,
    filter: MemberFilter,
    ts: Seq<GameObjectTemplatePermission>,
    channel: ChannelType,
    creator: RoomMemberId,
) -> bool {
    &&& after.len() == before.len()
    &&& forall|i: int|
        0 <= i < before.len() ==> member_received(
            before[i],
            #[trigger] after[i],
            if receives(before[i], access_groups, filter, ts, template) {
                delivered(ts, template, cs, before[i].template.groups, channel, creator)
            } else {
                Seq::empty()
            },
        )
}

/// The members after commands were sent to one member.
pub open spec fn members_after_send_to(
    before: Seq<User>,
    after: Seq<User>,
    member_id: RoomMemberId,
    ts: Seq<GameObjectTemplatePermission>,
    template: GameObjectTemplateId,
    cs: Seq<SpecS2CCommandWithFieldInfo>,
    channel: ChannelType,
    creator: RoomMemberId,
) -> bool {
    let i = member_index_of(before, member_id);
    let m = before[i];
    &&& after.len() == before.len()
    &&& forall|j: int| 0 <= j < before.len() && j != i ==> #[trigger] after[j] == before[j]
    &&& member_received(
        m,
        after[i],
        if m.attached && m.connected {
            delivered(ts, template, cs, m.template.groups, channel, creator)
        } else {
            Seq::empty()
        },
    )
}

/// The record of sent commands after the commands were pushed to its front,
/// one by one, when recording is on; unchanged when it is off.
pub open spec fn pushed_front(
    on: bool,
    log: Seq<(AccessGroups, SpecS2CCommand)>,
    groups: AccessGroups,
    cs: Seq<SpecS2CCommandWithFieldInfo>,
) -> Seq<(AccessGroups, SpecS2CCommand)>
    decreases cs.len(),
{
    if !on || cs.len() == 0 {
        log
    } else {
        seq![(groups, cs.last().command)] + pushed_front(on, log, groups, cs.drop_last())
    }
}

pub open spec fn log_view(s: Seq<(AccessGroups, S2CCommandOf<Vec<u8>>)>) -> Seq<(AccessGroups, SpecS2CCommand)> {
    s.map_values(|e: (AccessGroups, S2CCommandOf<Vec<u8>>)| (e.0, e.1@))
}

pub open spec fn commands_view(cs: Seq<S2CCommandWithFieldInfo>) -> Seq<SpecS2CCommandWithFieldInfo> {
    cs.map_values(|c: S2CCommandWithFieldInfo| c@)
}

/// Sessions with the same identifiers, in the same order.
pub open spec fn same_sessions(a: Seq<(SessionId, SessionModel)>, b: Seq<(SessionId, SessionModel)>) -> bool {
    &&& a.len() == b.len()
    &&& forall|i: int| 0 <= i < a.len() ==> #[trigger] a[i].0 == b[i].0
}

/// Give a member the commands it may see, and let the sessions collect them.
fn deliver_to_member(
    member: &mut User,
    tracer: &mut CommandTracerSessions,
    permission_manager: &PermissionManager,
    template: GameObjectTemplateId,
    commands: &[S2CCommandWithFieldInfo],
    channel: ChannelType,
    creator: RoomMemberId,
)
    requires
        old(tracer).wf(),
    ensures
        final(tracer).wf(),
        final(tracer).session_id_generator == old(tracer).session_id_generator,
        same_sessions(final(tracer).view(), old(tracer).view()),
        member_received(
            *old(member),
            *final(member),
            delivered(
                permission_manager.permissions.templates@,
                template,
                commands_view(commands@),
                old(member).template.groups,
                channel,
                creator,
            ),
        ),
{
    let ghost ts = permission_manager.permissions.templates@;
    let ghost cs = commands_view(commands@);
    let groups = member.template.groups;
    let ghost start = *member;
    let mut k: usize = 0;
    while k < commands.len()
        invariant
            k <= commands@.len(),
            tracer.wf(),
            tracer.session_id_generator == old(tracer).session_id_generator,
            same_sessions(tracer.view(), old(tracer).view()),
            groups == start.template.groups,
            ts == permission_manager.permissions.templates@,
            cs == commands_view(commands@),
            member_received(start, *member, delivered(ts, template, cs.take(k as int), groups, channel, creator)),
        decreases commands@.len() - k,
    {
        proof {
            assert(cs.take(k + 1).drop_last() == cs.take(k as int));
            assert(cs.take(k + 1).last() == commands@[k as int]@);
        }
        let command = &commands[k];
        let allow = match command.field {
            None => true,
            Some(field) => !(permission_manager.get_permission(template, field, groups) == Permission::Deny),
        };
        if allow {
            let ghost before_tracer = tracer.view();
            tracer.collect_s2c(template, member.id, &command.command);
            proof {
                let t = choose|time: u64| tracer.view() == crate::debug::tracer::sessions::all_collected(
                    before_tracer,
                    crate::debug::tracer::traced::TracedCommandOf {
                        time,
                        template: Some(template),
                        user: member.id,
                        network_command: crate::debug::tracer::traced::UniDirectionCommandOf::S2C(command.command@),
                    },
                );
                assert forall|i: int| 0 <= i < tracer.view().len() implies #[trigger] tracer.view()[i].0 == old(tracer).view()[i].0 by {
                    assert(tracer.view()[i].0 == before_tracer[i].0);
                }
            }
            let ghost before_out = member.out_commands@;
            member.out_commands.push(
                CommandWithChannelTypeOf {
                    channel_type: channel,
                    command: BothDirectionCommandOf::S2CWithCreator(
                        S2CCommandWithCreatorOf { creator, command: command.command.copy() },
                    ),
                },
            );
            proof {
                assert(out_view(member.out_commands@) == out_view(before_out).push(out_command(channel, creator, command.command@)));
            }
        }
        k = k + 1;
    }
    proof {
        assert(cs.take(commands@.len() as int) == cs);
    }
}

impl Room {
    /// Send commands about an object of a template to the attached and
    /// connected members that share a group with the object and pass the
    /// filter; each member receives the commands on fields it may see, in order.
    pub fn send_to_members(
        &mut self,
        access_groups: AccessGroups,
        object_template: GameObjectTemplateId,
        commands: &[S2CCommandWithFieldInfo],
        filter: MemberFilter,
    )
        requires
            old(self).wf(),
        ensures
            final(self).wf(),
            same_settings(*final(self), *old(self)),
            final(self).objects == old(self).objects,
            members_after_send(
                old(self).members@,
                final(self).members@,
                access_groups,
                object_template,
                commands_view(commands@),
                filter,
                old(self).permission_manager.permissions.templates@,
                channel_or_default(old(self).current_channel),
                creator_or_relay(old(self).current_member_id),
            ),
            log_view(final(self).out_commands@) == pushed_front(
                old(self).record_sent,
                log_view(old(self).out_commands@),
                access_groups,
                commands_view(commands@),
            ),
            final(self).command_trace_session.wf(),
            final(self).command_trace_session.session_id_generator == old(self).command_trace_session.session_id_generator,
            same_sessions(final(self).command_trace_session.view(), old(self).command_trace_session.view()),
    {
        let ghost cs = commands_view(commands@);
        let ghost log0 = log_view(self.out_commands@);
        let mut k: usize = 0;
        while k < commands.len()
            invariant
                k <= commands@.len(),
                cs == commands_view(commands@),
                log_view(self.out_commands@) == pushed_front(self.record_sent, log0, access_groups, cs.take(k as int)),
                self.wf(),
                same_settings(*self, *old(self)),
                self.objects == old(self).objects,
                self.members == old(self).members,
                self.command_trace_session == old(self).command_trace_session,
            decreases commands@.len() - k,
        {
            let ghost before = self.out_commands@;
            if self.record_sent {
                self.out_commands.push_front((access_groups, commands[k].command.copy()));
                proof {
                    assert(log_view(self.out_commands@) == seq![(access_groups, commands@[k as int].command@)] + log_view(before));
                }
            }
            proof {
                assert(cs.take(k + 1).drop_last() == cs.take(k as int));
                assert(cs.take(k + 1).last() == commands@[k as int]@);
            }
            k = k + 1;
        }
        proof {
            assert(cs.take(commands@.len() as int) == cs);
        }
        let channel = match self.current_channel {
            Some(c) => c,
            None => ChannelType::ReliableSequence(ChannelGroup(0)),
        };
        let creator = match self.current_member_id {
            Some(id) => id,
            None => 0,
        };
        let ghost ts = self.permission_manager.permissions.templates@;
        let ghost members0 = self.members@;
        let ghost tracer0 = self.command_trace_session.view();
        let ghost room0 = *self;
        let n = self.members.len();
        let mut i: usize = 0;
        while i < n
            invariant
                n == self.members@.len(),
                n == members0.len(),
                i <= n,
                same_settings(*self, room0),
                self.objects == room0.objects,
                ts == self.permission_manager.permissions.templates@,
                channel == channel_or_default(room0.current_channel),
                creator == creator_or_relay(room0.current_member_id),
                cs == commands_view(commands@),
                log_view(self.out_commands@) == pushed_front(self.record_sent, log0, access_groups, cs),
                self.command_trace_session.wf(),
                self.command_trace_session.session_id_generator == room0.command_trace_session.session_id_generator,
                same_sessions(self.command_trace_session.view(), tracer0),
                members_wf(members0, room0.member_id_generator),
                forall|j: int|
                    0 <= j < i ==> member_received(
                        members0[j],
                        #[trigger] self.members@[j],
                        if receives(members0[j], access_groups, filter, ts, object_template) {
                            delivered(ts, object_template, cs, members0[j].template.groups, channel, creator)
                        } else {
                            Seq::empty()
                        },
                    ),
                forall|j: int| i <= j < n ==> #[trigger] self.members@[j] == members0[j],
            decreases n - i,
        {
            let member = &self.members[i];
            let pass = match filter {
                MemberFilter::All => true,
                MemberFilter::AllBut(id) => member.id != id,
                MemberFilter::OwnerIfWritable { owner, field } => match owner {
                    Some(o) => if o == member.id {
                        self.permission_manager.has_write_access(object_template, field)
                    } else {
                        true
                    },
                    None => true,
                },
            };
            let eligible = member.attached && member.connected && member.template.groups.contains_any(&access_groups) && pass;
            let ghost before_member = self.members@[i as int];
            if eligible {
                let ghost tracer_before = self.command_trace_session.view();
                deliver_to_member(
                    &mut self.members[i],
                    &mut self.command_trace_session,
                    &self.permission_manager,
                    object_template,
                    commands,
                    channel,
                    creator,
                );
                proof {
                    assert forall|j: int| 0 <= j < self.command_trace_session.view().len() implies #[trigger] self.command_trace_session.view()[j].0 == tracer0[j].0 by {
                        assert(self.command_trace_session.view()[j].0 == tracer_before[j].0);
                    }
                }
            } else {
                proof {
                    assert(before_member.out() + Seq::<SpecCommandWithChannelType>::empty() == before_member.out());
                }
            }
            i = i + 1;
        }
        proof {
            assert forall|a: int| 0 <= a < self.members@.len() implies #[trigger] self.members@[a].id == members0[a].id
                && self.members@[a].cleaners() == members0[a].cleaners() by {
                assert(self.members@[a].compare_and_set_cleaners == members0[a].compare_and_set_cleaners);
            }
            assert(members_wf(self.members@, self.member_id_generator));
        }
    }

    /// Send commands about an object of a template to one member, if it is
    /// attached and connected: it receives the commands on fields it may see.
    pub fn send_to_member(
        &mut self,
        member_id: &RoomMemberId,
        object_template: GameObjectTemplateId,
        commands: &[S2CCommandWithFieldInfo],
    ) -> (r: Result<(), ServerCommandError>)
        requires
            old(self).wf(),
        ensures
            final(self).wf(),
            same_settings(*final(self), *old(self)),
            final(self).objects == old(self).objects,
            final(self).out_commands == old(self).out_commands,
            final(self).command_trace_session.wf(),
            final(self).command_trace_session.session_id_generator == old(self).command_trace_session.session_id_generator,
            same_sessions(final(self).command_trace_session.view(), old(self).command_trace_session.view()),
            match r {
                Err(e) => {
                    &&& !has_member(old(self).members@, *member_id)
                    &&& e == ServerCommandError::MemberNotFound(*member_id)
                    &&& final(self).members == old(self).members
                },
                Ok(()) => {
                    &&& has_member(old(self).members@, *member_id)
                    &&& members_after_send_to(
                        old(self).members@,
                        final(self).members@,
                        *member_id,
                        old(self).permission_manager.permissions.templates@,
                        object_template,
                        commands_view(commands@),
                        channel_or_default(old(self).current_channel),
                        creator_or_relay(old(self).current_member_id),
                    )
                },
            },
    {
        let channel = match self.current_channel {
            Some(c) => c,
            None => ChannelType::ReliableSequence(ChannelGroup(0)),
        };
        let creator = match self.current_member_id {
            Some(id) => id,
            None => 0,
        };
        match self.member_index(*member_id) {
            None => Err(ServerCommandError::MemberNotFound(*member_id)),
            Some(i) => {
                let ghost members0 = self.members@;
                if self.members[i].attached && self.members[i].connected {
                    deliver_to_member(
                        &mut self.members[i],
                        &mut self.command_trace_session,
                        &self.permission_manager,
                        object_template,
                        commands,
                        channel,
                        creator,
                    );
                } else {
                    proof {
                        assert(members0[i as int].out() + Seq::<SpecCommandWithChannelType>::empty() == members0[i as int].out());
                    }
                }
                proof {
                    assert forall|a: int| 0 <= a < self.members@.len() implies #[trigger] self.members@[a].id == members0[a].id
                        && self.members@[a].cleaners() == members0[a].cleaners() by {
                        if a == i {
                            assert(self.members@[a].compare_and_set_cleaners == members0[a].compare_and_set_cleaners);
                        }
                    }
                    assert(members_wf(self.members@, self.member_id_generator));
                }
                Ok(())
            },
        }
    }
}

} // verus!
