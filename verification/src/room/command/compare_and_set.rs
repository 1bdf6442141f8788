//! Compare-and-set of long and structure fields, and the values restored when
//! a member leaves.
use vstd::prelude::*;

use crate::commands::{copy_bytes, option_bytes_view, CompareAndSetLongCommand, CompareAndSetStructureCommand};
use crate::room::action::{action_done, action_runs, compare_holds, FieldActionOf, SpecFieldAction};
use crate::room::command::{ServerCommandError, ServerCommandExecutor, ValueKind, field_fits};
use crate::room::maps::{has_key, inserted, lookup, swap_removed};
use crate::room::member::{
    cleaner_key, spec_cleaner_key, CleanerKey, User, ResetValueOf, SpecResetValue, CLEANERS_CAPACITY,
};
use crate::room::object::holds_structure_or_none;
use crate::room::field::FieldValueOf;
use crate::room::objects::objects_get;
use crate::room::template::Permission;
use crate::room::{lemma_member_index, member_index_of, members_wf, same_settings, Room};
use crate::types::{Field, FieldType, GameObjectId, RoomMemberId};

verus! {

/// The member's values to restore after a compare-and-set that changed a
/// field: without a reset value the field's entry goes; with one, it is kept
/// (an error when the member has no room for it).
pub open spec fn cleaners_updated(
    before: Room,
    after: Room,
    member: RoomMemberId,
    key: CleanerKey,
    reset: Option<SpecResetValue>,
    r: Result<(), ServerCommandError>,
) -> bool {
    let i = member_index_of(before.members@, member);
    let m = before.members@[i];
    &&& same_settings(after, before)
    &&& after.objects == before.objects
    &&& after.out_commands == before.out_commands
    &&& after.command_trace_session == before.command_trace_session
    &&& after.members@.len() == before.members@.len()
    &&& forall|j: int| 0 <= j < before.members@.len() && j != i ==> #[trigger] after.members@[j] == before.members@[j]
    &&& after.members@[i] == (User { compare_and_set_cleaners: after.members@[i].compare_and_set_cleaners, ..m })
    &&& match reset {
        None => {
            &&& r is Ok
            &&& after.members@[i].cleaners() == swap_removed(m.cleaners(), key)
        },
        Some(v) => if has_key(m.cleaners(), key) || m.cleaners().len() < CLEANERS_CAPACITY {
            &&& r is Ok
            &&& after.members@[i].cleaners() == inserted(m.cleaners(), key, v)
        } else {
            &&& r matches Err(ServerCommandError::Error(_))
            &&& after.members@[i].cleaners() == m.cleaners()
        },
    }
}

/// A compare-and-set: the action on the field, then, if it changed the field,
/// the update of the member's values to restore.
pub open spec fn compare_and_set_done(
    before: Room,
    after: Room,
    object_id: GameObjectId,
    field: Field,
    member: RoomMemberId,
    action: SpecFieldAction,
    reset: Option<SpecResetValue>,
    r: Result<(), ServerCommandError>,
) -> bool {
    exists|mid: Room, r1: Result<(), ServerCommandError>|
        #![trigger action_done(before, mid, object_id, field, member, Permission::Rw, None, action, r1)]
        {
            &&& action_done(before, mid, object_id, field, member, Permission::Rw, None, action, r1)
            &&& if r1 is Ok && action_runs(before, object_id, field, member, Permission::Rw) && compare_holds(
                action,
                lookup(before.object_model(), object_id)->0,
                field.id,
            ) {
                cleaners_updated(mid, after, member, spec_cleaner_key(object_id, field.id), reset, r)
            } else {
                r == r1 && after == mid
            }
        }
}

fn update_cleaners(room: &mut Room, member_id: RoomMemberId, key: CleanerKey, reset: Option<ResetValueOf<Vec<u8>>>) -> (r: Result<(), ServerCommandError>)
    requires
        old(room).wf(),
        crate::room::has_member(old(room).members@, member_id),
    ensures
        final(room).wf(),
        cleaners_updated(
            *old(room),
            *final(room),
            member_id,
            key,
            match reset {
                Some(v) => Some(v@),
                None => None,
            },
            r,
        ),
{
    let i = match room.member_index(member_id) {
        Some(i) => i,
        None => {
            return Ok(());
        },
    };
    let ghost before = room.members@;
    let result = match reset {
        None => {
            room.members[i].remove_cleaner(&key);
            Ok(())
        },
        Some(v) => {
            if room.members[i].insert_cleaner(key, v) {
                Ok(())
            } else {
                Err(ServerCommandError::Error("Overflow compare and sets cleaners".to_owned()))
            }
        },
    };
    proof {
        assert forall|a: int| 0 <= a < room.members@.len() implies #[trigger] room.members@[a].id == before[a].id by {}
        assert(members_wf(room.members@, room.member_id_generator));
    }
    result
}

impl ServerCommandExecutor for CompareAndSetLongCommand {
    open spec fn reads_fit(&self, room: Room, member_id: RoomMemberId) -> bool {
        field_fits(room, self.object_id, self.field_id, ValueKind::Long, member_id)
    }

    /// Set the field to `new` if it holds `current` (or nothing) and the member
    /// may write it; with a reset value, the member becomes the field's owner
    /// and the field takes the reset value back when the member leaves.
    fn execute(&self, room: &mut Room, member_id: RoomMemberId) -> (r: Result<(), ServerCommandError>)
        ensures
            final(room).wf(),
            compare_and_set_done(
                *old(room),
                *final(room),
                self.object_id,
                Field { id: self.field_id, field_type: FieldType::Long },
                member_id,
                FieldActionOf::CompareAndSetLong { current: self.current, new: self.new, reset: self.reset is Some },
                match self.reset {
                    Some(v) => Some(ResetValueOf::Long(v)),
                    None => None,
                },
                r,
            ),
    {
        let field = Field { id: self.field_id, field_type: FieldType::Long };
        let action = FieldActionOf::CompareAndSetLong { current: self.current, new: self.new, reset: self.reset.is_some() };
        let holds = match objects_get(&room.objects, &self.object_id) {
            None => false,
            Some(object) => match object.field(&self.field_id) {
                None => true,
                Some(FieldValueOf::Long(value)) => *value == self.current,
                Some(_) => false,
            },
        };
        let ghost before = *room;
        let (result, ran) = room.do_action_and_tell(&self.object_id, field, member_id, Permission::Rw, None, &action);
        let ghost mid = *room;
        if result.is_err() || !ran || !holds {
            proof {
                assert(action_done(before, mid, self.object_id, field, member_id, Permission::Rw, None, action@, result));
            }
            return result;
        }
        let reset = match self.reset {
            Some(v) => Some(ResetValueOf::Long(v)),
            None => None,
        };
        proof {
            assert(action_done(before, mid, self.object_id, field, member_id, Permission::Rw, None, action@, result));
            let k = member_index_of(before.members@, member_id);
            assert(mid.members@[k].id == before.members@[k].id);
            assert(crate::room::has_member(mid.members@, member_id));
        }
        let r = update_cleaners(room, member_id, cleaner_key(self.object_id, self.field_id), reset);
        proof {
            assert(action_done(before, mid, self.object_id, field, member_id, Permission::Rw, None, action@, result));
        }
        r
    }
}

impl ServerCommandExecutor for CompareAndSetStructureCommand {
    open spec fn reads_fit(&self, room: Room, member_id: RoomMemberId) -> bool {
        field_fits(room, self.object_id, self.field_id, ValueKind::Structure, member_id)
    }

    /// Set the field to `new` if it holds `current` (or nothing) and the member
    /// may write it; with a reset value, the member becomes the field's owner
    /// and the field takes the reset value back when the member leaves.
    fn execute(&self, room: &mut Room, member_id: RoomMemberId) -> (r: Result<(), ServerCommandError>)
        ensures
            final(room).wf(),
            compare_and_set_done(
                *old(room),
                *final(room),
                self.object_id,
                Field { id: self.field_id, field_type: FieldType::Structure },
                member_id,
                FieldActionOf::CompareAndSetStructure { current: self.current@, new: self.new@, reset: self.reset is Some },
                match option_bytes_view(self.reset) {
                    Some(v) => Some(ResetValueOf::Structure(v)),
                    None => None,
                },
                r,
            ),
    {
        let field = Field { id: self.field_id, field_type: FieldType::Structure };
        let action = FieldActionOf::CompareAndSetStructure {
            current: copy_bytes(&self.current),
            new: copy_bytes(&self.new),
            reset: self.reset.is_some(),
        };
        let holds = match objects_get(&room.objects, &self.object_id) {
            None => false,
            Some(object) => match object.field(&self.field_id) {
                None => true,
                Some(FieldValueOf::Structure(value)) => crate::room::action::bytes_equal(value, &self.current),
                Some(_) => false,
            },
        };
        let ghost before = *room;
        let (result, ran) = room.do_action_and_tell(&self.object_id, field, member_id, Permission::Rw, None, &action);
        let ghost mid = *room;
        if result.is_err() || !ran || !holds {
            proof {
                assert(action_done(before, mid, self.object_id, field, member_id, Permission::Rw, None, action@, result));
            }
            return result;
        }
        let reset = match &self.reset {
            Some(v) => Some(ResetValueOf::Structure(copy_bytes(v))),
            None => None,
        };
        proof {
            assert(action_done(before, mid, self.object_id, field, member_id, Permission::Rw, None, action@, result));
            let k = member_index_of(before.members@, member_id);
            assert(mid.members@[k].id == before.members@[k].id);
            assert(crate::room::has_member(mid.members@, member_id));
        }
        let r = update_cleaners(room, member_id, cleaner_key(self.object_id, self.field_id), reset);
        proof {
            assert(action_done(before, mid, self.object_id, field, member_id, Permission::Rw, None, action@, result));
        }
        r
    }
}

/// A compare-and-set that does not find the value it expects changes no
/// object, no member and sends nothing.
pub proof fn law_compare_mismatch_changes_nothing(
    before: Room,
    after: Room,
    object_id: GameObjectId,
    field: Field,
    member: RoomMemberId,
    action: SpecFieldAction,
    reset: Option<SpecResetValue>,
    r: Result<(), ServerCommandError>,
)
    requires
        before.wf(),
        compare_and_set_done(before, after, object_id, field, member, action, reset, r),
        action is CompareAndSetLong || action is CompareAndSetStructure,
        has_key(before.object_model(), object_id),
        !compare_holds(action, lookup(before.object_model(), object_id)->0, field.id),
    ensures
        after.object_model() == before.object_model(),
        after.members == before.members,
        after.out_commands == before.out_commands,
        after.command_trace_session == before.command_trace_session,
{
    let (mid, r1) = choose|mid: Room, r1: Result<(), ServerCommandError>|
        #![trigger action_done(before, mid, object_id, field, member, Permission::Rw, None, action, r1)]
        {
            &&& action_done(before, mid, object_id, field, member, Permission::Rw, None, action, r1)
            &&& if r1 is Ok && action_runs(before, object_id, field, member, Permission::Rw) && compare_holds(
                action,
                lookup(before.object_model(), object_id)->0,
                field.id,
            ) {
                cleaners_updated(mid, after, member, spec_cleaner_key(object_id, field.id), reset, r)
            } else {
                r == r1 && after == mid
            }
        };
    let s = before.object_model();
    let i = crate::room::maps::index_of(s, object_id);
    assert(s[i].0 == object_id);
    assert(s.update(i, (object_id, lookup(s, object_id)->0)) == s);
}

/// A compare-and-set of a structure field that holds bytes other than
/// `current` (even of the same length) changes no object and no member, and
/// sends nothing.
pub proof fn law_structure_mismatch_changes_nothing(
    before: Room,
    after: Room,
    object_id: GameObjectId,
    f: crate::types::FieldId,
    member: RoomMemberId,
    current: Seq<u8>,
    new: Seq<u8>,
    reset: Option<Seq<u8>>,
    held: Seq<u8>,
    r: Result<(), ServerCommandError>,
)
    requires
        before.wf(),
        compare_and_set_done(
            before,
            after,
            object_id,
            Field { id: f, field_type: FieldType::Structure },
            member,
            FieldActionOf::CompareAndSetStructure { current, new, reset: reset is Some },
            match reset {
                Some(v) => Some(ResetValueOf::Structure(v)),
                None => None,
            },
            r,
        ),
        has_key(before.object_model(), object_id),
        lookup((lookup(before.object_model(), object_id)->0).fields, f) == Some(
            crate::room::field::FieldValueOf::<Seq<u8>>::Structure(held),
        ),
        held != current,
    ensures
        after.object_model() == before.object_model(),
        after.members == before.members,
        after.out_commands == before.out_commands,
{
    assert(crate::room::field::FieldValueOf::<Seq<u8>>::Structure(held) != crate::room::field::FieldValueOf::<Seq<u8>>::Structure(current));
    law_compare_mismatch_changes_nothing(
        before,
        after,
        object_id,
        Field { id: f, field_type: FieldType::Structure },
        member,
        FieldActionOf::CompareAndSetStructure { current, new, reset: reset is Some },
        match reset {
            Some(v) => Some(ResetValueOf::Structure(v)),
            None => None,
        },
        r,
    );
}

/// A compare-and-set without a reset value that changed a field cancels the
/// member's earlier reset of that field: the member no longer keeps a value to
/// restore for it.
pub proof fn law_compare_without_reset_cancels_reset(
    before: Room,
    after: Room,
    member: RoomMemberId,
    key: CleanerKey,
    r: Result<(), ServerCommandError>,
)
    requires
        before.wf(),
        crate::room::has_member(before.members@, member),
        cleaners_updated(before, after, member, key, None, r),
    ensures
        !has_key(after.members@[member_index_of(before.members@, member)].cleaners(), key),
{
    let i = member_index_of(before.members@, member);
    assert(0 <= i < before.members@.len() && before.members@[i].id == member);
    crate::room::maps::lemma_swap_removed(before.members@[i].cleaners(), key);
    let c = after.members@[i].cleaners();
    if has_key(c, key) {
        let j = crate::room::maps::index_of(c, key);
        assert(c[j].0 == key);
    }
}

/// Whether a compare-and-set of a long field finds what it expects: the field
/// holds `current` or nothing.
pub open spec fn long_compare_holds(o: crate::room::object::GameObjectModel, f: crate::types::FieldId, current: i64) -> bool {
    match lookup(o.fields, f) {
        None => true,
        Some(v) => v == crate::room::field::FieldValueOf::<Seq<u8>>::Long(current),
    }
}

/// A compare-and-set of a long field by a member that may write it, with room
/// for the field, its owner and the member's value to restore: it succeeds;
/// the field changes exactly when it holds `current` or nothing, and then
/// holds `new`; with a reset value the member becomes the field's owner and
/// keeps that value to restore, without one the member keeps no value to
/// restore for the field. When the field does not change, neither the objects
/// nor the members do.
pub proof fn law_compare_and_set_long(
    before: Room,
    after: Room,
    object_id: GameObjectId,
    f: crate::types::FieldId,
    member: RoomMemberId,
    current: i64,
    new: i64,
    reset: Option<i64>,
    r: Result<(), ServerCommandError>,
)
    requires
        before.wf(),
        after.wf(),
        compare_and_set_done(
            before,
            after,
            object_id,
            Field { id: f, field_type: FieldType::Long },
            member,
            FieldActionOf::CompareAndSetLong { current, new, reset: reset is Some },
            match reset {
                Some(v) => Some(ResetValueOf::Long(v)),
                None => None,
            },
            r,
        ),
        action_runs(before, object_id, Field { id: f, field_type: FieldType::Long }, member, Permission::Rw),
        crate::room::action::can_set((lookup(before.object_model(), object_id)->0).fields, f),
        reset is Some ==> has_key((lookup(before.object_model(), object_id)->0).owners, f) || (lookup(
            before.object_model(),
            object_id,
        )->0).owners.len() < crate::room::object::MAX_FIELD_COUNT,
        reset is Some ==> {
            let m = before.members@[member_index_of(before.members@, member)];
            has_key(m.cleaners(), spec_cleaner_key(object_id, f)) || m.cleaners().len() < CLEANERS_CAPACITY
        },
    ensures
        r is Ok,
        long_compare_holds(lookup(before.object_model(), object_id)->0, f, current) ==> {
            let o2 = lookup(after.object_model(), object_id)->0;
            let m2 = after.members@[member_index_of(after.members@, member)];
            &&& has_key(after.object_model(), object_id)
            &&& lookup(o2.fields, f) == Some(crate::room::field::FieldValueOf::<Seq<u8>>::Long(new))
            &&& reset matches Some(v) ==> lookup(o2.owners, f) == Some(member) && lookup(
                m2.cleaners(),
                spec_cleaner_key(object_id, f),
            ) == Some(ResetValueOf::<Seq<u8>>::Long(v))
            &&& reset is None ==> !has_key(m2.cleaners(), spec_cleaner_key(object_id, f))
        },
        !long_compare_holds(lookup(before.object_model(), object_id)->0, f, current) ==> {
            &&& after.object_model() == before.object_model()
            &&& after.members == before.members
        },
{
    let field = Field { id: f, field_type: FieldType::Long };
    let action = FieldActionOf::<Seq<u8>>::CompareAndSetLong { current, new, reset: reset is Some };
    let rv: Option<SpecResetValue> = match reset {
        Some(v) => Some(ResetValueOf::Long(v)),
        None => None,
    };
    let (mid, r1) = choose|mid: Room, r1: Result<(), ServerCommandError>|
        #![trigger action_done(before, mid, object_id, field, member, Permission::Rw, None, action, r1)]
        {
            &&& action_done(before, mid, object_id, field, member, Permission::Rw, None, action, r1)
            &&& if r1 is Ok && action_runs(before, object_id, field, member, Permission::Rw) && compare_holds(
                action,
                lookup(before.object_model(), object_id)->0,
                f,
            ) {
                cleaners_updated(mid, after, member, spec_cleaner_key(object_id, f), rv, r)
            } else {
                r == r1 && after == mid
            }
        };
    let s = before.object_model();
    let o = lookup(s, object_id)->0;
    let k = member_index_of(before.members@, member);
    assert(0 <= k < before.members@.len() && before.members@[k].id == member);
    let i = crate::room::maps::index_of(s, object_id);
    assert(s[i].0 == object_id);
    crate::room::maps::lemma_index_of(s, i);
    assert(crate::room::object::object_wf(s[i].1));
    if long_compare_holds(o, f, current) {
        assert(compare_holds(action, o, f));
        let o1 = crate::room::action::with_field(o, f, crate::room::field::FieldValueOf::Long(new));
        crate::room::maps::lemma_inserted(o.fields, f, crate::room::field::FieldValueOf::Long(new));
        let o2 = crate::room::action::apply_action(action, o, object_id, f, member).0;
        crate::room::maps::lemma_inserted(s, object_id, o2);
        assert(s.update(i, (object_id, o2)) == inserted(s, object_id, o2));
        if reset is Some {
            crate::room::maps::lemma_inserted(o1.owners, f, member);
        }
        assert(mid.members@[k].id == member);
        assert(crate::room::has_member(mid.members@, member));
        let j = member_index_of(mid.members@, member);
        assert(0 <= j < mid.members@.len() && mid.members@[j].id == member);
        assert(after.members@[j].id == member);
        lemma_member_index(after.members@, after.member_id_generator, j);
        assert(mid.members@[j].cleaners() == before.members@[j].cleaners());
        if j != k {
            assert(before.members@[j].id != before.members@[k].id);
        }
        if reset is Some {
            crate::room::maps::lemma_inserted(mid.members@[j].cleaners(), spec_cleaner_key(object_id, f), rv->0);
        } else {
            let key = spec_cleaner_key(object_id, f);
            crate::room::maps::lemma_swap_removed(mid.members@[j].cleaners(), key);
            let c = after.members@[j].cleaners();
            if has_key(c, key) {
                let x = crate::room::maps::index_of(c, key);
                assert(c[x].0 == key);
            }
        }
    } else {
        assert(s.update(i, (object_id, o)) == s);
    }
}

} // verus!

verus! {

/// The reset value fits the field: a structure goes only to a field that holds
/// a structure or nothing.
pub open spec fn reset_fits(value: SpecResetValue, o: crate::room::object::GameObjectModel, f: crate::types::FieldId) -> bool {
    match value {
        ResetValueOf::Long(_) => true,
        ResetValueOf::Structure(_) => holds_structure_or_none(o.fields, f),
    }
}

/// The value a reset puts in a field, and the command that tells it.
pub open spec fn reset_command(value: SpecResetValue, object_id: GameObjectId, f: crate::types::FieldId) -> (
    crate::room::field::SpecFieldValue,
    crate::room::object::SpecS2CCommandWithFieldInfo,
) {
    match value {
        ResetValueOf::Long(x) => (
            crate::room::field::FieldValueOf::Long(x),
            crate::room::object::S2CCommandWithFieldInfoOf {
                field: Some(Field { id: f, field_type: FieldType::Long }),
                command: crate::commands::S2CCommandOf::SetLong(
                    crate::commands::SetLongCommand { object_id, field_id: f, value: x },
                ),
            },
        ),
        ResetValueOf::Structure(b) => (
            crate::room::field::FieldValueOf::Structure(b),
            crate::room::object::S2CCommandWithFieldInfoOf {
                field: Some(Field { id: f, field_type: FieldType::Structure }),
                command: crate::commands::S2CCommandOf::SetStructure(
                    crate::commands::SetStructureCommandOf { object_id, field_id: f, structure: b },
                ),
            },
        ),
    }
}

/// What restoring one value of a leaving member does: if the member is still
/// the field's compare-and-set owner, the field takes the value and the
/// members that can see the object are told.
pub open spec fn reset_applied(
    before: Room,
    after: Room,
    key: CleanerKey,
    value: SpecResetValue,
    member: RoomMemberId,
    r: Result<(), ServerCommandError>,
) -> bool {
    let object_id = crate::room::member::spec_cleaner_object(key);
    let f = key.3;
    let o = lookup(before.object_model(), object_id)->0;
    if !has_key(before.object_model(), object_id) || lookup(o.owners, f) != Some(member) || !reset_fits(value, o, f) {
        &&& r is Ok
        &&& crate::room::action::room_unchanged(after, before)
    } else if !crate::room::action::can_set(o.fields, f) {
        &&& r == Err::<(), ServerCommandError>(crate::room::action::overflow(o))
        &&& same_settings(after, before)
        &&& after.object_model() == before.object_model()
        &&& after.members == before.members
        &&& after.out_commands == before.out_commands
        &&& after.command_trace_session == before.command_trace_session
    } else {
        let (v, c) = reset_command(value, object_id, f);
        let o2 = crate::room::action::with_field(o, f, v);
        &&& r is Ok
        &&& same_settings(after, before)
        &&& after.object_model() == before.object_model().update(
            crate::room::maps::index_of(before.object_model(), object_id),
            (object_id, o2),
        )
        &&& crate::room::sender::members_after_send(
            before.members@,
            after.members@,
            o2.access_groups,
            o2.template_id,
            seq![c],
            crate::room::sender::MemberFilter::All,
            before.permission_manager.permissions.templates@,
            crate::room::sender::channel_or_default(before.current_channel),
            crate::room::sender::creator_or_relay(before.current_member_id),
        )
        &&& crate::room::sender::log_view(after.out_commands@) == crate::room::sender::pushed_front(
            before.record_sent,
            crate::room::sender::log_view(before.out_commands@),
            o2.access_groups,
            seq![c],
        )
        &&& crate::room::sender::same_sessions(after.command_trace_session.view(), before.command_trace_session.view())
    }
}

/// One more value restored after the others, unless they stopped at an error.
pub open spec fn reset_step(
    mid: Room,
    r1: Result<(), ServerCommandError>,
    after: Room,
    last: (CleanerKey, SpecResetValue),
    member: RoomMemberId,
    r: Result<(), ServerCommandError>,
) -> bool {
    if r1 is Err {
        r == r1 && after == mid
    } else {
        reset_applied(mid, after, last.0, last.1, member, r)
    }
}

/// Restoring the values in order, stopping at the first error.
pub open spec fn resets_applied(
    before: Room,
    after: Room,
    entries: Seq<(CleanerKey, SpecResetValue)>,
    member: RoomMemberId,
    r: Result<(), ServerCommandError>,
) -> bool
    decreases entries.len(),
{
    if entries.len() == 0 {
        r is Ok && after == before
    } else {
        exists|mid: Room, r1: Result<(), ServerCommandError>|
            #![trigger reset_step(mid, r1, after, entries.last(), member, r)]
            {
                &&& resets_applied(before, mid, entries.drop_last(), member, r1)
                &&& reset_step(mid, r1, after, entries.last(), member, r)
            }
    }
}

fn reset_one(room: &mut Room, member_id: RoomMemberId, key: CleanerKey, value: &ResetValueOf<Vec<u8>>) -> (r: Result<(), ServerCommandError>)
    requires
        old(room).wf(),
    ensures
        final(room).wf(),
        reset_applied(*old(room), *final(room), key, value@, member_id, r),
{
    let object_id = crate::room::member::cleaner_object(key);
    let f = key.3;
    let (owner_ok, fits) = match objects_get(&room.objects, &object_id) {
        None => (false, false),
        Some(object) => {
            let owner_ok = match object.get_compare_and_set_owner(&f) {
                Some(owner) => *owner == member_id,
                None => false,
            };
            let fits = match value {
                ResetValueOf::Long(_) => true,
                ResetValueOf::Structure(_) => match object.field(&f) {
                    None => true,
                    Some(crate::room::field::FieldValueOf::Structure(_)) => true,
                    Some(_) => false,
                },
            };
            (owner_ok, fits)
        },
    };
    if !owner_ok || !fits {
        return Ok(());
    }
    let ghost objects0 = room.object_model();
    let object = crate::room::objects::objects_get_mut(&mut room.objects, &object_id);
    let (set, command) = match value {
        ResetValueOf::Long(x) => (
            object.set_long(f, *x),
            crate::room::object::S2CCommandWithFieldInfoOf {
                field: Some(Field { id: f, field_type: FieldType::Long }),
                command: crate::commands::S2CCommandOf::SetLong(
                    crate::commands::SetLongCommand { object_id, field_id: f, value: *x },
                ),
            },
        ),
        ResetValueOf::Structure(b) => (
            object.set_structure(f, b.as_slice()),
            crate::room::object::S2CCommandWithFieldInfoOf {
                field: Some(Field { id: f, field_type: FieldType::Structure }),
                command: crate::commands::S2CCommandOf::SetStructure(
                    crate::commands::SetStructureCommandOf { object_id, field_id: f, structure: copy_bytes(b) },
                ),
            },
        ),
    };
    let groups = object.access_groups;
    let template = object.template_id;
    let ghost o2 = object@;
    proof {
        crate::room::objects::lemma_objects_updated(objects0, object_id, o2);
    }
    match set {
        Err(e) => {
            proof {
                assert(objects0.update(crate::room::maps::index_of(objects0, object_id), (object_id, o2)) == objects0);
            }
            return Err(ServerCommandError::GameObjectError { error: e });
        },
        Ok(()) => {},
    }
    let mut commands: Vec<crate::room::object::S2CCommandWithFieldInfo> = Vec::new();
    commands.push(command);
    proof {
        assert(crate::room::sender::commands_view(commands@) == seq![reset_command(value@, object_id, f).1]);
    }
    room.send_to_members(groups, template, commands.as_slice(), crate::room::sender::MemberFilter::All);
    Ok(())
}

/// Restore the values of a leaving member, in order: each field of which the
/// member is still the compare-and-set owner takes its value back, and the
/// members that can see the object are told. A structure value goes only to a
/// field that holds a structure or nothing.
pub fn reset_all_compare_and_set(
    room: &mut Room,
    member_id: RoomMemberId,
    compare_and_set_cleaners: &crate::room::member::CleanerIndex,
) -> (r: Result<(), ServerCommandError>)
    requires
        old(room).wf(),
    ensures
        final(room).wf(),
        resets_applied(
            *old(room),
            *final(room),
            crate::room::member::cleaner_entries(*compare_and_set_cleaners),
            member_id,
            r,
        ),
{
    let entries = crate::room::member::cleaners_entries(compare_and_set_cleaners);
    let ghost es = crate::room::member::cleaner_entries(*compare_and_set_cleaners);
    let ghost room0 = *room;
    let ghost mut okr: Result<(), ServerCommandError> = Ok(());
    proof {
        assert(es.take(0) == Seq::<(CleanerKey, SpecResetValue)>::empty());
    }
    let mut k: usize = 0;
    while k < entries.len()
        invariant
            k <= entries@.len(),
            entries@.len() == es.len(),
            forall|a: int| 0 <= a < entries@.len() ==> (#[trigger] entries@[a]).0 == es[a].0 && entries@[a].1@ == es[a].1,
            room.wf(),
            room0 == *old(room),
            es == crate::room::member::cleaner_entries(*compare_and_set_cleaners),
            okr is Ok,
            resets_applied(room0, *room, es.take(k as int), member_id, okr),
        decreases entries@.len() - k,
    {
        let ghost mid = *room;
        let (key, value) = &entries[k];
        let result = reset_one(room, member_id, *key, value);
        proof {
            assert(es.take(k + 1).drop_last() == es.take(k as int));
            assert(resets_applied(room0, mid, es.take(k + 1).drop_last(), member_id, okr));
            assert(es.take(k + 1).last() == es[k as int]);
            assert(reset_step(mid, okr, *room, es.take(k + 1).last(), member_id, result));
            assert(resets_applied(room0, *room, es.take(k + 1), member_id, result));
        }
        match result {
            Err(e) => {
                proof {
                    let after = *room;
                    lemma_resets_stop(room0, after, es, k as int + 1, member_id, result);
                }
                return Err(e);
            },
            Ok(()) => {
                proof {
                    okr = result;
                }
            },
        }
        k = k + 1;
    }
    proof {
        assert(es.take(entries@.len() as int) == es);
        lemma_resets_ok(room0, *room, es, member_id, okr, Ok(()));
    }
    Ok(())
}

/// Which `Ok` a restoring ends with does not matter.
proof fn lemma_resets_ok(
    before: Room,
    after: Room,
    es: Seq<(CleanerKey, SpecResetValue)>,
    member: RoomMemberId,
    r1: Result<(), ServerCommandError>,
    r2: Result<(), ServerCommandError>,
)
    requires
        resets_applied(before, after, es, member, r1),
        r1 is Ok,
        r2 is Ok,
    ensures
        resets_applied(before, after, es, member, r2),
{
    if es.len() > 0 {
        let (mid, r0) = choose|mid: Room, r0: Result<(), ServerCommandError>|
            #![trigger reset_step(mid, r0, after, es.last(), member, r1)]
            resets_applied(before, mid, es.drop_last(), member, r0) && reset_step(mid, r0, after, es.last(), member, r1);
        assert(reset_step(mid, r0, after, es.last(), member, r2));
    }
}

/// After an error, the remaining values are not restored.
proof fn lemma_resets_stop(
    before: Room,
    after: Room,
    es: Seq<(CleanerKey, SpecResetValue)>,
    n: int,
    member: RoomMemberId,
    r: Result<(), ServerCommandError>,
)
    requires
        0 <= n <= es.len(),
        resets_applied(before, after, es.take(n), member, r),
        r is Err,
    ensures
        resets_applied(before, after, es, member, r),
    decreases es.len() - n,
{
    if n < es.len() {
        let next = es.take(n + 1);
        assert(next.drop_last() == es.take(n));
        assert(resets_applied(before, after, next.drop_last(), member, r));
        assert(reset_step(after, r, after, next.last(), member, r));
        assert(resets_applied(before, after, next, member, r));
        lemma_resets_stop(before, after, es, n + 1, member, r);
    } else {
        assert(es.take(n) == es);
    }
}

/// Restoring values keeps the room's identifier.
pub proof fn lemma_resets_keep_id(
    before: Room,
    after: Room,
    es: Seq<(CleanerKey, SpecResetValue)>,
    member: RoomMemberId,
    r: Result<(), ServerCommandError>,
)
    requires
        resets_applied(before, after, es, member, r),
    ensures
        after.id == before.id,
    decreases es.len(),
{
    if es.len() > 0 {
        let (mid, r0) = choose|mid: Room, r0: Result<(), ServerCommandError>|
            #![trigger reset_step(mid, r0, after, es.last(), member, r)]
            resets_applied(before, mid, es.drop_last(), member, r0) && reset_step(mid, r0, after, es.last(), member, r);
        lemma_resets_keep_id(before, mid, es.drop_last(), member, r0);
    }
}

/// The object and field that an entry restores.
pub open spec fn reset_target(key: CleanerKey) -> (GameObjectId, crate::types::FieldId) {
    (crate::room::member::spec_cleaner_object(key), key.3)
}

/// The value of a field of an object of the room, if both exist.
pub open spec fn field_value(room: Room, object_id: GameObjectId, f: crate::types::FieldId) -> Option<crate::room::field::SpecFieldValue> {
    if has_key(room.object_model(), object_id) {
        lookup((lookup(room.object_model(), object_id)->0).fields, f)
    } else {
        None
    }
}

/// The entry will be restored: the object is there, the member is still the
/// field's compare-and-set owner, the field exists and takes the value.
pub open spec fn reset_ready(room: Room, key: CleanerKey, value: SpecResetValue, member: RoomMemberId) -> bool {
    let object_id = crate::room::member::spec_cleaner_object(key);
    let o = lookup(room.object_model(), object_id)->0;
    &&& has_key(room.object_model(), object_id)
    &&& lookup(o.owners, key.3) == Some(member)
    &&& has_key(o.fields, key.3)
    &&& reset_fits(value, o, key.3)
}

/// Nothing of the field, its object or its owner changed between two rooms.
pub open spec fn target_kept(before: Room, after: Room, object_id: GameObjectId, f: crate::types::FieldId) -> bool {
    &&& has_key(after.object_model(), object_id) == has_key(before.object_model(), object_id)
    &&& field_value(after, object_id, f) == field_value(before, object_id, f)
    &&& has_key(before.object_model(), object_id) ==> (lookup(after.object_model(), object_id)->0).owners == (lookup(
        before.object_model(),
        object_id,
    )->0).owners
}

/// Restoring one value changes only its field, keeps the objects well formed,
/// and, when the entry is ready, puts the value in the field.
proof fn lemma_reset_applied_effect(
    before: Room,
    after: Room,
    key: CleanerKey,
    value: SpecResetValue,
    member: RoomMemberId,
    r: Result<(), ServerCommandError>,
)
    requires
        crate::room::objects::objects_wf(before.object_model()),
        reset_applied(before, after, key, value, member, r),
    ensures
        crate::room::objects::objects_wf(after.object_model()),
        forall|object_id: GameObjectId, f: crate::types::FieldId|
            (object_id, f) != reset_target(key) ==> #[trigger] target_kept(before, after, object_id, f),
        reset_ready(before, key, value, member) ==> r is Ok && field_value(after, reset_target(key).0, key.3) == Some(
            reset_command(value, reset_target(key).0, key.3).0,
        ),
{
    let object_id = crate::room::member::spec_cleaner_object(key);
    let f = key.3;
    let s = before.object_model();
    let t = after.object_model();
    let o = lookup(s, object_id)->0;
    if has_key(s, object_id) && lookup(o.owners, f) == Some(member) && reset_fits(value, o, f) && crate::room::action::can_set(
        o.fields,
        f,
    ) {
        let i = crate::room::maps::index_of(s, object_id);
        let v = reset_command(value, object_id, f).0;
        let o2 = crate::room::action::with_field(o, f, v);
        assert(s[i].0 == object_id);
        assert(t == s.update(i, (object_id, o2)));
        crate::room::maps::lemma_inserted(o.fields, f, v);
        assert(crate::room::object::object_wf(o2));
        assert forall|a: int, b: int| 0 <= a < b < t.len() implies #[trigger] t[a].0 != #[trigger] t[b].0 by {
            assert(t[a].0 == s[a].0);
            assert(t[b].0 == s[b].0);
        }
        assert(crate::room::objects::objects_wf(t));
        crate::room::maps::lemma_index_of(t, i);
        assert forall|id2: GameObjectId, f2: crate::types::FieldId| (id2, f2) != reset_target(key) implies #[trigger] target_kept(
            before,
            after,
            id2,
            f2,
        ) by {
            if has_key(s, id2) {
                let j = crate::room::maps::index_of(s, id2);
                assert(s[j].0 == id2);
                assert(t[j].0 == id2);
                crate::room::maps::lemma_index_of(t, j);
            }
            if has_key(t, id2) {
                let j = crate::room::maps::index_of(t, id2);
                assert(t[j].0 == id2);
                assert(s[j].0 == id2);
            }
        }
    }
}

/// Restoring values of other fields keeps a field, its object and its owner.
proof fn lemma_resets_keep_target(
    before: Room,
    after: Room,
    es: Seq<(CleanerKey, SpecResetValue)>,
    member: RoomMemberId,
    r: Result<(), ServerCommandError>,
    object_id: GameObjectId,
    f: crate::types::FieldId,
)
    requires
        crate::room::objects::objects_wf(before.object_model()),
        resets_applied(before, after, es, member, r),
        forall|k: int| 0 <= k < es.len() ==> reset_target(#[trigger] es[k].0) != (object_id, f),
    ensures
        crate::room::objects::objects_wf(after.object_model()),
        target_kept(before, after, object_id, f),
    decreases es.len(),
{
    if es.len() > 0 {
        let (mid, r1) = choose|mid: Room, r1: Result<(), ServerCommandError>|
            #![trigger reset_step(mid, r1, after, es.last(), member, r)]
            resets_applied(before, mid, es.drop_last(), member, r1) && reset_step(mid, r1, after, es.last(), member, r);
        assert forall|k: int| 0 <= k < es.drop_last().len() implies reset_target(#[trigger] es.drop_last()[k].0) != (object_id, f) by {
            assert(es.drop_last()[k] == es[k]);
        }
        lemma_resets_keep_target(before, mid, es.drop_last(), member, r1, object_id, f);
        if r1 is Ok {
            assert(es.last() == es[es.len() - 1]);
            lemma_reset_applied_effect(mid, after, es.last().0, es.last().1, member, r);
            assert(target_kept(mid, after, object_id, f));
        }
    }
}

/// When a member leaves, each value it asked to restore is restored: if no
/// error stopped the restoring and the entries restore distinct fields, every
/// field whose entry was ready (its object there, the member still its owner,
/// the field existing and taking the value) holds the value afterwards.
pub proof fn law_resets_restore_values(
    before: Room,
    after: Room,
    es: Seq<(CleanerKey, SpecResetValue)>,
    member: RoomMemberId,
    r: Result<(), ServerCommandError>,
)
    requires
        crate::room::objects::objects_wf(before.object_model()),
        resets_applied(before, after, es, member, r),
        r is Ok,
        forall|a: int, b: int| 0 <= a < b < es.len() ==> reset_target(#[trigger] es[a].0) != reset_target(#[trigger] es[b].0),
    ensures
        forall|k: int|
            0 <= k < es.len() && reset_ready(before, #[trigger] es[k].0, es[k].1, member) ==> field_value(
                after,
                reset_target(es[k].0).0,
                es[k].0.3,
            ) == Some(reset_command(es[k].1, reset_target(es[k].0).0, es[k].0.3).0),
    decreases es.len(),
{
    if es.len() > 0 {
        let n = es.len() - 1;
        let d = es.drop_last();
        let last = es.last();
        assert(last == es[n]);
        let (mid, r1) = choose|mid: Room, r1: Result<(), ServerCommandError>|
            #![trigger reset_step(mid, r1, after, es.last(), member, r)]
            resets_applied(before, mid, es.drop_last(), member, r1) && reset_step(mid, r1, after, es.last(), member, r);
        assert(r1 is Ok);
        assert forall|a: int, b: int| 0 <= a < b < d.len() implies reset_target(#[trigger] d[a].0) != reset_target(#[trigger] d[b].0) by {
            assert(d[a] == es[a]);
            assert(d[b] == es[b]);
        }
        law_resets_restore_values(before, mid, d, member, r1);
        assert forall|k: int| 0 <= k < d.len() implies reset_target(#[trigger] d[k].0) != reset_target(last.0) by {
            assert(d[k] == es[k]);
        }
        lemma_resets_keep_target(before, mid, d, member, r1, reset_target(last.0).0, last.0.3);
        lemma_reset_applied_effect(mid, after, last.0, last.1, member, r);
        assert forall|k: int|
            0 <= k < es.len() && reset_ready(before, #[trigger] es[k].0, es[k].1, member) implies field_value(
            after,
            reset_target(es[k].0).0,
            es[k].0.3,
        ) == Some(reset_command(es[k].1, reset_target(es[k].0).0, es[k].0.3).0) by {
            if k < n {
                assert(d[k] == es[k]);
                assert(reset_target(es[k].0) != reset_target(last.0));
                assert(target_kept(mid, after, reset_target(es[k].0).0, es[k].0.3));
            } else {
                assert(target_kept(before, mid, reset_target(last.0).0, last.0.3));
                assert(reset_ready(mid, last.0, last.1, member));
            }
        }
    }
}

/// The entry restores nothing: its object is gone, or the member is no
/// longer the field's compare-and-set owner.
pub open spec fn reset_unowned(room: Room, key: CleanerKey, member: RoomMemberId) -> bool {
    let object_id = crate::room::member::spec_cleaner_object(key);
    !has_key(room.object_model(), object_id) || lookup((lookup(room.object_model(), object_id)->0).owners, key.3) != Some(
        member,
    )
}

/// When a member leaves, an entry whose object is gone, or whose field another
/// member now owns, changes nothing: the object stays absent, or the field
/// keeps its value and its owner, whatever the other entries restore (each
/// entry restoring its own field).
pub proof fn law_unowned_resets_change_nothing(
    before: Room,
    after: Room,
    es: Seq<(CleanerKey, SpecResetValue)>,
    member: RoomMemberId,
    r: Result<(), ServerCommandError>,
)
    requires
        crate::room::objects::objects_wf(before.object_model()),
        resets_applied(before, after, es, member, r),
        forall|a: int, b: int| 0 <= a < b < es.len() ==> reset_target(#[trigger] es[a].0) != reset_target(#[trigger] es[b].0),
    ensures
        forall|k: int|
            0 <= k < es.len() && reset_unowned(before, #[trigger] es[k].0, member) ==> target_kept(
                before,
                after,
                reset_target(es[k].0).0,
                es[k].0.3,
            ),
    decreases es.len(),
{
    if es.len() > 0 {
        let n = es.len() - 1;
        let d = es.drop_last();
        let last = es.last();
        assert(last == es[n]);
        let (mid, r1) = choose|mid: Room, r1: Result<(), ServerCommandError>|
            #![trigger reset_step(mid, r1, after, es.last(), member, r)]
            resets_applied(before, mid, es.drop_last(), member, r1) && reset_step(mid, r1, after, es.last(), member, r);
        assert forall|a: int, b: int| 0 <= a < b < d.len() implies reset_target(#[trigger] d[a].0) != reset_target(#[trigger] d[b].0) by {
            assert(d[a] == es[a]);
            assert(d[b] == es[b]);
        }
        law_unowned_resets_change_nothing(before, mid, d, member, r1);
        assert forall|k: int| 0 <= k < d.len() implies reset_target(#[trigger] d[k].0) != reset_target(last.0) by {
            assert(d[k] == es[k]);
        }
        lemma_resets_keep_target(before, mid, d, member, r1, reset_target(last.0).0, last.0.3);
        if r1 is Ok {
            lemma_reset_applied_effect(mid, after, last.0, last.1, member, r);
        }
        assert forall|k: int|
            0 <= k < es.len() && reset_unowned(before, #[trigger] es[k].0, member) implies target_kept(
            before,
            after,
            reset_target(es[k].0).0,
            es[k].0.3,
        ) by {
            if k < n {
                assert(d[k] == es[k]);
                assert(reset_target(es[k].0) != reset_target(last.0));
                assert(target_kept(before, mid, reset_target(es[k].0).0, es[k].0.3));
                if r1 is Ok {
                    assert(target_kept(mid, after, reset_target(es[k].0).0, es[k].0.3));
                }
            } else {
                assert(target_kept(before, mid, reset_target(last.0).0, last.0.3));
                assert(reset_unowned(mid, last.0, member));
            }
        }
    }
}

} // verus!
