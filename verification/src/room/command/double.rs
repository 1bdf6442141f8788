//! Setting and incrementing double fields.
//!
//! A double travels as the bit pattern of the number; the sum of two doubles
//! is computed by the caller's function.
use vstd::prelude::*;

use crate::commands::{IncrementDoubleCommand, SetDoubleCommand};
use crate::room::action::{action_done, action_runs, FieldActionOf};
use crate::room::command::{ServerCommandError, ServerCommandExecutor};
use crate::room::field::FieldValueOf;
use crate::room::maps::lookup;
use crate::room::object::holds_double_or_none;
use crate::room::objects::objects_get;
use crate::room::template::Permission;
use crate::room::Room;
use crate::types::{Field, FieldType, RoomMemberId};

verus! {

impl ServerCommandExecutor for SetDoubleCommand {
    open spec fn reads_fit(&self, room: Room, member_id: RoomMemberId) -> bool {
        true
    }

    /// Set the field, if the member may write it, and send the new value.
    fn execute(&self, room: &mut Room, member_id: RoomMemberId) -> (r: Result<(), ServerCommandError>)
        ensures
            final(room).wf(),
            action_done(
                *old(room),
                *final(room),
                self.object_id,
                Field { id: self.field_id, field_type: FieldType::Double },
                member_id,
                Permission::Rw,
                None,
                FieldActionOf::SetDouble(self.value),
                r,
            ),
    {
        let action = FieldActionOf::SetDouble(self.value);
        room.do_action_and_send_commands(
            &self.object_id,
            Field { id: self.field_id, field_type: FieldType::Double },
            member_id,
            Permission::Rw,
            None,
            &action,
        )
    }
}

/// The bit pattern of the double field of an object, if it has one.
pub open spec fn current_double(room: Room, c: IncrementDoubleCommand) -> Option<u64> {
    match lookup(room.object_model(), c.object_id) {
        Some(o) => match lookup(o.fields, c.field_id) {
            Some(FieldValueOf::Double(v)) => Some(v),
            _ => None,
        },
        None => None,
    }
}

impl IncrementDoubleCommand {
    /// Add to the field (a missing field takes the increment), if the member
    /// may write it, and send the new value; `sum` adds two doubles given by
    /// their bit patterns.
    pub fn execute<F: Fn(u64, u64) -> u64>(&self, room: &mut Room, member_id: RoomMemberId, sum: &F) -> (r: Result<(), ServerCommandError>)
        requires
            old(room).wf(),
            action_runs(
                *old(room),
                self.object_id,
                Field { id: self.field_id, field_type: FieldType::Double },
                member_id,
                Permission::Rw,
            ) ==> holds_double_or_none(lookup(old(room).object_model(), self.object_id)->0.fields, self.field_id),
            forall|a: u64, b: u64| sum.requires((a, b)),
        ensures
            final(room).wf(),
            exists|value: u64|
                {
                    &&& match current_double(*old(room), *self) {
                        Some(v) => sum.ensures((v, self.increment), value),
                        None => value == self.increment,
                    }
                    &&& action_done(
                        *old(room),
                        *final(room),
                        self.object_id,
                        Field { id: self.field_id, field_type: FieldType::Double },
                        member_id,
                        Permission::Rw,
                        None,
                        FieldActionOf::SetDouble(value),
                        r,
                    )
                },
    {
        let current = match objects_get(&room.objects, &self.object_id) {
            None => None,
            Some(object) => match object.field(&self.field_id) {
                Some(FieldValueOf::Double(v)) => Some(*v),
                _ => None,
            },
        };
        let value = match current {
            Some(v) => sum(v, self.increment),
            None => self.increment,
        };
        let action = FieldActionOf::SetDouble(value);
        room.do_action_and_send_commands(
            &self.object_id,
            Field { id: self.field_id, field_type: FieldType::Double },
            member_id,
            Permission::Rw,
            None,
            &action,
        )
    }
}

} // verus!
