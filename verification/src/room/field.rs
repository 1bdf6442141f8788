//! Values of game object fields.
use vstd::prelude::*;

use crate::commands::{copy_bytes, S2CCommandOf, SetDoubleCommand, SetLongCommand, SetStructureCommandOf};
use crate::types::{FieldId, FieldType, GameObjectId};

verus! {

/// Value of a field: a long, a double (by its IEEE-754 bit pattern) or a
/// structure (bytes).
#[derive(Clone, Debug, PartialEq)]
pub enum FieldValueOf<B> {
    Long(i64),
    Double(u64),
    Structure(B),
}

pub type FieldValue = FieldValueOf<Vec<u8>>;

pub type SpecFieldValue = FieldValueOf<Seq<u8>>;

impl View for FieldValueOf<Vec<u8>> {
    type V = SpecFieldValue;

    open spec fn view(&self) -> SpecFieldValue {
        match self {
            FieldValueOf::Long(v) => FieldValueOf::Long(*v),
            FieldValueOf::Double(v) => FieldValueOf::Double(*v),
            FieldValueOf::Structure(b) => FieldValueOf::Structure(b@),
        }
    }
}

/// Type of the field that holds a value.
pub open spec fn value_type<B>(v: FieldValueOf<B>) -> FieldType {
    match v {
        FieldValueOf::Long(_) => FieldType::Long,
        FieldValueOf::Double(_) => FieldType::Double,
        FieldValueOf::Structure(_) => FieldType::Structure,
    }
}

/// The command that sets a field of an object to a value.
pub open spec fn set_command(v: SpecFieldValue, object_id: GameObjectId, field_id: FieldId) -> S2CCommandOf<Seq<u8>> {
    match v {
        FieldValueOf::Long(value) => S2CCommandOf::SetLong(SetLongCommand { object_id, field_id, value }),
        FieldValueOf::Double(value) => S2CCommandOf::SetDouble(SetDoubleCommand { object_id, field_id, value }),
        FieldValueOf::Structure(structure) => S2CCommandOf::SetStructure(
            SetStructureCommandOf { object_id, field_id, structure },
        ),
    }
}

impl FieldValueOf<Vec<u8>> {
    pub fn field_type(&self) -> (r: FieldType)
        ensures
            r == value_type(*self),
    {
        match self {
            FieldValueOf::Long(_) => FieldType::Long,
            FieldValueOf::Double(_) => FieldType::Double,
            FieldValueOf::Structure(_) => FieldType::Structure,
        }
    }

    /// The command that sets the field `field_id` of `object_id` to this value.
    pub fn s2c_set_command(&self, object_id: GameObjectId, field_id: FieldId) -> (r: S2CCommandOf<Vec<u8>>)
        ensures
            r@ == set_command(self@, object_id, field_id),
    {
        match self {
            FieldValueOf::Long(value) => S2CCommandOf::SetLong(SetLongCommand { object_id, field_id, value: *value }),
            FieldValueOf::Double(value) => S2CCommandOf::SetDouble(
                SetDoubleCommand { object_id, field_id, value: *value },
            ),
            FieldValueOf::Structure(value) => S2CCommandOf::SetStructure(
                SetStructureCommandOf { object_id, field_id, structure: copy_bytes(value) },
            ),
        }
    }

    pub fn copy(&self) -> (r: Self)
        ensures
            r@ == self@,
    {
        match self {
            FieldValueOf::Long(v) => FieldValueOf::Long(*v),
            FieldValueOf::Double(v) => FieldValueOf::Double(*v),
            FieldValueOf::Structure(b) => FieldValueOf::Structure(copy_bytes(b)),
        }
    }
}

} // verus!
