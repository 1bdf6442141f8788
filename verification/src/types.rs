//! Identifiers and small value types shared by rooms, commands and the tracer.
use vstd::prelude::*;

verus! {

/// Identifier of a room on the relay server.
pub type RoomId = u64;

/// Identifier of a member inside a room.
pub type RoomMemberId = u16;

/// Identifier of a game object template.
pub type GameObjectTemplateId = u16;

/// Identifier of a field of a game object.
pub type FieldId = u16;

/// Bit mask of access groups.
#[derive(Clone, Copy, Debug, PartialEq, Eq, Structural, Default, Hash)]
pub struct AccessGroups(pub u64);

impl AccessGroups {
    /// The two masks share at least one group.
    pub open spec fn spec_contains_any(self, other: AccessGroups) -> bool {
        self.0 & other.0 != 0
    }

    /// Every group of `self` is also a group of `other`.
    pub open spec fn spec_is_sub_groups(self, other: AccessGroups) -> bool {
        self.0 & other.0 == self.0
    }

    pub fn contains_any(&self, other: &AccessGroups) -> (r: bool)
        ensures
            r == self.spec_contains_any(*other),
    {
        self.0 & other.0 != 0
    }

    pub fn is_sub_groups(&self, other: &AccessGroups) -> (r: bool)
        ensures
            r == self.spec_is_sub_groups(*other),
    {
        self.0 & other.0 == self.0
    }
}

/// Data type of a field.
#[derive(Clone, Copy, Debug, PartialEq, Eq, Structural, Hash)]
pub enum FieldType {
    Long,
    Double,
    Structure,
    Event,
}

/// Owner of a game object: the room itself or one of its members.
#[derive(Clone, Copy, Debug, PartialEq, Eq, Structural, Hash)]
pub enum GameObjectOwner {
    Room,
    User(RoomMemberId),
}

/// Identifier of a game object: a number unique per owner, and the owner.
#[derive(Clone, Copy, Debug, PartialEq, Eq, Structural, Hash)]
pub struct GameObjectId {
    pub id: u32,
    pub owner: GameObjectOwner,
}

impl GameObjectId {
    pub fn new(id: u32, owner: GameObjectOwner) -> (r: GameObjectId)
        ensures
            r.id == id,
            r.owner == owner,
    {
        GameObjectId { id, owner }
    }

    /// The identifier used where none is given: id 0, owned by the room.
    pub fn default_id() -> (r: GameObjectId)
        ensures
            r.id == 0,
            r.owner == GameObjectOwner::Room,
    {
        GameObjectId { id: 0, owner: GameObjectOwner::Room }
    }
}

/// A field of a game object, identified by its id and its type.
#[derive(Clone, Copy, Debug, PartialEq, Eq, Structural, Hash)]
pub struct Field {
    pub id: FieldId,
    pub field_type: FieldType,
}

} // verus!
