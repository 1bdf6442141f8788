//! Network commands exchanged between clients and the relay.
//!
//! Commands that carry binary data are generic over the payload type: the
//! executable commands hold `Vec<u8>`, their mathematical view holds `Seq<u8>`.
//! Double values travel as the IEEE-754 bit pattern of the number (`u64`).
use vstd::prelude::*;

use crate::types::{AccessGroups, FieldId, FieldType, GameObjectId, GameObjectTemplateId, RoomMemberId};

verus! {

/// Create a game object.
#[derive(Clone, Copy, Debug, PartialEq, Eq, Structural)]
pub struct CreateGameObjectCommand {
    pub object_id: GameObjectId,
    pub template: GameObjectTemplateId,
    pub access_groups: AccessGroups,
}

/// A game object is fully created (sent by the client after its fields).
#[derive(Clone, Copy, Debug, PartialEq, Eq, Structural)]
pub struct CreatedGameObjectCommand {
    pub object_id: GameObjectId,
}

/// Set a long field.
#[derive(Clone, Copy, Debug, PartialEq, Eq, Structural)]
pub struct SetLongCommand {
    pub object_id: GameObjectId,
    pub field_id: FieldId,
    pub value: i64,
}

/// Increment a long field.
#[derive(Clone, Copy, Debug, PartialEq, Eq, Structural)]
pub struct IncrementLongCommand {
    pub object_id: GameObjectId,
    pub field_id: FieldId,
    pub increment: i64,
}

/// Set a long field if it holds `current` (or nothing); optionally reset it
/// to `reset` when the member leaves.
#[derive(Clone, Copy, Debug, PartialEq, Eq, Structural)]
pub struct CompareAndSetLongCommand {
    pub object_id: GameObjectId,
    pub field_id: FieldId,
    pub current: i64,
    pub new: i64,
    pub reset: Option<i64>,
}

/// Set a double field; `value` is the bit pattern of the number.
#[derive(Clone, Copy, Debug, PartialEq, Eq, Structural)]
pub struct SetDoubleCommand {
    pub object_id: GameObjectId,
    pub field_id: FieldId,
    pub value: u64,
}

/// Increment a double field; `increment` is the bit pattern of the number.
#[derive(Clone, Copy, Debug, PartialEq, Eq, Structural)]
pub struct IncrementDoubleCommand {
    pub object_id: GameObjectId,
    pub field_id: FieldId,
    pub increment: u64,
}

/// Set a structure field.
#[derive(Clone, Debug, PartialEq, Eq)]
pub struct SetStructureCommandOf<B> {
    pub object_id: GameObjectId,
    pub field_id: FieldId,
    pub structure: B,
}

/// Set a structure field if it holds `current` (or nothing).
#[derive(Clone, Debug, PartialEq, Eq)]
pub struct CompareAndSetStructureCommandOf<B> {
    pub object_id: GameObjectId,
    pub field_id: FieldId,
    pub current: B,
    pub new: B,
    pub reset: Option<B>,
}

/// An event on a field of a game object.
#[derive(Clone, Debug, PartialEq, Eq)]
pub struct EventCommandOf<B> {
    pub object_id: GameObjectId,
    pub field_id: FieldId,
    pub event: B,
}

/// An event sent to one member only.
#[derive(Clone, Debug, PartialEq, Eq)]
pub struct TargetEventCommandOf<B> {
    pub target: RoomMemberId,
    pub event: EventCommandOf<B>,
}

/// Delete a game object.
#[derive(Clone, Copy, Debug, PartialEq, Eq, Structural)]
pub struct DeleteGameObjectCommand {
    pub object_id: GameObjectId,
}

/// Delete a field of a game object.
#[derive(Clone, Copy, Debug, PartialEq, Eq, Structural)]
pub struct DeleteFieldCommand {
    pub object_id: GameObjectId,
    pub field_id: FieldId,
    pub field_type: FieldType,
}

/// Command from a client to the relay.
#[derive(Clone, Debug, PartialEq, Eq)]
pub enum C2SCommandOf<B> {
    Create(CreateGameObjectCommand),
    Created(CreatedGameObjectCommand),
    SetLong(SetLongCommand),
    IncrementLongValue(IncrementLongCommand),
    CompareAndSetLong(CompareAndSetLongCommand),
    SetDouble(SetDoubleCommand),
    IncrementDouble(IncrementDoubleCommand),
    SetStructure(SetStructureCommandOf<B>),
    CompareAndSetStructure(CompareAndSetStructureCommandOf<B>),
    Event(EventCommandOf<B>),
    TargetEvent(TargetEventCommandOf<B>),
    Delete(DeleteGameObjectCommand),
    AttachToRoom,
    DetachFromRoom,
    DeleteField(DeleteFieldCommand),
}

/// Command from the relay to a client.
#[derive(Clone, Debug, PartialEq, Eq)]
pub enum S2CCommandOf<B> {
    Create(CreateGameObjectCommand),
    Created(CreatedGameObjectCommand),
    SetLong(SetLongCommand),
    SetDouble(SetDoubleCommand),
    SetStructure(SetStructureCommandOf<B>),
    Event(EventCommandOf<B>),
    Delete(DeleteGameObjectCommand),
    DeleteField(DeleteFieldCommand),
}

pub type SetStructureCommand = SetStructureCommandOf<Vec<u8>>;
pub type CompareAndSetStructureCommand = CompareAndSetStructureCommandOf<Vec<u8>>;
pub type EventCommand = EventCommandOf<Vec<u8>>;
pub type TargetEventCommand = TargetEventCommandOf<Vec<u8>>;
pub type C2SCommand = C2SCommandOf<Vec<u8>>;
pub type S2CCommand = S2CCommandOf<Vec<u8>>;

pub type SpecC2SCommand = C2SCommandOf<Seq<u8>>;
pub type SpecS2CCommand = S2CCommandOf<Seq<u8>>;
pub type SpecEventCommand = EventCommandOf<Seq<u8>>;

/// A copy of the bytes.
pub fn copy_bytes(b: &Vec<u8>) -> (r: Vec<u8>)
    ensures
        r@ == b@,
{
    let mut r: Vec<u8> = Vec::new();
    let mut i: usize = 0;
    while i < b.len()
        invariant
            i <= b.len(),
            r@ == b@.subrange(0, i as int),
        decreases b.len() - i,
    {
        r.push(b[i]);
        i = i + 1;
    }
    r
}

impl View for EventCommandOf<Vec<u8>> {
    type V = SpecEventCommand;

    open spec fn view(&self) -> SpecEventCommand {
        EventCommandOf { object_id: self.object_id, field_id: self.field_id, event: self.event@ }
    }
}

impl EventCommandOf<Vec<u8>> {
    pub fn copy(&self) -> (r: Self)
        ensures
            r@ == self@,
    {
        EventCommandOf { object_id: self.object_id, field_id: self.field_id, event: copy_bytes(&self.event) }
    }
}

impl View for SetStructureCommandOf<Vec<u8>> {
    type V = SetStructureCommandOf<Seq<u8>>;

    open spec fn view(&self) -> SetStructureCommandOf<Seq<u8>> {
        SetStructureCommandOf {
            object_id: self.object_id,
            field_id: self.field_id,
            structure: self.structure@,
        }
    }
}

impl SetStructureCommandOf<Vec<u8>> {
    pub fn copy(&self) -> (r: Self)
        ensures
            r@ == self@,
    {
        SetStructureCommandOf {
            object_id: self.object_id,
            field_id: self.field_id,
            structure: copy_bytes(&self.structure),
        }
    }
}

pub open spec fn option_bytes_view(o: Option<Vec<u8>>) -> Option<Seq<u8>> {
    match o {
        Some(b) => Some(b@),
        None => None,
    }
}

pub fn copy_option_bytes(o: &Option<Vec<u8>>) -> (r: Option<Vec<u8>>)
    ensures
        option_bytes_view(r) == option_bytes_view(*o),
{
    match o {
        Some(b) => Some(copy_bytes(b)),
        None => None,
    }
}

impl View for CompareAndSetStructureCommandOf<Vec<u8>> {
    type V = CompareAndSetStructureCommandOf<Seq<u8>>;

    open spec fn view(&self) -> CompareAndSetStructureCommandOf<Seq<u8>> {
        CompareAndSetStructureCommandOf {
            object_id: self.object_id,
            field_id: self.field_id,
            current: self.current@,
            new: self.new@,
            reset: option_bytes_view(self.reset),
        }
    }
}

impl CompareAndSetStructureCommandOf<Vec<u8>> {
    pub fn copy(&self) -> (r: Self)
        ensures
            r@ == self@,
    {
        CompareAndSetStructureCommandOf {
            object_id: self.object_id,
            field_id: self.field_id,
            current: copy_bytes(&self.current),
            new: copy_bytes(&self.new),
            reset: copy_option_bytes(&self.reset),
        }
    }
}

impl View for TargetEventCommandOf<Vec<u8>> {
    type V = TargetEventCommandOf<Seq<u8>>;

    open spec fn view(&self) -> TargetEventCommandOf<Seq<u8>> {
        TargetEventCommandOf { target: self.target, event: self.event@ }
    }
}

impl TargetEventCommandOf<Vec<u8>> {
    pub fn copy(&self) -> (r: Self)
        ensures
            r@ == self@,
    {
        TargetEventCommandOf { target: self.target, event: self.event.copy() }
    }
}

impl View for C2SCommandOf<Vec<u8>> {
    type V = SpecC2SCommand;

    open spec fn view(&self) -> SpecC2SCommand {
        match self {
            C2SCommandOf::Create(c) => C2SCommandOf::Create(*c),
            C2SCommandOf::Created(c) => C2SCommandOf::Created(*c),
            C2SCommandOf::SetLong(c) => C2SCommandOf::SetLong(*c),
            C2SCommandOf::IncrementLongValue(c) => C2SCommandOf::IncrementLongValue(*c),
            C2SCommandOf::CompareAndSetLong(c) => C2SCommandOf::CompareAndSetLong(*c),
            C2SCommandOf::SetDouble(c) => C2SCommandOf::SetDouble(*c),
            C2SCommandOf::IncrementDouble(c) => C2SCommandOf::IncrementDouble(*c),
            C2SCommandOf::SetStructure(c) => C2SCommandOf::SetStructure(c@),
            C2SCommandOf::CompareAndSetStructure(c) => C2SCommandOf::CompareAndSetStructure(c@),
            C2SCommandOf::Event(c) => C2SCommandOf::Event(c@),
            C2SCommandOf::TargetEvent(c) => C2SCommandOf::TargetEvent(c@),
            C2SCommandOf::Delete(c) => C2SCommandOf::Delete(*c),
            C2SCommandOf::AttachToRoom => C2SCommandOf::AttachToRoom,
            C2SCommandOf::DetachFromRoom => C2SCommandOf::DetachFromRoom,
            C2SCommandOf::DeleteField(c) => C2SCommandOf::DeleteField(*c),
        }
    }
}

impl View for S2CCommandOf<Vec<u8>> {
    type V = SpecS2CCommand;

    open spec fn view(&self) -> SpecS2CCommand {
        match self {
            S2CCommandOf::Create(c) => S2CCommandOf::Create(*c),
            S2CCommandOf::Created(c) => S2CCommandOf::Created(*c),
            S2CCommandOf::SetLong(c) => S2CCommandOf::SetLong(*c),
            S2CCommandOf::SetDouble(c) => S2CCommandOf::SetDouble(*c),
            S2CCommandOf::SetStructure(c) => S2CCommandOf::SetStructure(c@),
            S2CCommandOf::Event(c) => S2CCommandOf::Event(c@),
            S2CCommandOf::Delete(c) => S2CCommandOf::Delete(*c),
            S2CCommandOf::DeleteField(c) => S2CCommandOf::DeleteField(*c),
        }
    }
}

impl C2SCommandOf<Vec<u8>> {
    pub fn copy(&self) -> (r: Self)
        ensures
            r@ == self@,
    {
        match self {
            C2SCommandOf::Create(c) => C2SCommandOf::Create(*c),
            C2SCommandOf::Created(c) => C2SCommandOf::Created(*c),
            C2SCommandOf::SetLong(c) => C2SCommandOf::SetLong(*c),
            C2SCommandOf::IncrementLongValue(c) => C2SCommandOf::IncrementLongValue(*c),
            C2SCommandOf::CompareAndSetLong(c) => C2SCommandOf::CompareAndSetLong(*c),
            C2SCommandOf::SetDouble(c) => C2SCommandOf::SetDouble(*c),
            C2SCommandOf::IncrementDouble(c) => C2SCommandOf::IncrementDouble(*c),
            C2SCommandOf::SetStructure(c) => C2SCommandOf::SetStructure(c.copy()),
            C2SCommandOf::CompareAndSetStructure(c) => C2SCommandOf::CompareAndSetStructure(c.copy()),
            C2SCommandOf::Event(c) => C2SCommandOf::Event(c.copy()),
            C2SCommandOf::TargetEvent(c) => C2SCommandOf::TargetEvent(c.copy()),
            C2SCommandOf::Delete(c) => C2SCommandOf::Delete(*c),
            C2SCommandOf::AttachToRoom => C2SCommandOf::AttachToRoom,
            C2SCommandOf::DetachFromRoom => C2SCommandOf::DetachFromRoom,
            C2SCommandOf::DeleteField(c) => C2SCommandOf::DeleteField(*c),
        }
    }
}

impl S2CCommandOf<Vec<u8>> {
    pub fn copy(&self) -> (r: Self)
        ensures
            r@ == self@,
    {
        match self {
            S2CCommandOf::Create(c) => S2CCommandOf::Create(*c),
            S2CCommandOf::Created(c) => S2CCommandOf::Created(*c),
            S2CCommandOf::SetLong(c) => S2CCommandOf::SetLong(*c),
            S2CCommandOf::SetDouble(c) => S2CCommandOf::SetDouble(*c),
            S2CCommandOf::SetStructure(c) => S2CCommandOf::SetStructure(c.copy()),
            S2CCommandOf::Event(c) => S2CCommandOf::Event(c.copy()),
            S2CCommandOf::Delete(c) => S2CCommandOf::Delete(*c),
            S2CCommandOf::DeleteField(c) => S2CCommandOf::DeleteField(*c),
        }
    }
}

/// Field id that a client command refers to.
pub open spec fn c2s_field_id<B>(c: C2SCommandOf<B>) -> Option<FieldId> {
    match c {
        C2SCommandOf::SetLong(c) => Some(c.field_id),
        C2SCommandOf::IncrementLongValue(c) => Some(c.field_id),
        C2SCommandOf::CompareAndSetLong(c) => Some(c.field_id),
        C2SCommandOf::SetDouble(c) => Some(c.field_id),
        C2SCommandOf::IncrementDouble(c) => Some(c.field_id),
        C2SCommandOf::SetStructure(c) => Some(c.field_id),
        C2SCommandOf::CompareAndSetStructure(c) => Some(c.field_id),
        C2SCommandOf::Event(c) => Some(c.field_id),
        C2SCommandOf::TargetEvent(c) => Some(c.event.field_id),
        C2SCommandOf::DeleteField(c) => Some(c.field_id),
        _ => None,
    }
}

/// Game object that a client command refers to.
pub open spec fn c2s_object_id<B>(c: C2SCommandOf<B>) -> Option<GameObjectId> {
    match c {
        C2SCommandOf::Create(c) => Some(c.object_id),
        C2SCommandOf::Created(c) => Some(c.object_id),
        C2SCommandOf::SetLong(c) => Some(c.object_id),
        C2SCommandOf::IncrementLongValue(c) => Some(c.object_id),
        C2SCommandOf::CompareAndSetLong(c) => Some(c.object_id),
        C2SCommandOf::SetDouble(c) => Some(c.object_id),
        C2SCommandOf::IncrementDouble(c) => Some(c.object_id),
        C2SCommandOf::SetStructure(c) => Some(c.object_id),
        C2SCommandOf::CompareAndSetStructure(c) => Some(c.object_id),
        C2SCommandOf::Event(c) => Some(c.object_id),
        C2SCommandOf::TargetEvent(c) => Some(c.event.object_id),
        C2SCommandOf::Delete(c) => Some(c.object_id),
        C2SCommandOf::DeleteField(c) => Some(c.object_id),
        C2SCommandOf::AttachToRoom => None,
        C2SCommandOf::DetachFromRoom => None,
    }
}

/// Field type that a client command refers to.
pub open spec fn c2s_field_type<B>(c: C2SCommandOf<B>) -> Option<FieldType> {
    match c {
        C2SCommandOf::SetLong(_) => Some(FieldType::Long),
        C2SCommandOf::IncrementLongValue(_) => Some(FieldType::Long),
        C2SCommandOf::CompareAndSetLong(_) => Some(FieldType::Long),
        C2SCommandOf::SetDouble(_) => Some(FieldType::Double),
        C2SCommandOf::IncrementDouble(_) => Some(FieldType::Double),
        C2SCommandOf::SetStructure(_) => Some(FieldType::Structure),
        C2SCommandOf::CompareAndSetStructure(_) => Some(FieldType::Structure),
        C2SCommandOf::Event(_) => Some(FieldType::Event),
        C2SCommandOf::TargetEvent(_) => Some(FieldType::Event),
        C2SCommandOf::DeleteField(c) => Some(c.field_type),
        _ => None,
    }
}

/// Field id that a relay command refers to.
pub open spec fn s2c_field_id<B>(c: S2CCommandOf<B>) -> Option<FieldId> {
    match c {
        S2CCommandOf::SetLong(c) => Some(c.field_id),
        S2CCommandOf::SetDouble(c) => Some(c.field_id),
        S2CCommandOf::SetStructure(c) => Some(c.field_id),
        S2CCommandOf::Event(c) => Some(c.field_id),
        S2CCommandOf::DeleteField(c) => Some(c.field_id),
        _ => None,
    }
}

/// Game object that a relay command refers to.
pub open spec fn s2c_object_id<B>(c: S2CCommandOf<B>) -> Option<GameObjectId> {
    match c {
        S2CCommandOf::Create(c) => Some(c.object_id),
        S2CCommandOf::Created(c) => Some(c.object_id),
        S2CCommandOf::SetLong(c) => Some(c.object_id),
        S2CCommandOf::SetDouble(c) => Some(c.object_id),
        S2CCommandOf::SetStructure(c) => Some(c.object_id),
        S2CCommandOf::Event(c) => Some(c.object_id),
        S2CCommandOf::Delete(c) => Some(c.object_id),
        S2CCommandOf::DeleteField(c) => Some(c.object_id),
    }
}

/// Field type that a relay command refers to.
pub open spec fn s2c_field_type<B>(c: S2CCommandOf<B>) -> Option<FieldType> {
    match c {
        S2CCommandOf::SetLong(_) => Some(FieldType::Long),
        S2CCommandOf::SetDouble(_) => Some(FieldType::Double),
        S2CCommandOf::SetStructure(_) => Some(FieldType::Structure),
        S2CCommandOf::Event(_) => Some(FieldType::Event),
        S2CCommandOf::DeleteField(c) => Some(c.field_type),
        _ => None,
    }
}

impl<B> C2SCommandOf<B> {
    pub fn get_field_id(&self) -> (r: Option<FieldId>)
        ensures
            r == c2s_field_id(*self),
    {
        match self {
            C2SCommandOf::SetLong(c) => Some(c.field_id),
            C2SCommandOf::IncrementLongValue(c) => Some(c.field_id),
            C2SCommandOf::CompareAndSetLong(c) => Some(c.field_id),
            C2SCommandOf::SetDouble(c) => Some(c.field_id),
            C2SCommandOf::IncrementDouble(c) => Some(c.field_id),
            C2SCommandOf::SetStructure(c) => Some(c.field_id),
            C2SCommandOf::CompareAndSetStructure(c) => Some(c.field_id),
            C2SCommandOf::Event(c) => Some(c.field_id),
            C2SCommandOf::TargetEvent(c) => Some(c.event.field_id),
            C2SCommandOf::DeleteField(c) => Some(c.field_id),
            _ => None,
        }
    }

    pub fn get_object_id(&self) -> (r: Option<GameObjectId>)
        ensures
            r == c2s_object_id(*self),
    {
        match self {
            C2SCommandOf::Create(c) => Some(c.object_id),
            C2SCommandOf::Created(c) => Some(c.object_id),
            C2SCommandOf::SetLong(c) => Some(c.object_id),
            C2SCommandOf::IncrementLongValue(c) => Some(c.object_id),
            C2SCommandOf::CompareAndSetLong(c) => Some(c.object_id),
            C2SCommandOf::SetDouble(c) => Some(c.object_id),
            C2SCommandOf::IncrementDouble(c) => Some(c.object_id),
            C2SCommandOf::SetStructure(c) => Some(c.object_id),
            C2SCommandOf::CompareAndSetStructure(c) => Some(c.object_id),
            C2SCommandOf::Event(c) => Some(c.object_id),
            C2SCommandOf::TargetEvent(c) => Some(c.event.object_id),
            C2SCommandOf::Delete(c) => Some(c.object_id),
            C2SCommandOf::DeleteField(c) => Some(c.object_id),
            C2SCommandOf::AttachToRoom => None,
            C2SCommandOf::DetachFromRoom => None,
        }
    }

    pub fn get_field_type(&self) -> (r: Option<FieldType>)
        ensures
            r == c2s_field_type(*self),
    {
        match self {
            C2SCommandOf::SetLong(_) => Some(FieldType::Long),
            C2SCommandOf::IncrementLongValue(_) => Some(FieldType::Long),
            C2SCommandOf::CompareAndSetLong(_) => Some(FieldType::Long),
            C2SCommandOf::SetDouble(_) => Some(FieldType::Double),
            C2SCommandOf::IncrementDouble(_) => Some(FieldType::Double),
            C2SCommandOf::SetStructure(_) => Some(FieldType::Structure),
            C2SCommandOf::CompareAndSetStructure(_) => Some(FieldType::Structure),
            C2SCommandOf::Event(_) => Some(FieldType::Event),
            C2SCommandOf::TargetEvent(_) => Some(FieldType::Event),
            C2SCommandOf::DeleteField(c) => Some(c.field_type),
            _ => None,
        }
    }
}

impl<B> S2CCommandOf<B> {
    pub fn get_field_id(&self) -> (r: Option<FieldId>)
        ensures
            r == s2c_field_id(*self),
    {
        match self {
            S2CCommandOf::SetLong(c) => Some(c.field_id),
            S2CCommandOf::SetDouble(c) => Some(c.field_id),
            S2CCommandOf::SetStructure(c) => Some(c.field_id),
            S2CCommandOf::Event(c) => Some(c.field_id),
            S2CCommandOf::DeleteField(c) => Some(c.field_id),
            _ => None,
        }
    }

    pub fn get_object_id(&self) -> (r: Option<GameObjectId>)
        ensures
            r == s2c_object_id(*self),
    {
        match self {
            S2CCommandOf::Create(c) => Some(c.object_id),
            S2CCommandOf::Created(c) => Some(c.object_id),
            S2CCommandOf::SetLong(c) => Some(c.object_id),
            S2CCommandOf::SetDouble(c) => Some(c.object_id),
            S2CCommandOf::SetStructure(c) => Some(c.object_id),
            S2CCommandOf::Event(c) => Some(c.object_id),
            S2CCommandOf::Delete(c) => Some(c.object_id),
            S2CCommandOf::DeleteField(c) => Some(c.object_id),
        }
    }

    pub fn get_field_type(&self) -> (r: Option<FieldType>)
        ensures
            r == s2c_field_type(*self),
    {
        match self {
            S2CCommandOf::SetLong(_) => Some(FieldType::Long),
            S2CCommandOf::SetDouble(_) => Some(FieldType::Double),
            S2CCommandOf::SetStructure(_) => Some(FieldType::Structure),
            S2CCommandOf::Event(_) => Some(FieldType::Event),
            S2CCommandOf::DeleteField(c) => Some(c.field_type),
            _ => None,
        }
    }
}

} // verus!
