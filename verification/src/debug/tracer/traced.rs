//! A network command collected by the tracer.
use vstd::prelude::*;

use crate::commands::{c2s_field_id, c2s_field_type, c2s_object_id, s2c_field_id, s2c_field_type, s2c_object_id};
use crate::commands::{C2SCommandOf, S2CCommandOf};
use crate::debug::tracer::filter::RuleCommandDirection;
use crate::types::{FieldId, FieldType, GameObjectId, GameObjectTemplateId, RoomMemberId};

verus! {

/// A command of either direction (client to relay, relay to client).
#[derive(Clone, Debug, PartialEq, Eq)]
pub enum UniDirectionCommandOf<B> {
    C2S(C2SCommandOf<B>),
    S2C(S2CCommandOf<B>),
}

pub type UniDirectionCommand = UniDirectionCommandOf<Vec<u8>>;

/// A collected command: when (nanoseconds since the Unix epoch), the template of
/// the object it refers to, the member, and the command itself.
#[derive(Clone, Debug, PartialEq, Eq)]
pub struct TracedCommandOf<B> {
    pub time: u64,
    pub template: Option<GameObjectTemplateId>,
    pub user: RoomMemberId,
    pub network_command: UniDirectionCommandOf<B>,
}

pub type TracedCommand = TracedCommandOf<Vec<u8>>;
pub type SpecTracedCommand = TracedCommandOf<Seq<u8>>;

pub open spec fn command_direction<B>(c: UniDirectionCommandOf<B>) -> RuleCommandDirection {
    match c {
        UniDirectionCommandOf::C2S(_) => RuleCommandDirection::C2S,
        UniDirectionCommandOf::S2C(_) => RuleCommandDirection::S2C,
    }
}

pub open spec fn command_field_id<B>(c: UniDirectionCommandOf<B>) -> Option<FieldId> {
    match c {
        UniDirectionCommandOf::C2S(c) => c2s_field_id(c),
        UniDirectionCommandOf::S2C(c) => s2c_field_id(c),
    }
}

pub open spec fn command_object_id<B>(c: UniDirectionCommandOf<B>) -> Option<GameObjectId> {
    match c {
        UniDirectionCommandOf::C2S(c) => c2s_object_id(c),
        UniDirectionCommandOf::S2C(c) => s2c_object_id(c),
    }
}

pub open spec fn command_field_type<B>(c: UniDirectionCommandOf<B>) -> Option<FieldType> {
    match c {
        UniDirectionCommandOf::C2S(c) => c2s_field_type(c),
        UniDirectionCommandOf::S2C(c) => s2c_field_type(c),
    }
}

impl<B> UniDirectionCommandOf<B> {
    pub fn get_direction(&self) -> (r: RuleCommandDirection)
        ensures
            r == command_direction(*self),
    {
        match self {
            UniDirectionCommandOf::C2S(_) => RuleCommandDirection::C2S,
            UniDirectionCommandOf::S2C(_) => RuleCommandDirection::S2C,
        }
    }

    pub fn get_field_type(&self) -> (r: Option<FieldType>)
        ensures
            r == command_field_type(*self),
    {
        match self {
            UniDirectionCommandOf::C2S(c) => c.get_field_type(),
            UniDirectionCommandOf::S2C(c) => c.get_field_type(),
        }
    }

    pub fn get_field_id(&self) -> (r: Option<FieldId>)
        ensures
            r == command_field_id(*self),
    {
        match self {
            UniDirectionCommandOf::C2S(c) => c.get_field_id(),
            UniDirectionCommandOf::S2C(c) => c.get_field_id(),
        }
    }

    pub fn get_object_id(&self) -> (r: Option<GameObjectId>)
        ensures
            r == command_object_id(*self),
    {
        match self {
            UniDirectionCommandOf::C2S(c) => c.get_object_id(),
            UniDirectionCommandOf::S2C(c) => c.get_object_id(),
        }
    }
}

impl View for UniDirectionCommandOf<Vec<u8>> {
    type V = UniDirectionCommandOf<Seq<u8>>;

    open spec fn view(&self) -> UniDirectionCommandOf<Seq<u8>> {
        match self {
            UniDirectionCommandOf::C2S(c) => UniDirectionCommandOf::C2S(c@),
            UniDirectionCommandOf::S2C(c) => UniDirectionCommandOf::S2C(c@),
        }
    }
}

impl View for TracedCommandOf<Vec<u8>> {
    type V = SpecTracedCommand;

    open spec fn view(&self) -> SpecTracedCommand {
        TracedCommandOf {
            time: self.time,
            template: self.template,
            user: self.user,
            network_command: self.network_command@,
        }
    }
}

impl UniDirectionCommandOf<Vec<u8>> {
    pub fn copy(&self) -> (r: Self)
        ensures
            r@ == self@,
    {
        match self {
            UniDirectionCommandOf::C2S(c) => UniDirectionCommandOf::C2S(c.copy()),
            UniDirectionCommandOf::S2C(c) => UniDirectionCommandOf::S2C(c.copy()),
        }
    }
}

impl TracedCommandOf<Vec<u8>> {
    pub fn copy(&self) -> (r: Self)
        ensures
            r@ == self@,
    {
        let network_command = match &self.network_command {
            UniDirectionCommandOf::C2S(c) => UniDirectionCommandOf::C2S(c.copy()),
            UniDirectionCommandOf::S2C(c) => UniDirectionCommandOf::S2C(c.copy()),
        };
        TracedCommandOf { time: self.time, template: self.template, user: self.user, network_command }
    }
}

} // verus!

verus! {

/// A command and its model have the same direction, field and object.
pub proof fn lemma_command_view_keys(c: UniDirectionCommand)
    ensures
        command_direction(c) == command_direction(c@),
        command_field_id(c) == command_field_id(c@),
        command_object_id(c) == command_object_id(c@),
        command_field_type(c) == command_field_type(c@),
{
}

} // verus!
