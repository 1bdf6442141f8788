//! Frames between a client and the relay: delivery channels and the commands
//! they carry.
use vstd::prelude::*;

use crate::commands::S2CCommandOf;
use crate::types::RoomMemberId;

verus! {

/// Group of a delivery channel: order and sequence hold within a group.
#[derive(Clone, Copy, Debug, PartialEq, Eq, Structural)]
pub struct ChannelGroup(pub u8);

/// Number of a command in a sequence.
#[derive(Clone, Copy, Debug, PartialEq, Eq, Structural)]
pub struct ChannelSequence(pub u32);

/// How a command is delivered.
#[derive(Clone, Copy, Debug, PartialEq, Eq, Structural)]
pub enum ChannelType {
    ReliableUnordered,
    ReliableOrdered(ChannelGroup),
    ReliableSequence(ChannelGroup),
    UnreliableUnordered,
    UnreliableOrdered(ChannelGroup),
    UnreliableSequence(ChannelGroup),
}

/// The channel of a received command, with its place in the sequence.
#[derive(Clone, Copy, Debug, PartialEq, Eq, Structural)]
pub enum Channel {
    ReliableUnordered,
    ReliableOrdered(ChannelGroup, ChannelSequence),
    ReliableSequence(ChannelGroup, ChannelSequence),
    UnreliableUnordered,
    UnreliableOrdered(ChannelGroup, ChannelSequence),
    UnreliableSequence(ChannelGroup, ChannelSequence),
}

/// The delivery of a channel, without the place in the sequence.
pub open spec fn spec_channel_type(c: Channel) -> ChannelType {
    match c {
        Channel::ReliableUnordered => ChannelType::ReliableUnordered,
        Channel::ReliableOrdered(g, _) => ChannelType::ReliableOrdered(g),
        Channel::ReliableSequence(g, _) => ChannelType::ReliableSequence(g),
        Channel::UnreliableUnordered => ChannelType::UnreliableUnordered,
        Channel::UnreliableOrdered(g, _) => ChannelType::UnreliableOrdered(g),
        Channel::UnreliableSequence(g, _) => ChannelType::UnreliableSequence(g),
    }
}

pub fn channel_type(c: &Channel) -> (r: ChannelType)
    ensures
        r == spec_channel_type(*c),
{
    match c {
        Channel::ReliableUnordered => ChannelType::ReliableUnordered,
        Channel::ReliableOrdered(g, _) => ChannelType::ReliableOrdered(*g),
        Channel::ReliableSequence(g, _) => ChannelType::ReliableSequence(*g),
        Channel::UnreliableUnordered => ChannelType::UnreliableUnordered,
        Channel::UnreliableOrdered(g, _) => ChannelType::UnreliableOrdered(*g),
        Channel::UnreliableSequence(g, _) => ChannelType::UnreliableSequence(*g),
    }
}

/// A command to a client, with the member whose command caused it (0 for the relay).
#[derive(Debug)]
pub struct S2CCommandWithCreatorOf<B> {
    pub creator: RoomMemberId,
    pub command: S2CCommandOf<B>,
}

/// A command of either direction.
#[derive(Debug)]
pub enum BothDirectionCommandOf<B> {
    S2CWithCreator(S2CCommandWithCreatorOf<B>),
    C2S(crate::commands::C2SCommandOf<B>),
}

/// A command with its delivery, as queued for a member.
#[derive(Debug)]
pub struct CommandWithChannelTypeOf<B> {
    pub channel_type: ChannelType,
    pub command: BothDirectionCommandOf<B>,
}

pub type CommandWithChannelType = CommandWithChannelTypeOf<Vec<u8>>;

pub type SpecCommandWithChannelType = CommandWithChannelTypeOf<Seq<u8>>;

pub type S2CCommandWithCreator = S2CCommandWithCreatorOf<Vec<u8>>;

impl View for CommandWithChannelTypeOf<Vec<u8>> {
    type V = SpecCommandWithChannelType;

    open spec fn view(&self) -> SpecCommandWithChannelType {
        CommandWithChannelTypeOf {
            channel_type: self.channel_type,
            command: match self.command {
                BothDirectionCommandOf::S2CWithCreator(c) => BothDirectionCommandOf::S2CWithCreator(
                    S2CCommandWithCreatorOf { creator: c.creator, command: c.command@ },
                ),
                BothDirectionCommandOf::C2S(c) => BothDirectionCommandOf::C2S(c@),
            },
        }
    }
}

/// A received command with its channel.
#[derive(Debug)]
pub struct CommandWithChannel {
    pub channel: Channel,
    pub both_direction_command: BothDirectionCommandOf<Vec<u8>>,
}

/// A member of a room, and the room.
#[derive(Clone, Copy, Debug, PartialEq, Eq, Structural)]
pub struct MemberAndRoomId {
    pub member_id: RoomMemberId,
    pub room_id: crate::types::RoomId,
}

} // verus!
