//! Members of a room: their state, their queued commands, and the values to
//! restore when they leave.
use vstd::prelude::*;

use crate::commands::copy_bytes;
use crate::protocol::{CommandWithChannelType, SpecCommandWithChannelType};
use crate::room::maps::{has_key, inserted, lemma_inserted, lemma_swap_removed, lookup, swap_removed, unique_keys};
use crate::room::object::FnvBuildHasher;
use crate::room::template::UserTemplate;
use crate::types::{FieldId, GameObjectId, GameObjectOwner, RoomMemberId};

verus! {

/// The value a field takes back when the member that last changed it by a
/// compare-and-set leaves.
#[derive(Clone, Debug, PartialEq)]
pub enum ResetValueOf<B> {
    Long(i64),
    Structure(B),
}

pub type ResetValue = ResetValueOf<Vec<u8>>;

pub type SpecResetValue = ResetValueOf<Seq<u8>>;

impl View for ResetValueOf<Vec<u8>> {
    type V = SpecResetValue;

    open spec fn view(&self) -> SpecResetValue {
        match self {
            ResetValueOf::Long(v) => ResetValueOf::Long(*v),
            ResetValueOf::Structure(b) => ResetValueOf::Structure(b@),
        }
    }
}

impl ResetValueOf<Vec<u8>> {
    pub fn copy(&self) -> (r: Self)
        ensures
            r@ == self@,
    {
        match self {
            ResetValueOf::Long(v) => ResetValueOf::Long(*v),
            ResetValueOf::Structure(b) => ResetValueOf::Structure(copy_bytes(b)),
        }
    }
}

/// Largest number of values a member can have to restore.
pub const CLEANERS_CAPACITY: usize = 256;

/// A field of an object as a key of integers: the object's number, its
/// owner (0 for the room, 1 for a member, and the member) and the field.
pub type CleanerKey = (u32, u8, u16, u16);

pub open spec fn spec_cleaner_key(object_id: GameObjectId, field_id: FieldId) -> CleanerKey {
    match object_id.owner {
        GameObjectOwner::Room => (object_id.id, 0u8, 0u16, field_id),
        GameObjectOwner::User(m) => (object_id.id, 1u8, m, field_id),
    }
}

pub open spec fn spec_cleaner_object(key: CleanerKey) -> GameObjectId {
    GameObjectId {
        id: key.0,
        owner: if key.1 == 0 {
            GameObjectOwner::Room
        } else {
            GameObjectOwner::User(key.2)
        },
    }
}

pub fn cleaner_key(object_id: GameObjectId, field_id: FieldId) -> (r: CleanerKey)
    ensures
        r == spec_cleaner_key(object_id, field_id),
        spec_cleaner_object(r) == object_id,
        r.3 == field_id,
{
    match object_id.owner {
        GameObjectOwner::Room => (object_id.id, 0u8, 0u16, field_id),
        GameObjectOwner::User(m) => (object_id.id, 1u8, m, field_id),
    }
}

pub fn cleaner_object(key: CleanerKey) -> (r: GameObjectId)
    ensures
        r == spec_cleaner_object(key),
{
    GameObjectId { id: key.0, owner: if key.1 == 0 { GameObjectOwner::Room } else { GameObjectOwner::User(key.2) } }
}

pub type CleanerIndex = heapless::IndexMap<CleanerKey, ResetValue, FnvBuildHasher, CLEANERS_CAPACITY>;

/// The values a member has to restore, by field, in their order.
pub uninterp spec fn cleaner_entries(m: CleanerIndex) -> Seq<(CleanerKey, SpecResetValue)>;

/// `heapless::IndexMap::new`: an empty map.
#[verifier::external_body]
pub(crate) fn cleaners_new() -> (r: CleanerIndex)
    ensures
        cleaner_entries(r) == Seq::<(CleanerKey, SpecResetValue)>::empty(),
{
    CleanerIndex::new()
}

/// `heapless::IndexMap::insert`: an entry with the key takes the value in its
/// place; otherwise, below capacity, the entry goes last; at capacity the map
/// is unchanged and the pair comes back as the error.
#[verifier::external_body]
pub(crate) fn cleaners_insert(m: &mut CleanerIndex, k: CleanerKey, v: ResetValue) -> (r: Result<Option<ResetValue>, (CleanerKey, ResetValue)>)
    ensures
        cleaner_entries(*final(m)).len() <= CLEANERS_CAPACITY,
        (has_key(cleaner_entries(*old(m)), k) || cleaner_entries(*old(m)).len() < CLEANERS_CAPACITY) ==> {
            &&& r is Ok
            &&& cleaner_entries(*final(m)) == inserted(cleaner_entries(*old(m)), k, v@)
        },
        !(has_key(cleaner_entries(*old(m)), k) || cleaner_entries(*old(m)).len() < CLEANERS_CAPACITY) ==> {
            &&& r is Err
            &&& cleaner_entries(*final(m)) == cleaner_entries(*old(m))
        },
{
    m.insert(k, v)
}

/// `heapless::IndexMap::remove`: removes the entry with the key by moving the
/// last entry into its place, and gives its value.
#[verifier::external_body]
pub(crate) fn cleaners_remove(m: &mut CleanerIndex, k: &CleanerKey) -> (r: Option<ResetValue>)
    ensures
        cleaner_entries(*final(m)) == swap_removed(cleaner_entries(*old(m)), *k),
        match r {
            Some(v) => lookup(cleaner_entries(*old(m)), *k) == Some(v@),
            None => !has_key(cleaner_entries(*old(m)), *k),
        },
{
    m.remove(k)
}

/// `heapless::IndexMap::iter`: the entries in their order, copied out.
#[verifier::external_body]
pub(crate) fn cleaners_entries(m: &CleanerIndex) -> (r: Vec<(CleanerKey, ResetValue)>)
    ensures
        r@.len() == cleaner_entries(*m).len(),
        forall|i: int|
            0 <= i < r@.len() ==> (#[trigger] r@[i]).0 == cleaner_entries(*m)[i].0 && r@[i].1@
                == cleaner_entries(*m)[i].1,
{
    m.iter().map(|(k, v)| (*k, v.clone())).collect()
}

/// A member of a room.
#[derive(Debug)]
pub struct User {
    pub id: RoomMemberId,
    /// A frame from the member has arrived.
    pub connected: bool,
    /// The member takes part in the room and receives its commands.
    pub attached: bool,
    pub template: UserTemplate,
    pub compare_and_set_cleaners: CleanerIndex,
    pub out_commands: Vec<CommandWithChannelType>,
}

/// The model of queued commands.
pub open spec fn out_view(s: Seq<CommandWithChannelType>) -> Seq<SpecCommandWithChannelType> {
    s.map_values(|c: CommandWithChannelType| c@)
}

impl User {
    pub open spec fn cleaners(&self) -> Seq<(CleanerKey, SpecResetValue)> {
        cleaner_entries(self.compare_and_set_cleaners)
    }

    pub open spec fn out(&self) -> Seq<SpecCommandWithChannelType> {
        out_view(self.out_commands@)
    }

    /// Forget the value to restore for a field.
    pub fn remove_cleaner(&mut self, key: &CleanerKey)
        requires
            unique_keys(old(self).cleaners()),
            old(self).cleaners().len() <= CLEANERS_CAPACITY,
        ensures
            *final(self) == (User { compare_and_set_cleaners: final(self).compare_and_set_cleaners, ..*old(self) }),
            final(self).cleaners() == swap_removed(old(self).cleaners(), *key),
            unique_keys(final(self).cleaners()),
            final(self).cleaners().len() <= CLEANERS_CAPACITY,
    {
        proof {
            lemma_swap_removed(self.cleaners(), *key);
        }
        let _ = cleaners_remove(&mut self.compare_and_set_cleaners, key);
    }

    /// Keep a value to restore for a field, if there is room for it.
    pub fn insert_cleaner(&mut self, key: CleanerKey, value: ResetValue) -> (r: bool)
        requires
            unique_keys(old(self).cleaners()),
            old(self).cleaners().len() <= CLEANERS_CAPACITY,
        ensures
            r == (has_key(old(self).cleaners(), key) || old(self).cleaners().len() < CLEANERS_CAPACITY),
            *final(self) == (User { compare_and_set_cleaners: final(self).compare_and_set_cleaners, ..*old(self) }),
            r ==> final(self).cleaners() == inserted(old(self).cleaners(), key, value@),
            !r ==> final(self).cleaners() == old(self).cleaners(),
            unique_keys(final(self).cleaners()),
            final(self).cleaners().len() <= CLEANERS_CAPACITY,
    {
        proof {
            lemma_inserted(self.cleaners(), key, value@);
        }
        match cleaners_insert(&mut self.compare_and_set_cleaners, key, value) {
            Ok(_) => true,
            Err(_) => false,
        }
    }

    /// Take the queued commands, leaving none.
    pub fn take_out_commands(&mut self) -> (r: Vec<CommandWithChannelType>)
        ensures
            r == old(self).out_commands,
            final(self).out_commands@.len() == 0,
            *final(self) == (User { out_commands: final(self).out_commands, ..*old(self) }),
    {
        let mut taken: Vec<CommandWithChannelType> = Vec::new();
        std::mem::swap(&mut taken, &mut self.out_commands);
        taken
    }

    pub fn attach_to_room(&mut self)
        ensures
            *final(self) == (User { attached: true, ..*old(self) }),
    {
        self.attached = true;
    }

    pub fn detach_from_room(&mut self)
        ensures
            *final(self) == (User { attached: false, ..*old(self) }),
    {
        self.attached = false;
    }
}

} // verus!
