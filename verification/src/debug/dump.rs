//! A picture of a room for its administrators: its members and its objects
//! with their fields, as plain numbers.
use vstd::prelude::*;

use crate::room::field::{FieldValue, FieldValueOf, SpecFieldValue};
use crate::room::maps::lemma_index_of;
use crate::room::member::{cleaners_entries, CleanerKey, ResetValue, SpecResetValue, User};
use crate::room::object::{owner_index_entries, GameObject, GameObjectModel};
use crate::room::objects::{objects_get, objects_keys};
use crate::room::Room;
use crate::types::{FieldId, GameObjectOwner, RoomMemberId};

verus! {

broadcast use vstd::std_specs::vec::group_vec_axioms;

/// A room: its members and its objects, in their order.
#[derive(Debug)]
pub struct DumpResponse {
    pub users: Vec<DumpUser>,
    pub objects: Vec<DumpObject>,
}

/// An object: its identifier, owner, template and groups, and its fields by type.
#[derive(Debug)]
pub struct DumpObject {
    /// The member that owns the object; none for the room.
    pub owner_user_id: Option<u32>,
    pub id: u32,
    pub template: u32,
    pub groups: u64,
    pub created: bool,
    pub longs: Vec<(u32, i64)>,
    /// The double fields, each by the bit pattern of its number.
    pub floats: Vec<(u32, u64)>,
    pub compare_and_set_owners: Vec<(u32, u32)>,
    pub structures: Vec<(u32, Vec<u8>)>,
}

/// A member: its identifier, groups, whether it is attached, and the values
/// to restore when it leaves.
#[derive(Debug)]
pub struct DumpUser {
    pub id: u32,
    pub groups: u64,
    pub attached: bool,
    pub compare_and_set_cleaners: Vec<CompareAndSetsCleaners>,
}

/// A value to restore: the object (its owner `u32::MAX` for the room), the field and the value.
#[derive(Debug)]
pub struct CompareAndSetsCleaners {
    pub game_object_id: u32,
    pub game_object_owner_user: u32,
    pub field_id: u32,
    pub reset: ResetValue,
}

/// The long fields, in their order.
pub open spec fn longs_of(fields: Seq<(FieldId, SpecFieldValue)>) -> Seq<(u32, i64)>
    decreases fields.len(),
{
    if fields.len() == 0 {
        Seq::empty()
    } else {
        let rest = longs_of(fields.drop_last());
        match fields.last().1 {
            FieldValueOf::Long(v) => rest.push((fields.last().0 as u32, v)),
            _ => rest,
        }
    }
}

/// The double fields, in their order.
pub open spec fn floats_of(fields: Seq<(FieldId, SpecFieldValue)>) -> Seq<(u32, u64)>
    decreases fields.len(),
{
    if fields.len() == 0 {
        Seq::empty()
    } else {
        let rest = floats_of(fields.drop_last());
        match fields.last().1 {
            FieldValueOf::Double(v) => rest.push((fields.last().0 as u32, v)),
            _ => rest,
        }
    }
}

/// The structure fields, in their order.
pub open spec fn structures_of(fields: Seq<(FieldId, SpecFieldValue)>) -> Seq<(u32, Seq<u8>)>
    decreases fields.len(),
{
    if fields.len() == 0 {
        Seq::empty()
    } else {
        let rest = structures_of(fields.drop_last());
        match fields.last().1 {
            FieldValueOf::Structure(b) => rest.push((fields.last().0 as u32, b)),
            _ => rest,
        }
    }
}

pub open spec fn structures_view(s: Seq<(u32, Vec<u8>)>) -> Seq<(u32, Seq<u8>)> {
    s.map_values(|e: (u32, Vec<u8>)| (e.0, e.1@))
}

pub open spec fn owners_of(owners: Seq<(FieldId, RoomMemberId)>) -> Seq<(u32, u32)> {
    owners.map_values(|e: (FieldId, RoomMemberId)| (e.0 as u32, e.1 as u32))
}

/// The picture of an object.
pub open spec fn object_dumped(d: DumpObject, o: GameObjectModel) -> bool {
    &&& d.owner_user_id == match o.id.owner {
        GameObjectOwner::Room => None,
        GameObjectOwner::User(m) => Some(m as u32),
    }
    &&& d.id == o.id.id
    &&& d.template == o.template_id as u32
    &&& d.groups == o.access_groups.0
    &&& d.created == o.created
    &&& d.longs@ == longs_of(o.fields)
    &&& d.floats@ == floats_of(o.fields)
    &&& structures_view(d.structures@) == structures_of(o.fields)
    &&& d.compare_and_set_owners@ == owners_of(o.owners)
}

/// The picture of a value to restore.
pub open spec fn cleaner_dumped(d: CompareAndSetsCleaners, e: (CleanerKey, SpecResetValue)) -> bool {
    &&& d.game_object_id == e.0.0
    &&& d.game_object_owner_user == if e.0.1 == 0 { u32::MAX } else { e.0.2 as u32 }
    &&& d.field_id == e.0.3 as u32
    &&& d.reset@ == e.1
}

/// The picture of a member.
pub open spec fn user_dumped(d: DumpUser, u: User) -> bool {
    &&& d.id == u.id as u32
    &&& d.groups == u.template.groups.0
    &&& d.attached == u.attached
    &&& d.compare_and_set_cleaners@.len() == u.cleaners().len()
    &&& forall|i: int|
        0 <= i < u.cleaners().len() ==> cleaner_dumped(#[trigger] d.compare_and_set_cleaners@[i], u.cleaners()[i])
}

/// The picture of a room: each member, and each object in its order.
pub open spec fn room_dumped(d: DumpResponse, room: Room) -> bool {
    &&& d.users@.len() == room.members@.len()
    &&& forall|i: int| 0 <= i < room.members@.len() ==> user_dumped(#[trigger] d.users@[i], room.members@[i])
    &&& d.objects@.len() == room.object_model().len()
    &&& forall|i: int|
        0 <= i < room.object_model().len() ==> object_dumped(#[trigger] d.objects@[i], room.object_model()[i].1)
}

/// The fields of each type, in their order.
fn split_fields(fields: &Vec<(FieldId, FieldValue)>) -> (r: (Vec<(u32, i64)>, Vec<(u32, u64)>, Vec<(u32, Vec<u8>)>))
    ensures
        r.0@ == longs_of(fields_view(fields@)),
        r.1@ == floats_of(fields_view(fields@)),
        structures_view(r.2@) == structures_of(fields_view(fields@)),
{
    let ghost all = fields_view(fields@);
    let mut longs: Vec<(u32, i64)> = Vec::new();
    let mut floats: Vec<(u32, u64)> = Vec::new();
    let mut structures: Vec<(u32, Vec<u8>)> = Vec::new();
    let mut i: usize = 0;
    while i < fields.len()
        invariant
            i <= fields@.len(),
            all == fields_view(fields@),
            longs@ == longs_of(all.take(i as int)),
            floats@ == floats_of(all.take(i as int)),
            structures_view(structures@) == structures_of(all.take(i as int)),
        decreases fields@.len() - i,
    {
        let ghost before = structures@;
        let id = fields[i].0 as u32;
        match &fields[i].1 {
            FieldValueOf::Long(v) => longs.push((id, *v)),
            FieldValueOf::Double(v) => floats.push((id, *v)),
            FieldValueOf::Structure(b) => {
                structures.push((id, crate::commands::copy_bytes(b)));
                proof {
                    assert(structures_view(structures@) == structures_view(before).push((id, b@)));
                }
            },
        }
        proof {
            assert(all.take(i + 1).drop_last() == all.take(i as int));
            assert(all.take(i + 1).last() == all[i as int]);
        }
        i = i + 1;
    }
    proof {
        assert(all.take(fields@.len() as int) == all);
    }
    (longs, floats, structures)
}

pub open spec fn fields_view(s: Seq<(FieldId, FieldValue)>) -> Seq<(FieldId, SpecFieldValue)> {
    s.map_values(|e: (FieldId, FieldValue)| (e.0, e.1@))
}

impl DumpObject {
    /// The picture of an object.
    pub fn from(source: &GameObject) -> (r: DumpObject)
        ensures
            object_dumped(r, source@),
    {
        let fields = source.fields();
        proof {
            assert(fields_view(fields@) == source@.fields);
        }
        let (longs, floats, structures) = split_fields(&fields);
        let owners = owner_index_entries(&source.compare_and_set_owners);
        let mut compare_and_set_owners: Vec<(u32, u32)> = Vec::new();
        let mut i: usize = 0;
        while i < owners.len()
            invariant
                i <= owners@.len(),
                compare_and_set_owners@ == owners_of(owners@.take(i as int)),
            decreases owners@.len() - i,
        {
            compare_and_set_owners.push((owners[i].0 as u32, owners[i].1 as u32));
            proof {
                assert(owners@.take(i + 1) == owners@.take(i as int).push(owners@[i as int]));
            }
            i = i + 1;
        }
        proof {
            assert(owners@.take(owners@.len() as int) == owners@);
        }
        DumpObject {
            owner_user_id: match source.id.owner {
                GameObjectOwner::Room => None,
                GameObjectOwner::User(m) => Some(m as u32),
            },
            id: source.id.id,
            template: source.template_id as u32,
            groups: source.access_groups.0,
            created: source.created,
            longs,
            floats,
            compare_and_set_owners,
            structures,
        }
    }
}

impl DumpUser {
    /// The picture of a member.
    pub fn from(user: &User) -> (r: DumpUser)
        ensures
            user_dumped(r, *user),
    {
        let entries = cleaners_entries(&user.compare_and_set_cleaners);
        let mut cleaners: Vec<CompareAndSetsCleaners> = Vec::new();
        let mut i: usize = 0;
        while i < entries.len()
            invariant
                i <= entries@.len(),
                entries@.len() == user.cleaners().len(),
                forall|j: int|
                    0 <= j < entries@.len() ==> (#[trigger] entries@[j]).0 == user.cleaners()[j].0 && entries@[j].1@
                        == user.cleaners()[j].1,
                cleaners@.len() == i,
                forall|j: int| 0 <= j < i ==> cleaner_dumped(#[trigger] cleaners@[j], user.cleaners()[j]),
            decreases entries@.len() - i,
        {
            let key = entries[i].0;
            cleaners.push(
                CompareAndSetsCleaners {
                    game_object_id: key.0,
                    game_object_owner_user: if key.1 == 0 { u32::MAX } else { key.2 as u32 },
                    field_id: key.3 as u32,
                    reset: entries[i].1.copy(),
                },
            );
            i = i + 1;
        }
        DumpUser { id: user.id as u32, groups: user.template.groups.0, attached: user.attached, compare_and_set_cleaners: cleaners }
    }
}

impl DumpResponse {
    /// The picture of a room: each member, and each object in its order.
    pub fn from(room: &Room) -> (r: DumpResponse)
        requires
            room.wf(),
        ensures
            room_dumped(r, *room),
    {
        let mut users: Vec<DumpUser> = Vec::new();
        let mut i: usize = 0;
        while i < room.members.len()
            invariant
                i <= room.members@.len(),
                users@.len() == i,
                forall|j: int| 0 <= j < i ==> user_dumped(#[trigger] users@[j], room.members@[j]),
            decreases room.members@.len() - i,
        {
            users.push(DumpUser::from(&room.members[i]));
            i = i + 1;
        }
        let ids = objects_keys(&room.objects);
        let ghost model = room.object_model();
        let mut objects: Vec<DumpObject> = Vec::new();
        let mut k: usize = 0;
        while k < ids.len()
            invariant
                room.wf(),
                model == room.object_model(),
                ids@.len() == model.len(),
                forall|j: int| 0 <= j < ids@.len() ==> #[trigger] ids@[j] == model[j].0,
                k <= ids@.len(),
                objects@.len() == k,
                forall|j: int| 0 <= j < k ==> object_dumped(#[trigger] objects@[j], model[j].1),
            decreases ids@.len() - k,
        {
            proof {
                lemma_index_of(model, k as int);
            }
            match objects_get(&room.objects, &ids[k]) {
                Some(object) => objects.push(DumpObject::from(object)),
                None => {
                    proof {
                        assert(false);
                    }
                },
            }
            k = k + 1;
        }
        DumpResponse { users, objects }
    }
}

} // verus!
