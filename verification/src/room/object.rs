//! Game objects: the fields of an object and the commands that create it on a client.
use vstd::prelude::*;

use crate::commands::{CreateGameObjectCommand, CreatedGameObjectCommand, S2CCommandOf};
use crate::room::field::{set_command, value_type, FieldValue, FieldValueOf, SpecFieldValue};
use crate::room::maps::{
    has_key, inserted, lemma_inserted, lemma_swap_removed, lookup, swap_removed, unique_keys,
};
use crate::types::{AccessGroups, Field, FieldId, GameObjectId, GameObjectTemplateId, RoomMemberId};

verus! {

#[verifier::external_type_specification]
#[verifier::external_body]
#[verifier::reject_recursive_types(T)]
pub struct ExHeaplessVec<T, const N: usize>(heapless::Vec<T, N>);

/// Largest number of fields of one type in an object.
pub const MAX_FIELD_COUNT: usize = 64;

/// Largest number of fields in an object: `MAX_FIELD_COUNT` fields of each of
/// the three value types.
pub const FIELD_CAPACITY: usize = 192;

/// Capacity of the map that holds the fields of an object: the power of two
/// (as the map requires) at or above `FIELD_CAPACITY`.
pub const FIELD_INDEX_CAPACITY: usize = 256;

/// Capacity of the commands that create one object on a client.
pub const CREATE_COMMANDS_CAPACITY: usize = 255;

pub type FnvBuildHasher = hash32::BuildHasherDefault<hash32::FnvHasher>;

pub type FieldIndex = heapless::IndexMap<FieldId, FieldValue, FnvBuildHasher, FIELD_INDEX_CAPACITY>;

pub type OwnerIndex = heapless::IndexMap<FieldId, RoomMemberId, FnvBuildHasher, MAX_FIELD_COUNT>;

/// The entries of a field index, in their order.
pub uninterp spec fn field_entries(m: FieldIndex) -> Seq<(FieldId, SpecFieldValue)>;

/// The entries of an index of compare-and-set owners, in their order.
pub uninterp spec fn owner_entries(m: OwnerIndex) -> Seq<(FieldId, RoomMemberId)>;

/// `heapless::IndexMap::new`: an empty map.
#[verifier::external_body]
fn field_index_new() -> (r: FieldIndex)
    ensures
        field_entries(r) == Seq::<(FieldId, SpecFieldValue)>::empty(),
{
    FieldIndex::new()
}

/// `heapless::IndexMap::get`: the value of the entry with the key, if any.
#[verifier::external_body]
fn field_index_get<'a>(m: &'a FieldIndex, k: &FieldId) -> (r: Option<&'a FieldValue>)
    ensures
        match r {
            Some(v) => lookup(field_entries(*m), *k) == Some(v@),
            None => lookup(field_entries(*m), *k) is None,
        },
{
    m.get(k)
}

/// `heapless::IndexMap::insert`: an entry with the key takes the value in its
/// place (the old value comes back); otherwise, below capacity, the entry goes
/// last; at capacity the map is unchanged and the pair comes back as the error.
#[verifier::external_body]
fn field_index_insert(m: &mut FieldIndex, k: FieldId, v: FieldValue) -> (r: Result<Option<FieldValue>, (FieldId, FieldValue)>)
    ensures
        field_entries(*final(m)).len() <= FIELD_INDEX_CAPACITY,
        (has_key(field_entries(*old(m)), k) || field_entries(*old(m)).len() < FIELD_INDEX_CAPACITY) ==> {
            &&& r is Ok
            &&& field_entries(*final(m)) == inserted(field_entries(*old(m)), k, v@)
            &&& match r->Ok_0 {
                Some(o) => lookup(field_entries(*old(m)), k) == Some(o@),
                None => !has_key(field_entries(*old(m)), k),
            }
        },
        !(has_key(field_entries(*old(m)), k) || field_entries(*old(m)).len() < FIELD_INDEX_CAPACITY) ==> {
            &&& r is Err
            &&& field_entries(*final(m)) == field_entries(*old(m))
        },
{
    m.insert(k, v)
}

/// `heapless::IndexMap::len`: the number of entries.
#[verifier::external_body]
fn field_index_len(m: &FieldIndex) -> (r: usize)
    ensures
        r == field_entries(*m).len(),
{
    m.len()
}

/// `heapless::IndexMap::remove`: removes the entry with the key by moving the
/// last entry into its place, and gives its value.
#[verifier::external_body]
fn field_index_remove(m: &mut FieldIndex, k: &FieldId) -> (r: Option<FieldValue>)
    ensures
        field_entries(*final(m)) == swap_removed(field_entries(*old(m)), *k),
        match r {
            Some(v) => lookup(field_entries(*old(m)), *k) == Some(v@),
            None => !has_key(field_entries(*old(m)), *k),
        },
{
    m.remove(k)
}

/// `heapless::IndexMap::iter`: the entries in their order, copied out.
#[verifier::external_body]
fn field_index_entries(m: &FieldIndex) -> (r: Vec<(FieldId, FieldValue)>)
    ensures
        r@.len() == field_entries(*m).len(),
        forall|i: int|
            0 <= i < r@.len() ==> (#[trigger] r@[i]).0 == field_entries(*m)[i].0 && r@[i].1@
                == field_entries(*m)[i].1,
{
    m.iter().map(|(k, v)| (*k, v.clone())).collect()
}

/// `heapless::IndexMap::new`: an empty map.
#[verifier::external_body]
fn owner_index_new() -> (r: OwnerIndex)
    ensures
        owner_entries(r) == Seq::<(FieldId, RoomMemberId)>::empty(),
{
    OwnerIndex::new()
}

/// `heapless::IndexMap::iter`: the entries in their order, copied out.
#[verifier::external_body]
pub(crate) fn owner_index_entries(m: &OwnerIndex) -> (r: Vec<(FieldId, RoomMemberId)>)
    ensures
        r@ == owner_entries(*m),
{
    m.iter().map(|(k, v)| (*k, *v)).collect()
}

/// `heapless::IndexMap::get`: the value of the entry with the key, if any.
#[verifier::external_body]
fn owner_index_get<'a>(m: &'a OwnerIndex, k: &FieldId) -> (r: Option<&'a RoomMemberId>)
    ensures
        match r {
            Some(v) => lookup(owner_entries(*m), *k) == Some(*v),
            None => lookup(owner_entries(*m), *k) is None,
        },
{
    m.get(k)
}

/// `heapless::IndexMap::insert`, as for the field index.
#[verifier::external_body]
fn owner_index_insert(m: &mut OwnerIndex, k: FieldId, v: RoomMemberId) -> (r: Result<Option<RoomMemberId>, (FieldId, RoomMemberId)>)
    ensures
        owner_entries(*final(m)).len() <= MAX_FIELD_COUNT,
        (has_key(owner_entries(*old(m)), k) || owner_entries(*old(m)).len() < MAX_FIELD_COUNT) ==> {
            &&& r is Ok
            &&& owner_entries(*final(m)) == inserted(owner_entries(*old(m)), k, v)
            &&& r->Ok_0 == lookup(owner_entries(*old(m)), k)
        },
        !(has_key(owner_entries(*old(m)), k) || owner_entries(*old(m)).len() < MAX_FIELD_COUNT) ==> {
            &&& r is Err
            &&& owner_entries(*final(m)) == owner_entries(*old(m))
        },
{
    m.insert(k, v)
}

/// A game object: a logical group of game data.
#[derive(Debug)]
pub struct GameObject {
    pub id: GameObjectId,
    pub template_id: GameObjectTemplateId,
    pub access_groups: AccessGroups,
    /// The object is fully created.
    pub created: bool,
    pub fields: FieldIndex,
    pub compare_and_set_owners: OwnerIndex,
}

/// Model of a game object.
pub struct GameObjectModel {
    pub id: GameObjectId,
    pub template_id: GameObjectTemplateId,
    pub access_groups: AccessGroups,
    pub created: bool,
    pub fields: Seq<(FieldId, SpecFieldValue)>,
    pub owners: Seq<(FieldId, RoomMemberId)>,
}

impl View for GameObject {
    type V = GameObjectModel;

    open spec fn view(&self) -> GameObjectModel {
        GameObjectModel {
            id: self.id,
            template_id: self.template_id,
            access_groups: self.access_groups,
            created: self.created,
            fields: field_entries(self.fields),
            owners: owner_entries(self.compare_and_set_owners),
        }
    }
}

/// Error of a change to a game object.
#[derive(Debug)]
pub enum GameObjectError {
    FieldCountOverflow(GameObjectId, GameObjectTemplateId),
}

/// A command to a client, with the field it changes (if any).
#[derive(Debug)]
pub struct S2CCommandWithFieldInfoOf<B> {
    pub field: Option<Field>,
    pub command: S2CCommandOf<B>,
}

pub type S2CCommandWithFieldInfo = S2CCommandWithFieldInfoOf<Vec<u8>>;

pub type SpecS2CCommandWithFieldInfo = S2CCommandWithFieldInfoOf<Seq<u8>>;

impl View for S2CCommandWithFieldInfoOf<Vec<u8>> {
    type V = SpecS2CCommandWithFieldInfo;

    open spec fn view(&self) -> SpecS2CCommandWithFieldInfo {
        S2CCommandWithFieldInfoOf { field: self.field, command: self.command@ }
    }
}

impl S2CCommandWithFieldInfoOf<Vec<u8>> {
    pub fn copy(&self) -> (r: Self)
        ensures
            r@ == self@,
    {
        S2CCommandWithFieldInfoOf { field: self.field, command: self.command.copy() }
    }
}

pub type CreateCommandsCollector = heapless::Vec<S2CCommandWithFieldInfo, CREATE_COMMANDS_CAPACITY>;

/// The commands in a collector, in their order.
pub uninterp spec fn collected_commands(v: CreateCommandsCollector) -> Seq<SpecS2CCommandWithFieldInfo>;

/// `heapless::Vec::new`: an empty collector.
#[verifier::external_body]
pub(crate) fn collector_new() -> (r: CreateCommandsCollector)
    ensures
        collected_commands(r) == Seq::<SpecS2CCommandWithFieldInfo>::empty(),
{
    CreateCommandsCollector::new()
}

/// `heapless::Vec::push`: below capacity the command goes last; at capacity
/// the collector is unchanged and the command comes back as the error.
#[verifier::external_body]
fn collector_push(v: &mut CreateCommandsCollector, item: S2CCommandWithFieldInfo) -> (r: Result<(), S2CCommandWithFieldInfo>)
    ensures
        collected_commands(*final(v)).len() <= CREATE_COMMANDS_CAPACITY,
        collected_commands(*old(v)).len() < CREATE_COMMANDS_CAPACITY ==> {
            &&& r is Ok
            &&& collected_commands(*final(v)) == collected_commands(*old(v)).push(item@)
        },
        collected_commands(*old(v)).len() >= CREATE_COMMANDS_CAPACITY ==> {
            &&& r is Err
            &&& collected_commands(*final(v)) == collected_commands(*old(v))
        },
{
    v.push(item)
}

/// `heapless::Vec::len`; a collector never holds more than its capacity.
#[verifier::external_body]
pub(crate) fn collector_len(v: &CreateCommandsCollector) -> (r: usize)
    ensures
        r == collected_commands(*v).len(),
        r <= CREATE_COMMANDS_CAPACITY,
{
    v.len()
}

/// Indexing a `heapless::Vec`.
#[verifier::external_body]
pub(crate) fn collector_get(v: &CreateCommandsCollector, i: usize) -> (r: &S2CCommandWithFieldInfo)
    requires
        i < collected_commands(*v).len(),
    ensures
        r@ == collected_commands(*v)[i as int],
{
    &v[i]
}

/// The commands of a collector, copied out in order.
pub(crate) fn collector_to_vec(c: &CreateCommandsCollector) -> (r: Vec<S2CCommandWithFieldInfo>)
    ensures
        r@.len() == collected_commands(*c).len(),
        forall|i: int| 0 <= i < r@.len() ==> (#[trigger] r@[i])@ == collected_commands(*c)[i],
{
    let n = collector_len(c);
    let mut r: Vec<S2CCommandWithFieldInfo> = Vec::new();
    let mut i: usize = 0;
    while i < n
        invariant
            n == collected_commands(*c).len(),
            i <= n,
            r@.len() == i,
            forall|j: int| 0 <= j < i ==> (#[trigger] r@[j])@ == collected_commands(*c)[j],
        decreases n - i,
    {
        r.push(collector_get(c, i).copy());
        i = i + 1;
    }
    r
}

/// The command that sets a field, with the field it sets.
pub open spec fn field_command(id: GameObjectId, e: (FieldId, SpecFieldValue)) -> SpecS2CCommandWithFieldInfo {
    S2CCommandWithFieldInfoOf {
        field: Some(Field { id: e.0, field_type: value_type(e.1) }),
        command: set_command(e.1, id, e.0),
    }
}

/// The commands that set the fields, in the order of the fields.
pub open spec fn field_commands(id: GameObjectId, fields: Seq<(FieldId, SpecFieldValue)>) -> Seq<SpecS2CCommandWithFieldInfo> {
    fields.map_values(|e: (FieldId, SpecFieldValue)| field_command(id, e))
}

/// The commands that create an object on a client: the creation, its fields,
/// and, for a fully created object, the end of its creation.
pub open spec fn create_commands(o: GameObjectModel) -> Seq<SpecS2CCommandWithFieldInfo> {
    let create = S2CCommandWithFieldInfoOf {
        field: None,
        command: S2CCommandOf::Create(
            CreateGameObjectCommand { object_id: o.id, template: o.template_id, access_groups: o.access_groups },
        ),
    };
    let created = S2CCommandWithFieldInfoOf {
        field: None,
        command: S2CCommandOf::Created(CreatedGameObjectCommand { object_id: o.id }),
    };
    seq![create] + field_commands(o.id, o.fields) + if o.created {
        seq![created]
    } else {
        Seq::empty()
    }
}

/// Commands appended to a collector, up to its capacity.
pub open spec fn appended_within_capacity(
    before: Seq<SpecS2CCommandWithFieldInfo>,
    added: Seq<SpecS2CCommandWithFieldInfo>,
) -> Seq<SpecS2CCommandWithFieldInfo> {
    let all = before + added;
    if all.len() <= CREATE_COMMANDS_CAPACITY {
        all
    } else {
        all.take(CREATE_COMMANDS_CAPACITY as int)
    }
}

/// The field holds a value of the type, or nothing.
pub open spec fn holds_long_or_none(fields: Seq<(FieldId, SpecFieldValue)>, field_id: FieldId) -> bool {
    lookup(fields, field_id) matches Some(v) ==> v is Long
}

pub open spec fn holds_double_or_none(fields: Seq<(FieldId, SpecFieldValue)>, field_id: FieldId) -> bool {
    lookup(fields, field_id) matches Some(v) ==> v is Double
}

pub open spec fn holds_structure_or_none(fields: Seq<(FieldId, SpecFieldValue)>, field_id: FieldId) -> bool {
    lookup(fields, field_id) matches Some(v) ==> v is Structure
}

/// Fields and compare-and-set owners have distinct keys, within capacity.
pub open spec fn object_wf(o: GameObjectModel) -> bool {
    &&& unique_keys(o.fields)
    &&& o.fields.len() <= FIELD_CAPACITY
    &&& unique_keys(o.owners)
    &&& o.owners.len() <= MAX_FIELD_COUNT
}

/// A field reads what was last written to it, and the other fields keep
/// their values.
pub proof fn law_field_read_after_write(o: GameObjectModel, k: FieldId, v: SpecFieldValue)
    requires
        object_wf(o),
    ensures
        lookup(inserted(o.fields, k, v), k) == Some(v),
        forall|k2: FieldId| k2 != k ==> #[trigger] lookup(inserted(o.fields, k, v), k2) == lookup(o.fields, k2),
{
    lemma_inserted(o.fields, k, v);
}

impl GameObject {
    /// Fields and compare-and-set owners have distinct keys, within capacity.
    pub open spec fn wf(&self) -> bool {
        object_wf(self@)
    }

    pub fn new(id: GameObjectId, template_id: GameObjectTemplateId, access_groups: AccessGroups, created: bool) -> (r: Self)
        ensures
            r.wf(),
            r@.id == id,
            r@.template_id == template_id,
            r@.access_groups == access_groups,
            r@.created == created,
            r@.fields == Seq::<(FieldId, SpecFieldValue)>::empty(),
            r@.owners == Seq::<(FieldId, RoomMemberId)>::empty(),
    {
        GameObject {
            id,
            template_id,
            access_groups,
            created,
            fields: field_index_new(),
            compare_and_set_owners: owner_index_new(),
        }
    }

    /// Remove a field (of whatever type).
    pub fn delete_field(&mut self, field_id: FieldId)
        requires
            old(self).wf(),
        ensures
            final(self).wf(),
            final(self)@.fields == swap_removed(old(self)@.fields, field_id),
            lookup(final(self)@.fields, field_id) is None,
            forall|k: FieldId| k != field_id ==> lookup(final(self)@.fields, k) == lookup(old(self)@.fields, k),
            final(self)@.owners == old(self)@.owners,
            final(self).id == old(self).id,
            final(self).template_id == old(self).template_id,
            final(self).access_groups == old(self).access_groups,
            final(self).created == old(self).created,
    {
        proof {
            lemma_swap_removed(self@.fields, field_id);
        }
        let _ = field_index_remove(&mut self.fields, &field_id);
    }

    /// The fields with their values, in their order.
    pub fn fields(&self) -> (r: Vec<(FieldId, FieldValue)>)
        ensures
            r@.len() == self@.fields.len(),
            forall|i: int| 0 <= i < r@.len() ==> (#[trigger] r@[i]).0 == self@.fields[i].0 && r@[i].1@ == self@.fields[i].1,
    {
        field_index_entries(&self.fields)
    }

    pub fn field(&self, field_id: &FieldId) -> (r: Option<&FieldValue>)
        ensures
            match r {
                Some(v) => lookup(self@.fields, *field_id) == Some(v@),
                None => lookup(self@.fields, *field_id) is None,
            },
    {
        field_index_get(&self.fields, field_id)
    }

    /// Set a field: it keeps its place if it exists; a new field goes last,
    /// unless the object already has as many fields as it can hold.
    pub fn set_field(&mut self, field_id: FieldId, value: &FieldValue) -> (r: Result<(), GameObjectError>)
        requires
            old(self).wf(),
        ensures
            final(self).wf(),
            r is Ok <==> (has_key(old(self)@.fields, field_id) || old(self)@.fields.len() < FIELD_CAPACITY),
            r is Ok ==> final(self)@.fields == inserted(old(self)@.fields, field_id, value@),
            r is Err ==> final(self)@.fields == old(self)@.fields,
            r is Err ==> r == Err::<(), GameObjectError>(GameObjectError::FieldCountOverflow(old(self).id, old(self).template_id)),
            final(self)@.owners == old(self)@.owners,
            final(self).id == old(self).id,
            final(self).template_id == old(self).template_id,
            final(self).access_groups == old(self).access_groups,
            final(self).created == old(self).created,
    {
        proof {
            lemma_inserted(self@.fields, field_id, value@);
        }
        if field_index_get(&self.fields, &field_id).is_none() && field_index_len(&self.fields) >= FIELD_CAPACITY {
            return Err(GameObjectError::FieldCountOverflow(self.id, self.template_id));
        }
        match field_index_insert(&mut self.fields, field_id, value.copy()) {
            Ok(_) => Ok(()),
            Err(_) => Err(GameObjectError::FieldCountOverflow(self.id, self.template_id)),
        }
    }

    /// The value of a long field. The field must hold a long, if anything.
    pub fn get_long(&self, field_id: &FieldId) -> (r: Option<&i64>)
        requires
            holds_long_or_none(self@.fields, *field_id),
        ensures
            match r {
                Some(v) => lookup(self@.fields, *field_id) == Some(FieldValueOf::<Seq<u8>>::Long(*v)),
                None => lookup(self@.fields, *field_id) is None,
            },
    {
        match self.field(field_id) {
            None => None,
            Some(FieldValueOf::Long(v)) => Some(v),
            Some(_) => {
                proof {
                    assert(false);
                }
                None
            },
        }
    }

    pub fn set_long(&mut self, field_id: FieldId, value: i64) -> (r: Result<(), GameObjectError>)
        requires
            old(self).wf(),
        ensures
            final(self).wf(),
            r is Ok <==> (has_key(old(self)@.fields, field_id) || old(self)@.fields.len() < FIELD_CAPACITY),
            r is Ok ==> final(self)@.fields == inserted(old(self)@.fields, field_id, FieldValueOf::Long(value)),
            r is Err ==> final(self)@.fields == old(self)@.fields,
            r is Err ==> r == Err::<(), GameObjectError>(GameObjectError::FieldCountOverflow(old(self).id, old(self).template_id)),
            final(self)@.owners == old(self)@.owners,
            final(self).id == old(self).id,
            final(self).template_id == old(self).template_id,
            final(self).access_groups == old(self).access_groups,
            final(self).created == old(self).created,
    {
        self.set_field(field_id, &FieldValueOf::Long(value))
    }

    /// The bit pattern of a double field. The field must hold a double, if anything.
    pub fn get_double(&self, field_id: &FieldId) -> (r: Option<&u64>)
        requires
            holds_double_or_none(self@.fields, *field_id),
        ensures
            match r {
                Some(v) => lookup(self@.fields, *field_id) == Some(FieldValueOf::<Seq<u8>>::Double(*v)),
                None => lookup(self@.fields, *field_id) is None,
            },
    {
        match self.field(field_id) {
            None => None,
            Some(FieldValueOf::Double(v)) => Some(v),
            Some(_) => {
                proof {
                    assert(false);
                }
                None
            },
        }
    }

    /// Set a double field to the number with the bit pattern `value`.
    pub fn set_double(&mut self, field_id: FieldId, value: u64) -> (r: Result<(), GameObjectError>)
        requires
            old(self).wf(),
        ensures
            final(self).wf(),
            r is Ok <==> (has_key(old(self)@.fields, field_id) || old(self)@.fields.len() < FIELD_CAPACITY),
            r is Ok ==> final(self)@.fields == inserted(old(self)@.fields, field_id, FieldValueOf::Double(value)),
            r is Err ==> final(self)@.fields == old(self)@.fields,
            r is Err ==> r == Err::<(), GameObjectError>(GameObjectError::FieldCountOverflow(old(self).id, old(self).template_id)),
            final(self)@.owners == old(self)@.owners,
            final(self).id == old(self).id,
            final(self).template_id == old(self).template_id,
            final(self).access_groups == old(self).access_groups,
            final(self).created == old(self).created,
    {
        self.set_field(field_id, &FieldValueOf::Double(value))
    }

    /// The bytes of a structure field. The field must hold a structure, if anything.
    pub fn get_structure(&self, field_id: &FieldId) -> (r: Option<&Vec<u8>>)
        requires
            holds_structure_or_none(self@.fields, *field_id),
        ensures
            match r {
                Some(v) => lookup(self@.fields, *field_id) == Some(FieldValueOf::<Seq<u8>>::Structure(v@)),
                None => lookup(self@.fields, *field_id) is None,
            },
    {
        match self.field(field_id) {
            None => None,
            Some(FieldValueOf::Structure(v)) => Some(v),
            Some(_) => {
                proof {
                    assert(false);
                }
                None
            },
        }
    }

    /// Set a structure field. The field must hold a structure, if anything.
    pub fn set_structure(&mut self, field_id: FieldId, structure: &[u8]) -> (r: Result<(), GameObjectError>)
        requires
            old(self).wf(),
            holds_structure_or_none(old(self)@.fields, field_id),
        ensures
            final(self).wf(),
            r is Ok <==> (has_key(old(self)@.fields, field_id) || old(self)@.fields.len() < FIELD_CAPACITY),
            r is Ok ==> final(self)@.fields == inserted(old(self)@.fields, field_id, FieldValueOf::Structure(structure@)),
            r is Err ==> final(self)@.fields == old(self)@.fields,
            r is Err ==> r == Err::<(), GameObjectError>(GameObjectError::FieldCountOverflow(old(self).id, old(self).template_id)),
            final(self)@.owners == old(self)@.owners,
            final(self).id == old(self).id,
            final(self).template_id == old(self).template_id,
            final(self).access_groups == old(self).access_groups,
            final(self).created == old(self).created,
    {
        let mut bytes: Vec<u8> = Vec::new();
        let mut i: usize = 0;
        while i < structure.len()
            invariant
                i <= structure@.len(),
                bytes@ == structure@.subrange(0, i as int),
            decreases structure@.len() - i,
        {
            bytes.push(structure[i]);
            i = i + 1;
        }
        proof {
            assert(bytes@ == structure@);
        }
        self.set_field(field_id, &FieldValueOf::Structure(bytes))
    }

    /// The members whose compare-and-set changes wait to be reset, by field.
    pub fn get_compare_and_set_owners(&self) -> (r: &OwnerIndex)
        ensures
            *r == self.compare_and_set_owners,
            owner_entries(*r) == self@.owners,
    {
        &self.compare_and_set_owners
    }

    pub fn get_compare_and_set_owner(&self, field_id: &FieldId) -> (r: Option<&RoomMemberId>)
        ensures
            match r {
                Some(v) => lookup(self@.owners, *field_id) == Some(*v),
                None => lookup(self@.owners, *field_id) is None,
            },
    {
        owner_index_get(&self.compare_and_set_owners, field_id)
    }

    pub fn set_compare_and_set_owner(&mut self, field_id: FieldId, value: RoomMemberId) -> (r: Result<(), GameObjectError>)
        requires
            old(self).wf(),
        ensures
            final(self).wf(),
            r is Ok <==> (has_key(old(self)@.owners, field_id) || old(self)@.owners.len() < MAX_FIELD_COUNT),
            r is Ok ==> final(self)@.owners == inserted(old(self)@.owners, field_id, value),
            r is Err ==> final(self)@.owners == old(self)@.owners,
            r is Err ==> r == Err::<(), GameObjectError>(GameObjectError::FieldCountOverflow(old(self).id, old(self).template_id)),
            final(self)@.fields == old(self)@.fields,
            final(self).id == old(self).id,
            final(self).template_id == old(self).template_id,
            final(self).access_groups == old(self).access_groups,
            final(self).created == old(self).created,
    {
        proof {
            lemma_inserted(self@.owners, field_id, value);
        }
        match owner_index_insert(&mut self.compare_and_set_owners, field_id, value) {
            Ok(_) => Ok(()),
            Err(_) => Err(GameObjectError::FieldCountOverflow(self.id, self.template_id)),
        }
    }

    /// Append the commands that create this object on a client: as many as the
    /// collector takes, in order.
    pub fn collect_create_commands(&self, commands: &mut CreateCommandsCollector)
        ensures
            collected_commands(*final(commands)) == appended_within_capacity(
                collected_commands(*old(commands)),
                create_commands(self@),
            ),
    {
        let ghost before = collected_commands(*commands);
        let ghost fc = field_commands(self.id, self@.fields);
        let _ = collector_len(commands);
        proof {
            lemma_appended_empty(before);
        }
        let create = S2CCommandWithFieldInfoOf {
            field: None,
            command: S2CCommandOf::Create(
                CreateGameObjectCommand { object_id: self.id, template: self.template_id, access_groups: self.access_groups },
            ),
        };
        let ghost create_view = create@;
        push_within_capacity(commands, create, Ghost(before), Ghost(Seq::empty()));
        let fields = self.fields();
        let mut i: usize = 0;
        while i < fields.len()
            invariant
                i <= fields@.len(),
                fields@.len() == self@.fields.len(),
                forall|j: int| 0 <= j < fields@.len() ==> (#[trigger] fields@[j]).0 == self@.fields[j].0 && fields@[j].1@ == self@.fields[j].1,
                fc == field_commands(self.id, self@.fields),
                collected_commands(*commands) == appended_within_capacity(before, seq![create_view] + fc.take(i as int)),
                before.len() <= CREATE_COMMANDS_CAPACITY,
            decreases fields@.len() - i,
        {
            let (field_id, value) = &fields[i];
            let command = S2CCommandWithFieldInfoOf {
                field: Some(Field { id: *field_id, field_type: value.field_type() }),
                command: value.s2c_set_command(self.id, *field_id),
            };
            proof {
                assert(command@ == fc[i as int]);
                assert(seq![create_view] + fc.take(i + 1) == (seq![create_view] + fc.take(i as int)).push(fc[i as int]));
            }
            push_within_capacity(commands, command, Ghost(before), Ghost(seq![create_view] + fc.take(i as int)));
            i = i + 1;
        }
        proof {
            assert(fc.take(fields@.len() as int) == fc);
        }
        if self.created {
            let created = S2CCommandWithFieldInfoOf {
                field: None,
                command: S2CCommandOf::Created(CreatedGameObjectCommand { object_id: self.id }),
            };
            proof {
                assert(create_commands(self@) == (seq![create_view] + fc).push(created@));
            }
            push_within_capacity(commands, created, Ghost(before), Ghost(seq![create_view] + fc));
        } else {
            proof {
                assert(create_commands(self@) == seq![create_view] + fc);
            }
        }
    }
}

/// Push a command if the collector has room: commands appended so far stay
/// appended within capacity.
fn push_within_capacity(
    commands: &mut CreateCommandsCollector,
    item: S2CCommandWithFieldInfo,
    Ghost(before): Ghost<Seq<SpecS2CCommandWithFieldInfo>>,
    Ghost(added): Ghost<Seq<SpecS2CCommandWithFieldInfo>>,
)
    requires
        before.len() <= CREATE_COMMANDS_CAPACITY,
        collected_commands(*old(commands)) == appended_within_capacity(before, added),
    ensures
        collected_commands(*final(commands)) == appended_within_capacity(before, added.push(item@)),
{
    let ghost item_view = item@;
    let _ = collector_push(commands, item);
    proof {
        let all = before + added;
        assert(before + added.push(item_view) == all.push(item_view));
        if all.len() > CREATE_COMMANDS_CAPACITY {
            assert(all.push(item_view).take(CREATE_COMMANDS_CAPACITY as int) == all.take(CREATE_COMMANDS_CAPACITY as int));
        }
    }
}

/// Appending nothing leaves a collector within capacity as it is.
proof fn lemma_appended_empty(before: Seq<SpecS2CCommandWithFieldInfo>)
    requires
        before.len() <= CREATE_COMMANDS_CAPACITY,
    ensures
        appended_within_capacity(before, Seq::empty()) == before,
{
    assert(before + Seq::<SpecS2CCommandWithFieldInfo>::empty() == before);
}

} // verus!
