//! Templates of rooms, members and game objects, and the permission rules of a room.
use rand::Rng;
use vstd::prelude::*;

use crate::room::field::{FieldValue, SpecFieldValue};
use crate::room::maps::{inserted, lemma_inserted, unique_keys};
use crate::room::object::{GameObject, GameObjectModel, FIELD_CAPACITY};
use crate::types::{AccessGroups, Field, FieldId, FieldType, GameObjectId, GameObjectOwner, GameObjectTemplateId, RoomMemberId};

verus! {

broadcast use vstd::std_specs::vec::group_vec_axioms;

/// Access to a field: none, read, read and write (in increasing order).
#[derive(Clone, Copy, Debug, PartialEq, Eq, Structural)]
pub enum Permission {
    Deny,
    Ro,
    Rw,
}

/// Rank of a permission in the order `Deny < Ro < Rw`.
pub open spec fn permission_rank(p: Permission) -> int {
    match p {
        Permission::Deny => 0,
        Permission::Ro => 1,
        Permission::Rw => 2,
    }
}

pub fn permission_at_least(p: Permission, q: Permission) -> (r: bool)
    ensures
        r == (permission_rank(p) >= permission_rank(q)),
{
    let a: u8 = match p {
        Permission::Deny => 0,
        Permission::Ro => 1,
        Permission::Rw => 2,
    };
    let b: u8 = match q {
        Permission::Deny => 0,
        Permission::Ro => 1,
        Permission::Rw => 2,
    };
    a >= b
}

/// A permission for the members of some groups.
#[derive(Clone, Copy, Debug, PartialEq, Eq, Structural)]
pub struct GroupsPermissionRule {
    pub groups: AccessGroups,
    pub permission: Permission,
}

/// Rules for one field of the objects of a template.
#[derive(Debug)]
pub struct PermissionField {
    pub field: Field,
    pub rules: Vec<GroupsPermissionRule>,
}

/// Rules for the objects of a template, and for some of their fields.
#[derive(Debug)]
pub struct GameObjectTemplatePermission {
    pub template: GameObjectTemplateId,
    pub rules: Vec<GroupsPermissionRule>,
    pub fields: Vec<PermissionField>,
}

/// The permission rules of a room.
#[derive(Debug)]
pub struct Permissions {
    pub templates: Vec<GameObjectTemplatePermission>,
}

/// A game object of a room or member template.
#[derive(Debug)]
pub struct GameObjectTemplate {
    pub id: u32,
    pub template: GameObjectTemplateId,
    pub groups: AccessGroups,
    pub fields: Vec<(FieldId, FieldValue)>,
}

pub type PrivateKey = [u8; 32];

/// What a member of a room is: its key, its groups and the objects it brings.
#[derive(Debug)]
pub struct UserTemplate {
    pub private_key: PrivateKey,
    pub groups: AccessGroups,
    pub objects: Vec<GameObjectTemplate>,
}

/// What a room is made of: its name, its objects and its permission rules.
#[derive(Debug)]
pub struct RoomTemplate {
    pub name: String,
    pub objects: Vec<GameObjectTemplate>,
    pub permissions: Permissions,
}

/// The entries after a rule was set for a field of a template's objects: a
/// new entry for the field, with the rule alone, goes last among the fields of
/// the template's last entry, or into a new entry for the template.
pub open spec fn permission_set(
    before: Seq<GameObjectTemplatePermission>,
    after: Seq<GameObjectTemplatePermission>,
    template: GameObjectTemplateId,
    field: Field,
    rule: GroupsPermissionRule,
) -> bool {
    match last_template_index(before, template) {
        Some(i) => {
            &&& after.len() == before.len()
            &&& forall|j: int| 0 <= j < before.len() && j != i ==> after[j] == before[j]
            &&& after[i].template == template
            &&& after[i].rules == before[i].rules
            &&& after[i].fields@.len() == before[i].fields@.len() + 1
            &&& forall|k: int| 0 <= k < before[i].fields@.len() ==> after[i].fields@[k] == before[i].fields@[k]
            &&& after[i].fields@.last().field == field
            &&& after[i].fields@.last().rules@ == seq![rule]
        },
        None => {
            &&& after.len() == before.len() + 1
            &&& forall|j: int| 0 <= j < before.len() ==> after[j] == before[j]
            &&& after.last().template == template
            &&& after.last().rules@.len() == 0
            &&& after.last().fields@.len() == 1
            &&& after.last().fields@[0].field == field
            &&& after.last().fields@[0].rules@ == seq![rule]
        },
    }
}

impl Permissions {
    pub fn new() -> (r: Permissions)
        ensures
            r.templates@.len() == 0,
    {
        Permissions { templates: Vec::new() }
    }

    /// Add a rule for a field of a template's objects: to the last entry of
    /// the template, or to a new entry if there is none.
    pub fn set_permission(
        &mut self,
        template: GameObjectTemplateId,
        field_id: &FieldId,
        field_type: FieldType,
        groups: &AccessGroups,
        permission: Permission,
    )
        ensures
            permission_set(
                old(self).templates@,
                final(self).templates@,
                template,
                Field { id: *field_id, field_type },
                GroupsPermissionRule { groups: *groups, permission },
            ),
    {
        let rule = GroupsPermissionRule { groups: *groups, permission };
        let field = Field { id: *field_id, field_type };
        let mut rules: Vec<GroupsPermissionRule> = Vec::new();
        rules.push(rule);
        let entry = PermissionField { field, rules };
        assert(entry.rules@ == seq![rule]);
        let mut i: usize = self.templates.len();
        while i > 0
            invariant
                i <= self.templates@.len(),
                self.templates == old(self).templates,
                forall|j: int| i <= j < self.templates@.len() ==> self.templates@[j].template != template,
                entry.field == field,
                entry.rules@ == seq![rule],
                rule == (GroupsPermissionRule { groups: *groups, permission }),
                field == (Field { id: *field_id, field_type }),
            decreases i,
        {
            if self.templates[i - 1].template == template {
                proof {
                    assert(last_template_index(self.templates@, template) == Some((i - 1) as int)) by {
                        lemma_last_template_index(self.templates@, template, (i - 1) as int);
                    }
                }
                let mut templates: Vec<GameObjectTemplatePermission> = Vec::new();
                std::mem::swap(&mut templates, &mut self.templates);
                let ghost before = templates@;
                let mut t = templates.remove(i - 1);
                let ghost old_fields = t.fields@;
                let ghost entry_v = entry;
                t.fields.push(entry);
                assert(t.fields@.last() == entry_v);
                let ghost new_t = t;
                templates.insert(i - 1, t);
                proof {
                    assert(templates@ == before.update(i - 1, new_t));
                    assert(new_t.fields@ == old_fields.push(new_t.fields@.last()));
                }
                self.templates = templates;
                return;
            }
            i = i - 1;
        }
        proof {
            lemma_no_template_index(self.templates@, template);
        }
        let mut fields: Vec<PermissionField> = Vec::new();
        fields.push(entry);
        self.templates.push(GameObjectTemplatePermission { template, rules: Vec::new(), fields });
    }
}

/// Position of the last entry for a template.
pub open spec fn last_template_index(ts: Seq<GameObjectTemplatePermission>, template: GameObjectTemplateId) -> Option<int>
    decreases ts.len(),
{
    if ts.len() == 0 {
        None
    } else if ts.last().template == template {
        Some(ts.len() - 1)
    } else {
        last_template_index(ts.drop_last(), template)
    }
}

proof fn lemma_last_template_index(ts: Seq<GameObjectTemplatePermission>, template: GameObjectTemplateId, i: int)
    requires
        0 <= i < ts.len(),
        ts[i].template == template,
        forall|j: int| i < j < ts.len() ==> ts[j].template != template,
    ensures
        last_template_index(ts, template) == Some(i),
    decreases ts.len(),
{
    if i < ts.len() - 1 {
        lemma_last_template_index(ts.drop_last(), template, i);
    }
}

/// The last entry for a template is one for the template, and no later entry is.
pub proof fn lemma_last_template_index_facts(ts: Seq<GameObjectTemplatePermission>, template: GameObjectTemplateId)
    ensures
        match last_template_index(ts, template) {
            Some(i) => 0 <= i < ts.len() && ts[i].template == template && forall|j: int| i < j < ts.len() ==> #[trigger] ts[j].template != template,
            None => forall|j: int| 0 <= j < ts.len() ==> #[trigger] ts[j].template != template,
        },
    decreases ts.len(),
{
    if ts.len() > 0 {
        assert(ts.last() == ts[ts.len() - 1]);
        if ts.last().template != template {
            let d = ts.drop_last();
            lemma_last_template_index_facts(d, template);
            match last_template_index(d, template) {
                Some(i) => {
                    assert forall|j: int| i < j < ts.len() implies #[trigger] ts[j].template != template by {
                        if j < ts.len() - 1 {
                            assert(ts[j] == d[j]);
                        }
                    }
                },
                None => {
                    assert forall|j: int| 0 <= j < ts.len() implies #[trigger] ts[j].template != template by {
                        if j < ts.len() - 1 {
                            assert(ts[j] == d[j]);
                        }
                    }
                },
            }
        }
    }
}

proof fn lemma_no_template_index(ts: Seq<GameObjectTemplatePermission>, template: GameObjectTemplateId)
    requires
        forall|j: int| 0 <= j < ts.len() ==> ts[j].template != template,
    ensures
        last_template_index(ts, template) is None,
    decreases ts.len(),
{
    if ts.len() > 0 {
        lemma_no_template_index(ts.drop_last(), template);
    }
}

impl RoomTemplate {
    pub fn new() -> (r: RoomTemplate)
        ensures
            r.name@.len() == 0,
            r.objects@.len() == 0,
            r.permissions.templates@.len() == 0,
    {
        RoomTemplate { name: String::new(), objects: Vec::new(), permissions: Permissions::new() }
    }
}

/// `rand::thread_rng().gen::<[u8; 32]>()`: 32 bytes from the thread's random
/// generator. Nothing is stated of them: they are random.
#[verifier::external_body]
fn random_private_key() -> (r: PrivateKey) {
    rand::thread_rng().gen::<[u8; 32]>()
}

impl UserTemplate {
    /// A member registered by a request: its groups and objects, and a new
    /// random private key.
    pub fn with_random_key(groups: AccessGroups, objects: Vec<GameObjectTemplate>) -> (r: UserTemplate)
        ensures
            r.groups == groups,
            r.objects == objects,
    {
        UserTemplate { private_key: random_private_key(), groups, objects }
    }

    /// A member of the groups, with no objects.
    pub fn stub(groups: AccessGroups) -> (r: UserTemplate)
        ensures
            r.groups == groups,
            r.objects@.len() == 0,
    {
        UserTemplate { private_key: [5u8; 32], groups, objects: Vec::new() }
    }

    /// Add an object without fields to the member's objects.
    pub fn configure_object(&mut self, id: u32, template: GameObjectTemplateId, groups: AccessGroups)
        ensures
            final(self).private_key == old(self).private_key,
            final(self).groups == old(self).groups,
            final(self).objects@.len() == old(self).objects@.len() + 1,
            forall|j: int| 0 <= j < old(self).objects@.len() ==> final(self).objects@[j] == old(self).objects@[j],
            final(self).objects@.last().id == id,
            final(self).objects@.last().template == template,
            final(self).objects@.last().groups == groups,
            final(self).objects@.last().fields@.len() == 0,
    {
        self.objects.push(GameObjectTemplate { id, template, groups, fields: Vec::new() });
    }
}

/// The model of the fields of a template.
pub open spec fn template_fields_view(s: Seq<(FieldId, FieldValue)>) -> Seq<(FieldId, SpecFieldValue)> {
    s.map_values(|e: (FieldId, FieldValue)| (e.0, e.1@))
}

/// Fields after setting each template field in turn, from none.
pub open spec fn fields_from(s: Seq<(FieldId, SpecFieldValue)>) -> Seq<(FieldId, SpecFieldValue)>
    decreases s.len(),
{
    if s.len() == 0 {
        Seq::empty()
    } else {
        inserted(fields_from(s.drop_last()), s.last().0, s.last().1)
    }
}

/// Setting each template field in turn gives distinct keys, no more than there are template fields.
pub proof fn lemma_fields_from(s: Seq<(FieldId, SpecFieldValue)>)
    ensures
        unique_keys(fields_from(s)),
        fields_from(s).len() <= s.len(),
    decreases s.len(),
{
    if s.len() > 0 {
        lemma_fields_from(s.drop_last());
        lemma_inserted(fields_from(s.drop_last()), s.last().0, s.last().1);
    }
}

/// The object that a template describes, with the given identifier.
pub open spec fn object_from(t: GameObjectTemplate, id: GameObjectId) -> GameObjectModel {
    GameObjectModel {
        id,
        template_id: t.template,
        access_groups: t.groups,
        created: true,
        fields: fields_from(template_fields_view(t.fields@)),
        owners: Seq::empty(),
    }
}

impl GameObjectTemplate {
    /// The object of the room that this template describes.
    pub fn to_root_game_object(&self) -> (r: GameObject)
        requires
            self.id != 0,
            self.fields@.len() <= FIELD_CAPACITY,
        ensures
            r.wf(),
            r@ == object_from(*self, GameObjectId { id: self.id, owner: GameObjectOwner::Room }),
    {
        self.to_game_object(GameObjectId::new(self.id, GameObjectOwner::Room))
    }

    /// The object of a member that this template describes.
    pub fn create_user_game_object(&self, member_id: RoomMemberId) -> (r: GameObject)
        requires
            self.id != 0,
            self.fields@.len() <= FIELD_CAPACITY,
        ensures
            r.wf(),
            r@ == object_from(*self, GameObjectId { id: self.id, owner: GameObjectOwner::User(member_id) }),
    {
        self.to_game_object(GameObjectId::new(self.id, GameObjectOwner::User(member_id)))
    }

    /// The object that this template describes, fully created, with the template's fields.
    pub fn to_game_object(&self, id: GameObjectId) -> (r: GameObject)
        requires
            id.id != 0,
            self.fields@.len() <= FIELD_CAPACITY,
        ensures
            r.wf(),
            r@ == object_from(*self, id),
    {
        let mut object = GameObject::new(id, self.template, self.groups, true);
        let ghost tv = template_fields_view(self.fields@);
        let mut i: usize = 0;
        while i < self.fields.len()
            invariant
                i <= self.fields@.len(),
                self.fields@.len() <= FIELD_CAPACITY,
                tv == template_fields_view(self.fields@),
                object.wf(),
                object@.fields == fields_from(tv.take(i as int)),
                object@.id == id,
                object@.template_id == self.template,
                object@.access_groups == self.groups,
                object@.created,
                object@.owners == Seq::<(FieldId, RoomMemberId)>::empty(),
            decreases self.fields@.len() - i,
        {
            proof {
                lemma_fields_from(tv.take(i as int));
                assert(tv.take(i + 1).drop_last() == tv.take(i as int));
                assert(tv.take(i + 1).last() == tv[i as int]);
            }
            let (k, v) = &self.fields[i];
            let r = object.set_field(*k, v);
            match r {
                Ok(()) => {},
                Err(_) => {
                    proof {
                        assert(false);
                    }
                },
            }
            i = i + 1;
        }
        proof {
            assert(tv.take(self.fields@.len() as int) == tv);
        }
        object
    }
}

} // verus!
