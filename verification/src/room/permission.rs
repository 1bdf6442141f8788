//! Permissions of members on the fields of game objects; a field is known
//! by its identifier alone: a rule given for a field holds for the field of
//! that identifier whatever type of value the field holds (a rule written for
//! a long field also decides for a structure field of the same identifier).
//!
//! The rules for a field of a template come first; without them, the rules
//! for the template; without those, read access. Within rules, the first rule
//! for one of the member's groups decides; with none, read access. Where a
//! room template has several entries for a template (or for a field of a
//! template), the last one counts.
use vstd::prelude::*;

use crate::room::template::{
    lemma_last_template_index_facts, last_template_index, permission_set, GameObjectTemplatePermission,
    GroupsPermissionRule, Permission, PermissionField, Permissions,
};
use crate::types::{AccessGroups, Field, GameObjectTemplateId};

verus! {

broadcast use vstd::std_specs::vec::group_vec_axioms;

/// The permission that rules give to a member of some groups.
pub open spec fn rules_permission(rules: Seq<GroupsPermissionRule>, groups: AccessGroups) -> Permission
    decreases rules.len(),
{
    if rules.len() == 0 {
        Permission::Ro
    } else if rules[0].groups.spec_contains_any(groups) {
        rules[0].permission
    } else {
        rules_permission(rules.drop_first(), groups)
    }
}

/// Rules of the last entry for a template.
pub open spec fn template_rules(ts: Seq<GameObjectTemplatePermission>, template: GameObjectTemplateId) -> Option<Seq<GroupsPermissionRule>>
    decreases ts.len(),
{
    if ts.len() == 0 {
        None
    } else if ts.last().template == template {
        Some(ts.last().rules@)
    } else {
        template_rules(ts.drop_last(), template)
    }
}

/// Rules of the last entry for a field in a list of field entries.
pub open spec fn rules_for_field(fs: Seq<PermissionField>, field: Field) -> Option<Seq<GroupsPermissionRule>>
    decreases fs.len(),
{
    if fs.len() == 0 {
        None
    } else if fs.last().field.id == field.id {
        Some(fs.last().rules@)
    } else {
        rules_for_field(fs.drop_last(), field)
    }
}

/// Rules of the last entry for a field of a template.
pub open spec fn field_rules(ts: Seq<GameObjectTemplatePermission>, template: GameObjectTemplateId, field: Field) -> Option<Seq<GroupsPermissionRule>>
    decreases ts.len(),
{
    if ts.len() == 0 {
        None
    } else {
        let here = if ts.last().template == template {
            rules_for_field(ts.last().fields@, field)
        } else {
            None
        };
        match here {
            Some(r) => Some(r),
            None => field_rules(ts.drop_last(), template, field),
        }
    }
}

/// The permission of a member of some groups on a field of a template's objects.
pub open spec fn permission_of(ts: Seq<GameObjectTemplatePermission>, template: GameObjectTemplateId, field: Field, groups: AccessGroups) -> Permission {
    match field_rules(ts, template, field) {
        Some(rules) => rules_permission(rules, groups),
        None => match template_rules(ts, template) {
            Some(rules) => rules_permission(rules, groups),
            None => Permission::Ro,
        },
    }
}

/// Some rule gives write access.
pub open spec fn has_rw_rule(rules: Seq<GroupsPermissionRule>) -> bool {
    exists|i: int| 0 <= i < rules.len() && #[trigger] rules[i].permission == Permission::Rw
}

/// Some member can write the field: an entry of the template, or of the field,
/// has a rule that gives write access.
pub open spec fn write_access(ts: Seq<GameObjectTemplatePermission>, template: GameObjectTemplateId, field: Field) -> bool {
    exists|i: int|
        0 <= i < ts.len() && (#[trigger] ts[i]).template == template && (has_rw_rule(ts[i].rules@) || exists|j: int|
            0 <= j < ts[i].fields@.len() && (#[trigger] ts[i].fields@[j]).field.id == field.id && has_rw_rule(
                ts[i].fields@[j].rules@,
            ))
}

/// The entry at `i` is the last one for the template and has rules for the
/// field: those rules are the field's.
proof fn lemma_field_rules_at(
    ts: Seq<GameObjectTemplatePermission>,
    template: GameObjectTemplateId,
    field: Field,
    i: int,
    rules: Seq<GroupsPermissionRule>,
)
    requires
        0 <= i < ts.len(),
        ts[i].template == template,
        forall|j: int| i < j < ts.len() ==> #[trigger] ts[j].template != template,
        rules_for_field(ts[i].fields@, field) == Some(rules),
    ensures
        field_rules(ts, template, field) == Some(rules),
    decreases ts.len(),
{
    if i < ts.len() - 1 {
        assert(ts.last() == ts[ts.len() - 1]);
        lemma_field_rules_at(ts.drop_last(), template, field, i, rules);
    }
}

/// Without an entry for the template, neither the template nor its fields have rules.
proof fn lemma_no_entry_no_rules(ts: Seq<GameObjectTemplatePermission>, template: GameObjectTemplateId, field: Field)
    requires
        forall|j: int| 0 <= j < ts.len() ==> #[trigger] ts[j].template != template,
    ensures
        field_rules(ts, template, field) is None,
        template_rules(ts, template) is None,
    decreases ts.len(),
{
    if ts.len() > 0 {
        assert(ts.last() == ts[ts.len() - 1]);
        assert forall|j: int| 0 <= j < ts.len() - 1 implies #[trigger] ts.drop_last()[j].template != template by {
            assert(ts.drop_last()[j] == ts[j]);
        }
        lemma_no_entry_no_rules(ts.drop_last(), template, field);
    }
}

/// Once a rule is set for a field of a template's objects, a member of one of
/// the rule's groups has the rule's permission on that field, and any other
/// member has read access.
pub proof fn law_set_permission_decides(
    before: Seq<GameObjectTemplatePermission>,
    after: Seq<GameObjectTemplatePermission>,
    template: GameObjectTemplateId,
    field: Field,
    rule: GroupsPermissionRule,
    groups: AccessGroups,
)
    requires
        permission_set(before, after, template, field, rule),
    ensures
        permission_of(after, template, field, groups) == if rule.groups.spec_contains_any(groups) {
            rule.permission
        } else {
            Permission::Ro
        },
{
    lemma_last_template_index_facts(before, template);
    let i = match last_template_index(before, template) {
        Some(i) => i,
        None => before.len() as int,
    };
    assert(after[i].fields@.last().field.id == field.id);
    assert(after[i].fields@.last().rules@ == seq![rule]);
    assert(rules_for_field(after[i].fields@, field) == Some(seq![rule]));
    assert forall|j: int| i < j < after.len() implies #[trigger] after[j].template != template by {
        assert(after[j] == before[j]);
    }
    lemma_field_rules_at(after, template, field, i, seq![rule]);
    assert(seq![rule].drop_first() == Seq::<GroupsPermissionRule>::empty());
    assert(seq![rule][0] == rule);
    assert(rules_permission(Seq::<GroupsPermissionRule>::empty(), groups) == Permission::Ro);
}

/// A template without any entry gives every member read access to every
/// field of its objects.
pub proof fn law_no_entry_reads_only(
    ts: Seq<GameObjectTemplatePermission>,
    template: GameObjectTemplateId,
    field: Field,
    groups: AccessGroups,
)
    requires
        forall|j: int| 0 <= j < ts.len() ==> #[trigger] ts[j].template != template,
    ensures
        permission_of(ts, template, field, groups) == Permission::Ro,
{
    lemma_no_entry_no_rules(ts, template, field);
}

/// Permissions of a room, asked by template, field and groups.
#[derive(Debug)]
pub struct PermissionManager {
    pub permissions: Permissions,
}

fn first_rule_permission(rules: &Vec<GroupsPermissionRule>, groups: AccessGroups) -> (r: Permission)
    ensures
        r == rules_permission(rules@, groups),
{
    let mut i: usize = 0;
    assert(rules@.skip(0) == rules@);
    while i < rules.len()
        invariant
            i <= rules@.len(),
            rules_permission(rules@, groups) == rules_permission(rules@.skip(i as int), groups),
        decreases rules@.len() - i,
    {
        proof {
            assert(rules@.skip(i as int)[0] == rules@[i as int]);
            assert(rules@.skip(i as int).drop_first() == rules@.skip(i + 1));
        }
        if rules[i].groups.contains_any(&groups) {
            return rules[i].permission;
        }
        i = i + 1;
    }
    Permission::Ro
}

fn any_rw_rule(rules: &Vec<GroupsPermissionRule>) -> (r: bool)
    ensures
        r == has_rw_rule(rules@),
{
    let mut i: usize = 0;
    while i < rules.len()
        invariant
            i <= rules@.len(),
            forall|j: int| 0 <= j < i ==> rules@[j].permission != Permission::Rw,
        decreases rules@.len() - i,
    {
        if rules[i].permission == Permission::Rw {
            return true;
        }
        i = i + 1;
    }
    false
}

impl PermissionManager {
    pub fn new(permissions: Permissions) -> (r: PermissionManager)
        ensures
            r.permissions == permissions,
    {
        PermissionManager { permissions }
    }

    /// Some member can write the field of the template's objects.
    pub fn has_write_access(&self, template: GameObjectTemplateId, field: Field) -> (r: bool)
        ensures
            r == write_access(self.permissions.templates@, template, field),
    {
        let ts = &self.permissions.templates;
        let mut i: usize = 0;
        while i < ts.len()
            invariant
                i <= ts@.len(),
                ts@ == self.permissions.templates@,
                forall|a: int| 0 <= a < i && (#[trigger] ts@[a]).template == template ==> !(has_rw_rule(ts@[a].rules@) || exists|j: int|
                    0 <= j < ts@[a].fields@.len() && (#[trigger] ts@[a].fields@[j]).field.id == field.id && has_rw_rule(ts@[a].fields@[j].rules@)),
            decreases ts@.len() - i,
        {
            if ts[i].template == template {
                if any_rw_rule(&ts[i].rules) {
                    assert(ts@[i as int].template == template);
                    return true;
                }
                let fs = &ts[i].fields;
                let mut j: usize = 0;
                while j < fs.len()
                    invariant
                        i < ts@.len(),
                        ts@ == self.permissions.templates@,
                        j <= fs@.len(),
                        fs@ == ts@[i as int].fields@,
                        ts@[i as int].template == template,
                        forall|b: int| 0 <= b < j && (#[trigger] fs@[b]).field.id == field.id ==> !has_rw_rule(fs@[b].rules@),
                    decreases fs@.len() - j,
                {
                    if fs[j].field.id == field.id && any_rw_rule(&fs[j].rules) {
                        assert(fs@[j as int] == ts@[i as int].fields@[j as int]);
                        assert(ts@[i as int].fields@[j as int].field.id == field.id);
                        assert(has_rw_rule(ts@[i as int].fields@[j as int].rules@));
                        assert(exists|j2: int|
                            0 <= j2 < ts@[i as int].fields@.len() && (#[trigger] ts@[i as int].fields@[j2]).field.id == field.id && has_rw_rule(
                                ts@[i as int].fields@[j2].rules@,
                            ));
                        return true;
                    }
                    j = j + 1;
                }
                assert(!has_rw_rule(ts@[i as int].rules@));
                assert(!exists|j: int|
                    0 <= j < ts@[i as int].fields@.len() && (#[trigger] ts@[i as int].fields@[j]).field.id == field.id && has_rw_rule(ts@[i as int].fields@[j].rules@)) by {
                    assert forall|j: int| 0 <= j < ts@[i as int].fields@.len() && (#[trigger] ts@[i as int].fields@[j]).field.id == field.id implies !has_rw_rule(ts@[i as int].fields@[j].rules@) by {
                        assert(fs@[j] == ts@[i as int].fields@[j]);
                    }
                }
            }
            i = i + 1;
        }
        false
    }

    /// The permission of a member of the groups on the field of the template's objects.
    pub fn get_permission(&self, template: GameObjectTemplateId, field: Field, groups: AccessGroups) -> (r: Permission)
        ensures
            r == permission_of(self.permissions.templates@, template, field, groups),
    {
        let ts = &self.permissions.templates;
        proof {
            assert(ts@.take(ts@.len() as int) == ts@);
        }
        let mut i: usize = ts.len();
        while i > 0
            invariant
                i <= ts@.len(),
                ts@ == self.permissions.templates@,
                field_rules(ts@, template, field) == field_rules(ts@.take(i as int), template, field),
            decreases i,
        {
            let t = &ts[i - 1];
            proof {
                assert(ts@.take(i as int).drop_last() == ts@.take(i - 1));
                assert(ts@.take(i as int).last() == ts@[i - 1]);
            }
            if t.template == template {
                let fs = &t.fields;
                proof {
                    assert(fs@.take(fs@.len() as int) == fs@);
                }
                let mut j: usize = fs.len();
                while j > 0
                    invariant
                        0 < i <= ts@.len(),
                        j <= fs@.len(),
                        fs@ == ts@[i - 1].fields@,
                        ts@ == self.permissions.templates@,
                        ts@[i - 1].template == template,
                        field_rules(ts@, template, field) == field_rules(ts@.take(i as int), template, field),
                        ts@.take(i as int).drop_last() == ts@.take(i - 1),
                        ts@.take(i as int).last() == ts@[i - 1],
                        rules_for_field(fs@, field) == rules_for_field(fs@.take(j as int), field),
                    decreases j,
                {
                    proof {
                        assert(fs@.take(j as int).drop_last() == fs@.take(j - 1));
                        assert(fs@.take(j as int).last() == fs@[j - 1]);
                    }
                    if fs[j - 1].field.id == field.id {
                        proof {
                            assert(rules_for_field(fs@, field) == Some(fs@[j - 1].rules@));
                        }
                        return first_rule_permission(&fs[j - 1].rules, groups);
                    }
                    j = j - 1;
                }
                proof {
                    assert(fs@.take(0) == Seq::<PermissionField>::empty());
                }
            }
            i = i - 1;
        }
        proof {
            assert(ts@.take(0) == Seq::<GameObjectTemplatePermission>::empty());
            assert(ts@.take(ts@.len() as int) == ts@);
        }
        let mut i: usize = ts.len();
        while i > 0
            invariant
                i <= ts@.len(),
                ts@ == self.permissions.templates@,
                field_rules(ts@, template, field) is None,
                template_rules(ts@, template) == template_rules(ts@.take(i as int), template),
            decreases i,
        {
            proof {
                assert(ts@.take(i as int).drop_last() == ts@.take(i - 1));
                assert(ts@.take(i as int).last() == ts@[i - 1]);
            }
            if ts[i - 1].template == template {
                return first_rule_permission(&ts[i - 1].rules, groups);
            }
            i = i - 1;
        }
        proof {
            assert(ts@.take(0) == Seq::<GameObjectTemplatePermission>::empty());
        }
        Permission::Ro
    }
}

} // verus!
