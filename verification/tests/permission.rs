use cheetah_matches_relay::room::permission::PermissionManager;
use cheetah_matches_relay::room::template::{
    GameObjectTemplatePermission, GroupsPermissionRule, Permission, PermissionField, Permissions,
};
use cheetah_matches_relay::types::{AccessGroups, Field, FieldType};

fn long_field(id: u16) -> Field {
    Field { id, field_type: FieldType::Long }
}

#[test]
fn set_permission_decides_for_members_of_the_groups() {
    let mut permissions = Permissions::new();
    permissions.set_permission(7, &3, FieldType::Long, &AccessGroups(0b10), Permission::Deny);
    let manager = PermissionManager::new(permissions);
    assert_eq!(manager.get_permission(7, long_field(3), AccessGroups(0b11)), Permission::Deny);
    assert_eq!(manager.get_permission(7, long_field(3), AccessGroups(0b01)), Permission::Ro);
    assert_eq!(manager.get_permission(7, long_field(4), AccessGroups(0b10)), Permission::Ro);
    assert!(!manager.has_write_access(7, long_field(3)));
}

#[test]
fn later_rule_for_the_same_field_counts() {
    let mut permissions = Permissions::new();
    permissions.set_permission(7, &3, FieldType::Long, &AccessGroups(0b1), Permission::Deny);
    permissions.set_permission(7, &3, FieldType::Long, &AccessGroups(0b1), Permission::Rw);
    assert_eq!(permissions.templates.len(), 1);
    assert_eq!(permissions.templates[0].fields.len(), 2);
    let manager = PermissionManager::new(permissions);
    assert_eq!(manager.get_permission(7, long_field(3), AccessGroups(0b1)), Permission::Rw);
    assert!(manager.has_write_access(7, long_field(3)));
}

#[test]
fn template_without_entry_reads_only() {
    let mut permissions = Permissions::new();
    permissions.set_permission(7, &3, FieldType::Long, &AccessGroups(0b1), Permission::Rw);
    let manager = PermissionManager::new(permissions);
    assert_eq!(manager.get_permission(8, long_field(3), AccessGroups(0b1)), Permission::Ro);
    assert!(!manager.has_write_access(8, long_field(3)));
}

#[test]
fn field_rules_come_before_template_rules_and_first_rule_decides() {
    let permissions = Permissions {
        templates: vec![GameObjectTemplatePermission {
            template: 1,
            rules: vec![GroupsPermissionRule { groups: AccessGroups(0b1), permission: Permission::Rw }],
            fields: vec![PermissionField {
                field: long_field(9),
                rules: vec![
                    GroupsPermissionRule { groups: AccessGroups(0b10), permission: Permission::Deny },
                    GroupsPermissionRule { groups: AccessGroups(0b11), permission: Permission::Rw },
                ],
            }],
        }],
    };
    let manager = PermissionManager::new(permissions);
    assert_eq!(manager.get_permission(1, long_field(5), AccessGroups(0b1)), Permission::Rw);
    assert_eq!(manager.get_permission(1, long_field(5), AccessGroups(0b100)), Permission::Ro);
    assert_eq!(manager.get_permission(1, long_field(9), AccessGroups(0b10)), Permission::Deny);
    assert_eq!(manager.get_permission(1, long_field(9), AccessGroups(0b1)), Permission::Rw);
    assert_eq!(
        manager.get_permission(1, Field { id: 9, field_type: FieldType::Structure }, AccessGroups(0b10)),
        Permission::Deny
    );
}

#[test]
fn field_rule_holds_for_the_field_id_whatever_its_type() {
    let mut permissions = Permissions::new();
    permissions.set_permission(7, &10, FieldType::Long, &AccessGroups(0b1), Permission::Deny);
    let manager = PermissionManager::new(permissions);
    assert_eq!(manager.get_permission(7, long_field(10), AccessGroups(0b1)), Permission::Deny);
    let structure = Field { id: 10, field_type: FieldType::Structure };
    assert_eq!(manager.get_permission(7, structure, AccessGroups(0b1)), Permission::Deny);
}
