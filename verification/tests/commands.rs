use cheetah_matches_relay::commands::{
    CompareAndSetLongCommand, CompareAndSetStructureCommand, CreateGameObjectCommand, CreatedGameObjectCommand,
    DeleteFieldCommand, DeleteGameObjectCommand, EventCommand, IncrementDoubleCommand, IncrementLongCommand,
    S2CCommand, SetDoubleCommand, SetLongCommand, SetStructureCommand, TargetEventCommand,
};
use cheetah_matches_relay::room::command::room::attach_to_room;
use cheetah_matches_relay::room::command::ServerCommandExecutor;
use cheetah_matches_relay::room::field::FieldValue;
use cheetah_matches_relay::room::object::GameObject;
use cheetah_matches_relay::room::template::{
    GameObjectTemplatePermission, GroupsPermissionRule, Permission, PermissionField, RoomTemplate, UserTemplate,
};
use cheetah_matches_relay::room::Room;
use cheetah_matches_relay::types::{AccessGroups, Field, FieldId, FieldType, GameObjectId, GameObjectOwner, RoomMemberId};

fn sum(a: u64, b: u64) -> u64 {
    (f64::from_bits(a) + f64::from_bits(b)).to_bits()
}

fn setup_two_players() -> (Room, GameObjectId, RoomMemberId, RoomMemberId) {
    let template = RoomTemplate::new();
    let access_groups = AccessGroups(0b11);
    let mut room = Room::from_template(template);
    let user_1 = room.register_user(UserTemplate::stub(access_groups));
    let user_2 = room.register_user(UserTemplate::stub(access_groups));
    let object_id = room.create_object(user_1, access_groups, false);
    (room, object_id, user_1, user_2)
}

fn setup_one_player() -> (Room, RoomMemberId, AccessGroups) {
    let template = RoomTemplate::new();
    let access_groups = AccessGroups(10);
    let mut room = Room::from_template(template);
    let user_id = room.register_user(UserTemplate::stub(access_groups));
    (room, user_id, access_groups)
}

fn setup_create(access_groups: AccessGroups) -> (Room, RoomMemberId) {
    let template = RoomTemplate::new();
    let mut room = Room::from_template(template);
    let user_id = room.register_user(UserTemplate::stub(access_groups));
    (room, user_id)
}

// ---- create

#[test]
fn create_should_create() {
    let (mut room, user_id) = setup_create(AccessGroups(0b11));
    room.mark_as_connected(user_id);

    let object_id = GameObjectId::new(1, GameObjectOwner::User(user_id));
    let command = CreateGameObjectCommand { object_id, template: 100, access_groups: AccessGroups(0b10) };
    command.clone().execute(&mut room, user_id).unwrap();

    assert!(matches!(
        room.get_object_mut(&object_id),
        Some(object) if object.template_id == command.template && object.access_groups == command.access_groups
    ));
}

#[test]
fn should_not_create_when_owner_in_object_id_is_wrong() {
    let (mut room, user_id) = setup_create(AccessGroups(0b11));
    let object_id = GameObjectId::new(1, GameObjectOwner::User(1000));
    let command = CreateGameObjectCommand { object_id, template: 100, access_groups: AccessGroups(0b10) };
    let _ = command.clone().execute(&mut room, user_id);
    assert!(matches!(room.get_object_mut(&object_id), None));
}

#[test]
fn should_not_create_when_access_group_is_wrong() {
    let (mut room, user_id) = setup_create(AccessGroups(0b11));
    let object_id = GameObjectId::new(1, GameObjectOwner::User(user_id));
    let command = CreateGameObjectCommand { object_id, template: 100, access_groups: AccessGroups(0b1000) };
    let _ = command.clone().execute(&mut room, user_id);
    assert!(matches!(room.get_object_mut(&object_id), None));
}

#[test]
fn should_not_create_when_id_is_zero() {
    let (mut room, user_id) = setup_create(AccessGroups(0b11));
    let object_id = GameObjectId::new(0, GameObjectOwner::User(user_id));
    let command = CreateGameObjectCommand { object_id, template: 100, access_groups: AccessGroups(0b11) };
    let _ = command.clone().execute(&mut room, user_id);
    assert!(matches!(room.get_object_mut(&object_id), None));
}

#[test]
fn should_not_replace_exists_object() {
    let access_groups = AccessGroups(0b11);
    let (mut room, user_id) = setup_create(access_groups);
    let object_id = room.create_object(user_id, access_groups, false);
    room.get_object_mut(&object_id).unwrap().template_id = 777;
    room.record_sent = true;
    room.out_commands.clear();
    let command = CreateGameObjectCommand { object_id, template: 100, access_groups: AccessGroups(0b1000) };
    let _ = command.clone().execute(&mut room, user_id);
    assert!(matches!(room.get_object_mut(&object_id), Some(object) if object.template_id == 777));
}

#[test]
fn create_reports_each_refusal() {
    let (mut room, user_id) = setup_create(AccessGroups(0b11));
    let missing = CreateGameObjectCommand {
        object_id: GameObjectId::new(1, GameObjectOwner::User(7)),
        template: 1,
        access_groups: AccessGroups(0b1),
    };
    assert!(matches!(
        missing.execute(&mut room, 7),
        Err(cheetah_matches_relay::room::command::ServerCommandError::MemberNotFound(7))
    ));
    let foreign = CreateGameObjectCommand {
        object_id: GameObjectId::new(1, GameObjectOwner::User(1000)),
        template: 1,
        access_groups: AccessGroups(0b1),
    };
    assert!(matches!(
        foreign.execute(&mut room, user_id),
        Err(cheetah_matches_relay::room::command::ServerCommandError::MemberNotOwnerGameObject { member_id, .. })
            if member_id == user_id
    ));
    let room_owned = CreateGameObjectCommand {
        object_id: GameObjectId::new(3, GameObjectOwner::Room),
        template: 1,
        access_groups: AccessGroups(0b1),
    };
    assert!(room_owned.execute(&mut room, user_id).is_ok());
    assert!(room.contains_object(&GameObjectId::new(3, GameObjectOwner::Room)));
}

// ---- created

#[test]
fn should_send_commands() {
    let (mut room, object_id, user1, user2) = setup_two_players();
    room.mark_as_connected(user1);
    room.mark_as_connected(user2);
    let command = CreatedGameObjectCommand { object_id };
    command.execute(&mut room, user1).unwrap();

    assert!(room.get_user_out_commands(user1).is_empty());
    assert!(matches!(
        room.get_user_out_commands(user2).get(0),
        Some(S2CCommand::Create(c)) if c.object_id == object_id
    ));
    assert!(matches!(
        room.get_user_out_commands(user2).get(1),
        Some(S2CCommand::Created(c)) if c.object_id == object_id
    ));
}

#[test]
fn should_switch_object_to_created_state() {
    let (mut room, object_id, user1, _) = setup_two_players();
    let command = CreatedGameObjectCommand { object_id };
    room.record_sent = true;
    room.out_commands.clear();
    command.execute(&mut room, user1).unwrap();
    let object = room.get_object_mut(&object_id).unwrap();
    assert!(object.created);
}

#[test]
fn should_dont_send_command_if_object_already_created() {
    let (mut room, object_id, user1, _) = setup_two_players();
    let object = room.get_object_mut(&object_id).unwrap();
    object.created = true;
    let command = CreatedGameObjectCommand { object_id };
    room.record_sent = true;
    room.out_commands.clear();
    let _ = command.execute(&mut room, user1);
    assert!(matches!(room.out_commands.pop_back(), None));
}

// ---- delete

#[test]
fn should_delete() {
    let template = RoomTemplate::new();
    let access_groups = AccessGroups(0b11);
    let mut room = Room::from_template(template);
    let user_a_id = room.register_user(UserTemplate::stub(access_groups));
    let user_b_id = room.register_user(UserTemplate::stub(access_groups));
    room.mark_as_connected(user_a_id);
    room.mark_as_connected(user_b_id);

    let object_id = room.create_object(user_a_id, access_groups, false);
    room.record_sent = true;
    room.out_commands.clear();
    let command = DeleteGameObjectCommand { object_id };

    room.current_member_id = Some(user_a_id);
    command.execute(&mut room, user_a_id).unwrap();

    assert!(room.get_object_mut(&object_id).is_none());
    assert!(matches!(room.get_user_out_commands(user_a_id).pop_back(), None));
    assert!(matches!(room.get_user_out_commands(user_b_id).pop_back(), Some(S2CCommand::Delete(c)) if c == command));
}

#[test]
fn delete_of_a_missing_object_is_refused() {
    let (mut room, object_id, user1, _) = setup_two_players();
    let missing = GameObjectId::new(object_id.id + 1, object_id.owner);
    let command = DeleteGameObjectCommand { object_id: missing };
    assert!(matches!(
        command.execute(&mut room, user1),
        Err(cheetah_matches_relay::room::command::ServerCommandError::GameObjectNotFound { object_id }) if object_id == missing
    ));
    assert!(room.contains_object(&object_id));
}

// ---- event

#[test]
fn should_send_event() {
    let (mut room, user, access_groups) = setup_one_player();
    let object_id = room.create_object(user, access_groups, true);
    room.record_sent = true;
    room.out_commands.clear();

    let command = EventCommand { object_id, field_id: 100, event: vec![1, 2, 3, 4, 5] };
    command.clone().execute(&mut room, user).unwrap();
    assert!(matches!(room.out_commands.pop_back(), Some((.., S2CCommand::Event(c))) if c == command));
}

#[test]
fn should_send_event_to_user() {
    let template = RoomTemplate::new();
    let access_groups = AccessGroups(10);
    let mut room = Room::from_template(template);
    let user1 = room.register_user(UserTemplate::stub(access_groups));
    let user2 = room.register_user(UserTemplate::stub(access_groups));
    let user3 = room.register_user(UserTemplate::stub(access_groups));
    room.mark_as_connected(user1);
    room.mark_as_connected(user2);
    room.mark_as_connected(user3);

    let object_id = room.create_object(user1, access_groups, true);
    let command = TargetEventCommand {
        target: user2,
        event: EventCommand { object_id, field_id: 100, event: vec![1, 2, 3, 4, 5] },
    };
    command.clone().execute(&mut room, user1).unwrap();
    assert!(matches!(room.get_user_out_commands(user1).pop_back(), None));
    assert!(matches!(
        room.get_user_out_commands(user2).pop_back(),
        Some(S2CCommand::Event(c)) if c.field_id == command.event.field_id
    ));
    assert!(matches!(room.get_user_out_commands(user3).pop_back(), None));
}

#[test]
fn should_not_panic_when_missing_object() {
    let (mut room, user, _) = setup_one_player();
    let command = EventCommand {
        object_id: GameObjectId::new(10, GameObjectOwner::Room),
        field_id: 100,
        event: vec![1, 2, 3, 4, 5],
    };
    assert!(command.execute(&mut room, user).is_err());
}

// ---- delete field

#[test]
fn should_command() {
    let (mut room, user, access_groups) = setup_one_player();
    room.record_sent = true;
    let object_id = room.create_object(user, access_groups, true);
    room.get_object_mut(&object_id).unwrap().set_long(10, 100).unwrap();
    let command = DeleteFieldCommand { object_id, field_id: 10, field_type: FieldType::Long };
    command.execute(&mut room, user).unwrap();

    let object = room.get_object_mut(&object_id).unwrap();
    assert!(object.get_long(&10).is_none());
    assert!(matches!(room.out_commands.pop_back(), Some((.., S2CCommand::DeleteField(c))) if c == command));
}

#[test]
fn should_delete_field() {
    let mut object = GameObject::new(GameObjectId::default_id(), 0, AccessGroups::default(), false);

    object.set_structure(1, &[1, 2, 3]).unwrap();
    object.delete_field(1);

    object.set_double(2, 10.0f64.to_bits()).unwrap();
    object.delete_field(2);

    object.set_long(3, 20).unwrap();
    object.delete_field(3);

    assert!(object.get_structure(&1).is_none());
    assert!(object.get_double(&2).is_none());
    assert!(object.get_long(&3).is_none());
}

// ---- doubles

#[test]
fn should_set_float_command() {
    let (mut room, user, access_groups) = setup_one_player();
    let object_id = room.create_object(user, access_groups, true);
    room.record_sent = true;
    room.out_commands.clear();
    let command = SetDoubleCommand { object_id, field_id: 10, value: 100.100f64.to_bits() };
    command.clone().execute(&mut room, user).unwrap();

    let object = room.get_object_mut(&object_id).unwrap();
    assert_eq!(f64::from_bits(*object.get_double(&10).unwrap()) as u64, 100);
    assert!(matches!(room.out_commands.pop_back(), Some((.., S2CCommand::SetDouble(c))) if c == command));
}

#[test]
fn should_increment_float_command() {
    let (mut room, user, access_groups) = setup_one_player();
    let object_id = room.create_object(user, access_groups, true);
    room.record_sent = true;
    room.out_commands.clear();
    let command = IncrementDoubleCommand { object_id, field_id: 10, increment: 100.100f64.to_bits() };
    command.clone().execute(&mut room, user, &sum).unwrap();
    command.execute(&mut room, user, &sum).unwrap();

    let object = room.get_object_mut(&object_id).unwrap();
    assert_eq!(f64::from_bits(*object.get_double(&10).unwrap()) as u64, 200);

    let result = SetDoubleCommand { object_id, field_id: 10, value: 200.200f64.to_bits() };
    room.out_commands.pop_back();
    assert!(matches!(room.out_commands.pop_back(), Some((.., S2CCommand::SetDouble(c))) if c == result));
}

#[test]
fn should_not_panic_when_increment_float_command_not_panic_for_missing_object() {
    let (mut room, user, _) = setup_one_player();
    let command = IncrementDoubleCommand {
        object_id: GameObjectId::new(10, GameObjectOwner::Room),
        field_id: 10,
        increment: 100.100f64.to_bits(),
    };
    assert!(command.execute(&mut room, user, &sum).is_err());
}

// ---- longs

fn setup_long() -> (Room, RoomMemberId, GameObjectId) {
    let template = RoomTemplate::new();
    let access_groups = AccessGroups(10);
    let mut room = Room::from_template(template);
    let user_id = room.register_user(UserTemplate::stub(access_groups));
    let object_id = room.create_object(user_id, access_groups, true);
    (room, user_id, object_id)
}

#[test]
fn should_set_long_command() {
    let (mut room, user, object_id) = setup_long();
    room.record_sent = true;
    room.out_commands.clear();
    let command = SetLongCommand { object_id, field_id: 10, value: 100 };
    command.execute(&mut room, user).unwrap();

    let object = room.get_object(&object_id).unwrap();
    assert_eq!(*object.get_long(&10).unwrap(), 100);
    assert!(matches!(room.out_commands.pop_back(), Some((.., S2CCommand::SetLong(c))) if c == command));
}

#[test]
fn should_increment_long_command() {
    let (mut room, user, object_id) = setup_long();
    room.record_sent = true;
    room.out_commands.clear();
    let command = IncrementLongCommand { object_id, field_id: 10, increment: 100 };
    command.clone().execute(&mut room, user).unwrap();
    command.execute(&mut room, user).unwrap();

    let object = room.get_object(&object_id).unwrap();
    assert_eq!(*object.get_long(&10).unwrap(), 200);

    let result = SetLongCommand { object_id, field_id: 10, value: 200 };
    room.out_commands.pop_back();
    assert!(matches!(room.out_commands.pop_back(), Some((.., S2CCommand::SetLong(c))) if c == result));
}

#[test]
fn should_not_panic_if_overflow() {
    let (mut room, user, object_id) = setup_long();
    room.record_sent = true;
    room.out_commands.clear();
    let command = IncrementLongCommand { object_id, field_id: 10, increment: i64::MAX };
    command.clone().execute(&mut room, user).unwrap();
    command.execute(&mut room, user).unwrap();
    assert_eq!(*room.get_object(&object_id).unwrap().get_long(&10).unwrap(), i64::MAX);
    assert!(matches!(room.out_commands.pop_front(), Some((.., S2CCommand::SetLong(c))) if c.value == i64::MAX));
}

// ---- structures

#[test]
fn should_set_structure() {
    let template = RoomTemplate::new();
    let mut room = Room::from_template(template);
    let access_groups = AccessGroups(10);
    let user = room.register_user(UserTemplate::stub(access_groups));
    let object_id = room.create_object(user, access_groups, true);

    room.record_sent = true;
    room.out_commands.clear();
    let command = SetStructureCommand { object_id, field_id: 100, structure: vec![1, 2, 3, 4, 5] };
    command.execute(&mut room, user).unwrap();
    let object = room.get_object(&object_id).unwrap();

    assert_eq!(*object.field(&100).unwrap(), FieldValue::Structure(command.structure.clone()));
    assert!(matches!(room.out_commands.pop_back(), Some((.., S2CCommand::SetStructure(c))) if c == command));
}

// ---- attach to the room

#[test]
fn should_load_object_when_attach_to_room() {
    let template = RoomTemplate::new();
    let mut room = Room::from_template(template);
    let groups_a = AccessGroups(0b100);
    let user_a = room.register_user(UserTemplate::stub(groups_a));
    let groups_b = AccessGroups(0b10);
    let user_b = room.register_user(UserTemplate::stub(groups_b));

    room.mark_as_connected(user_a);
    room.mark_as_connected(user_b);

    let object_a_1_id = room.create_object(user_b, groups_a, true);
    // not created: not loaded
    room.create_object(user_b, groups_a, false);
    // other groups, created: not loaded
    room.create_object(user_b, groups_b, true);
    // other groups: not loaded
    room.create_object(user_b, groups_b, false);

    attach_to_room(&mut room, user_a).unwrap();

    let mut commands = room.get_user_out_commands(user_a);
    assert!(matches!(commands.pop_front(), Some(S2CCommand::Create(c)) if c.object_id == object_a_1_id));
    assert!(matches!(commands.pop_front(), Some(S2CCommand::Created(c)) if c.object_id == object_a_1_id));
    assert!(matches!(commands.pop_front(), None));
}

// ---- compare and set

fn setup_compare_and_set() -> (Room, RoomMemberId, RoomMemberId, GameObjectId, FieldId) {
    let access_group = AccessGroups(55);
    let mut template = RoomTemplate::new();
    let user_template = || UserTemplate { private_key: Default::default(), groups: access_group, objects: Vec::new() };

    let object_template = 10;
    let object_field = 50;
    template.permissions.templates.push(GameObjectTemplatePermission {
        template: object_template,
        rules: vec![],
        fields: vec![PermissionField {
            field: Field { id: object_field, field_type: FieldType::Long },
            rules: vec![GroupsPermissionRule { groups: access_group, permission: Permission::Rw }],
        }],
    });
    let mut room = Room::from_template(template);
    let user1_id = room.register_user(user_template());
    let user2_id = room.register_user(user_template());
    let user3_id = room.register_user(user_template());
    let object_id = room.create_object(user3_id, access_group, true);
    room.get_object_mut(&object_id).unwrap().template_id = object_template;
    (room, user1_id, user2_id, object_id, object_field)
}

#[test]
fn should_compare_and_set_long() {
    let (mut room, user1_id, _, object_id, field_id) = setup_compare_and_set();
    let command1 = CompareAndSetLongCommand { object_id, field_id, current: 0, new: 100, reset: None };
    command1.execute(&mut room, user1_id).unwrap();
    assert_eq!(*room.get_object(&object_id).unwrap().get_long(&command1.field_id).unwrap(), command1.new);

    let command2 = CompareAndSetLongCommand { object_id, field_id: command1.field_id, current: 0, new: 200, reset: None };
    command2.execute(&mut room, user1_id).unwrap();
    assert_eq!(*room.get_object(&object_id).unwrap().get_long(&command1.field_id).unwrap(), command1.new);

    let command3 =
        CompareAndSetLongCommand { object_id, field_id: command1.field_id, current: command1.new, new: 300, reset: None };
    command3.execute(&mut room, user1_id).unwrap();
    assert_eq!(*room.get_object(&object_id).unwrap().get_long(&command1.field_id).unwrap(), command3.new);
}

#[test]
fn should_compare_and_set_structure() {
    let (mut room, user1_id, _, object_id, field_id) = setup_compare_and_set();
    let command1 = CompareAndSetStructureCommand {
        object_id,
        field_id,
        current: vec![0, 1],
        new: vec![1, 0, 0],
        reset: None,
    };
    command1.execute(&mut room, user1_id).unwrap();
    assert_eq!(
        *room.get_object(&object_id).unwrap().get_structure(&command1.field_id).unwrap(),
        command1.new.as_slice()
    );

    let command2 = CompareAndSetStructureCommand {
        object_id,
        field_id: command1.field_id,
        current: vec![0, 1],
        new: vec![2, 0, 0],
        reset: None,
    };
    command2.execute(&mut room, user1_id).unwrap();
    assert_eq!(
        *room.get_object(&object_id).unwrap().get_structure(&command1.field_id).unwrap(),
        command1.new.as_slice()
    );

    let command3 = CompareAndSetStructureCommand {
        object_id,
        field_id: command1.field_id,
        current: command1.new.clone(),
        new: vec![3, 0, 0],
        reset: None,
    };
    command3.execute(&mut room, user1_id).unwrap();
    assert_eq!(
        *room.get_object(&object_id).unwrap().get_structure(&command1.field_id).unwrap(),
        command3.new.as_slice()
    );
}

#[test]
fn should_send_command() {
    let (mut room, user1_id, _, object_id, field_id) = setup_compare_and_set();
    let command = CompareAndSetLongCommand { object_id, field_id, current: 0, new: 100, reset: Some(555) };
    room.record_sent = true;
    room.out_commands.clear();
    command.execute(&mut room, user1_id).unwrap();
    assert!(matches!(room.out_commands.pop_back(), Some((.., S2CCommand::SetLong(c))) if c.value == command.new));
}

#[test]
fn should_reset() {
    let (mut room, user1_id, _, object_id, field_id) = setup_compare_and_set();
    let command = CompareAndSetLongCommand { object_id, field_id, current: 0, new: 100, reset: Some(555) };
    command.execute(&mut room, user1_id).unwrap();
    assert_eq!(*room.get_object(&object_id).unwrap().get_long(&command.field_id).unwrap(), command.new);

    room.disconnect_user(user1_id).unwrap();
    assert_eq!(*room.get_object(&object_id).unwrap().get_long(&command.field_id).unwrap(), command.reset.unwrap());
}

#[test]
fn should_disable_reset() {
    let (mut room, user1_id, _, object_id, field_id) = setup_compare_and_set();
    CompareAndSetLongCommand { object_id, field_id, current: 0, new: 100, reset: Some(555) }
        .execute(&mut room, user1_id)
        .unwrap();
    CompareAndSetLongCommand { object_id, field_id, current: 100, new: 200, reset: None }
        .execute(&mut room, user1_id)
        .unwrap();

    assert_eq!(*room.get_object(&object_id).unwrap().get_long(&field_id).unwrap(), 200);
    room.disconnect_user(user1_id).unwrap();
    assert_eq!(*room.get_object(&object_id).unwrap().get_long(&field_id).unwrap(), 200);
}

#[test]
fn should_correct_reset_when_with_two_members() {
    let (mut room, user1_id, user2_id, object_id, field_id) = setup_compare_and_set();
    let command_1 = CompareAndSetLongCommand { object_id, field_id, current: 0, new: 100, reset: Some(555) };
    let command_2 = CompareAndSetLongCommand { object_id, field_id, current: 100, new: 200, reset: Some(1555) };
    command_1.execute(&mut room, user1_id).unwrap();
    command_2.execute(&mut room, user2_id).unwrap();

    room.disconnect_user(user1_id).unwrap();
    assert_eq!(*room.get_object(&object_id).unwrap().get_long(&command_1.field_id).unwrap(), command_2.new);
}

#[test]
fn reset_of_a_structure_restores_the_bytes() {
    let (mut room, user1_id, _, object_id, field_id) = setup_compare_and_set();
    let command = CompareAndSetStructureCommand {
        object_id,
        field_id,
        current: vec![],
        new: vec![9, 9],
        reset: Some(vec![7]),
    };
    command.execute(&mut room, user1_id).unwrap();
    assert_eq!(*room.get_object(&object_id).unwrap().get_structure(&field_id).unwrap(), vec![9u8, 9]);
    room.disconnect_user(user1_id).unwrap();
    assert_eq!(*room.get_object(&object_id).unwrap().get_structure(&field_id).unwrap(), vec![7u8]);
}

#[test]
fn should_keep_no_record_of_sent_commands_by_default() {
    let (mut room, user, access_groups) = setup_one_player();
    assert!(!room.record_sent);
    let object_id = room.create_object(user, access_groups, true);
    room.get_object_mut(&object_id).unwrap().set_long(1, 0).unwrap();
    let command = SetLongCommand { object_id, field_id: 1, value: 5 };
    command.execute(&mut room, user).unwrap();
    assert!(room.out_commands.is_empty());
    room.record_sent = true;
    command.execute(&mut room, user).unwrap();
    assert_eq!(room.out_commands.len(), 1);
}

#[test]
fn should_refuse_outsider_whatever_type_the_field_holds() {
    let template = RoomTemplate::new();
    let mut room = Room::from_template(template);
    let owner = room.register_user(UserTemplate::stub(AccessGroups(0b01)));
    let outsider = room.register_user(UserTemplate::stub(AccessGroups(0b10)));
    let object_id = room.create_object(owner, AccessGroups(0b01), true);
    room.get_object_mut(&object_id).unwrap().set_double(1, 5.0f64.to_bits()).unwrap();
    let command = cheetah_matches_relay::commands::C2SCommand::IncrementLongValue(IncrementLongCommand {
        object_id,
        field_id: 1,
        increment: 2,
    });
    let r = cheetah_matches_relay::room::command::execute(&command, &mut room, outsider, &sum);
    assert!(matches!(r, Err(cheetah_matches_relay::room::command::ServerCommandError::MemberCannotAccessToObject { .. })));
    let r = cheetah_matches_relay::room::command::execute(&command, &mut room, owner, &sum);
    assert!(matches!(r, Err(cheetah_matches_relay::room::command::ServerCommandError::Error(_))));
    assert_eq!(room.get_object_mut(&object_id).unwrap().get_double(&1), Some(&5.0f64.to_bits()));
}
