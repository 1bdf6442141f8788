use cheetah_matches_relay::commands::{C2SCommand, CreateGameObjectCommand, CreatedGameObjectCommand, S2CCommand, SetLongCommand};
use cheetah_matches_relay::protocol::{BothDirectionCommandOf, Channel, CommandWithChannel, MemberAndRoomId};
use cheetah_matches_relay::room::action::FieldActionOf;
use cheetah_matches_relay::room::field::FieldValue;
use cheetah_matches_relay::room::command::ServerCommandError;
use cheetah_matches_relay::room::member::{cleaner_key, ResetValueOf};
use cheetah_matches_relay::room::object::{CreateCommandsCollector, GameObject, GameObjectError, S2CCommandWithFieldInfo};
use cheetah_matches_relay::room::sender::MemberFilter;
use cheetah_matches_relay::room::template::{GameObjectTemplate, Permission, RoomTemplate, UserTemplate};
use cheetah_matches_relay::room::{copy_member_template, Room};
use cheetah_matches_relay::server::manager::{ManagementAnswer, ManagementRequest};
use cheetah_matches_relay::server::rooms::Rooms;
use cheetah_matches_relay::types::{AccessGroups, Field, FieldType, GameObjectId, GameObjectOwner};

fn sum(a: u64, b: u64) -> u64 {
    (f64::from_bits(a) + f64::from_bits(b)).to_bits()
}

fn object_order(room: &Room) -> String {
    let mut order = String::new();
    room.objects.values().for_each(|o| {
        order = format!("{}{}", order, o.id.id);
    });
    order
}

// ---- room

#[test]
fn should_remove_objects_when_disconnect() {
    let template = RoomTemplate::new();
    let access_groups = AccessGroups(0b111);
    let mut room = Room::from_template(template);
    let user_a = room.register_user(UserTemplate::stub(access_groups));
    let user_b = room.register_user(UserTemplate::stub(access_groups));
    let object_a_1 = room.create_object(user_a, access_groups, false);
    let object_a_2 = room.create_object(user_a, access_groups, false);
    let object_b_1 = room.create_object(user_b, access_groups, false);
    let object_b_2 = room.create_object(user_b, access_groups, false);

    room.record_sent = true;
    room.out_commands.clear();
    room.disconnect_user(user_a).unwrap();

    assert!(!room.contains_object(&object_a_1));
    assert!(!room.contains_object(&object_a_2));
    assert!(room.contains_object(&object_b_1));
    assert!(room.contains_object(&object_b_2));

    assert!(matches!(room.out_commands.pop_back(), Some((.., S2CCommand::Delete(command))) if command.object_id == object_a_1));
    assert!(matches!(room.out_commands.pop_back(), Some((.., S2CCommand::Delete(command))) if command.object_id == object_a_2));
}

#[test]
fn should_create_object_from_config() {
    let mut template = RoomTemplate::new();
    template.objects = vec![GameObjectTemplate { id: 155, template: 5, groups: AccessGroups::default(), fields: vec![] }];
    let room = Room::from_template(template);
    assert!(room.objects.contains_key(&GameObjectId::new(155, GameObjectOwner::Room)));
}

#[test]
fn should_create_object_from_config_for_user() {
    let template = RoomTemplate::new();
    let user_template = UserTemplate {
        private_key: Default::default(),
        groups: AccessGroups(55),
        objects: vec![GameObjectTemplate { id: 155, template: 5, groups: AccessGroups(55), fields: vec![] }],
    };
    let mut room = Room::from_template(template);
    let user_id = room.register_user(user_template);
    room.execute_commands(user_id, &[], &sum);
    assert!(room.objects.contains_key(&GameObjectId::new(155, GameObjectOwner::User(user_id))));
}

#[test]
fn should_load_user_object_when_connect_other_user() {
    let template = RoomTemplate::new();
    let user1_template = UserTemplate {
        private_key: Default::default(),
        groups: AccessGroups(55),
        objects: vec![GameObjectTemplate { id: 100, template: 5, groups: AccessGroups(55), fields: vec![] }],
    };
    let user2_template = UserTemplate {
        private_key: Default::default(),
        groups: AccessGroups(55),
        objects: vec![GameObjectTemplate { id: 200, template: 5, groups: AccessGroups(55), fields: vec![] }],
    };

    let mut room = Room::from_template(template);
    let user1_id = room.register_user(user1_template);
    let user2_id = room.register_user(user2_template);
    room.execute_commands(user1_id, &[], &sum);
    room.execute_commands(
        user1_id,
        vec![CommandWithChannel {
            channel: Channel::ReliableUnordered,
            both_direction_command: BothDirectionCommandOf::C2S(C2SCommand::AttachToRoom),
        }]
        .as_slice(),
        &sum,
    );

    let user1 = room.get_user_mut(user1_id).unwrap();
    let first = user1.out_commands.remove(0);
    assert!(matches!(
        first.command,
        BothDirectionCommandOf::S2CWithCreator(c) if c.command.get_object_id() == Some(GameObjectId::new(100, GameObjectOwner::User(user1_id)))
    ));
    user1.out_commands.clear();

    room.execute_commands(user2_id, &[], &sum);
    let user1 = room.get_user_mut(user1_id).unwrap();
    let first = user1.out_commands.remove(0);
    assert!(matches!(
        first.command,
        BothDirectionCommandOf::S2CWithCreator(c) if c.command.get_object_id() == Some(GameObjectId::new(200, GameObjectOwner::User(user2_id)))
    ));
}

#[test]
fn should_keep_order_object() {
    let template = RoomTemplate::new();
    let user_template = UserTemplate { private_key: Default::default(), groups: AccessGroups(55), objects: vec![] };
    let mut room = Room::from_template(template);
    room.register_user(user_template);
    room.insert_object(GameObject::new(GameObjectId::new(100, GameObjectOwner::Room), 0, AccessGroups::default(), false));
    room.insert_object(GameObject::new(GameObjectId::new(5, GameObjectOwner::Room), 0, AccessGroups::default(), false));
    room.insert_object(GameObject::new(GameObjectId::new(200, GameObjectOwner::Room), 0, AccessGroups::default(), false));
    assert_eq!(object_order(&room), "1005200");

    room.delete_object(&GameObjectId::new(100, GameObjectOwner::Room)).unwrap();
    assert_eq!(object_order(&room), "5200");
}

#[test]
fn should_apply_permissions_for_self_object() {
    let mut template = RoomTemplate::new();
    let groups = AccessGroups(55);

    let mut user1_template = UserTemplate::stub(groups);
    user1_template.configure_object(1, 100, groups);
    let allow_field_id = 5;
    let deny_field_id = 10;
    let object1_template = user1_template.objects.last_mut().unwrap();
    object1_template.fields.push((allow_field_id, FieldValue::Long(555)));
    object1_template.fields.push((deny_field_id, FieldValue::Long(111)));
    template.permissions.set_permission(100, &deny_field_id, FieldType::Long, &groups, Permission::Deny);

    let mut room = Room::from_template(template);
    let user1_id = room.register_user(copy_member_template(&user1_template));
    let user2_id = room.register_user(UserTemplate::stub(groups));
    room.mark_as_connected(user2_id);
    room.on_user_connect(user1_id, &user1_template);

    let commands = room.get_user_out_commands(user2_id);
    assert!(matches!(commands.get(0), Some(S2CCommand::Create(_))));
    assert!(matches!(commands.get(1), Some(S2CCommand::SetLong(command)) if command.field_id == allow_field_id));
    assert!(matches!(commands.get(2), Some(S2CCommand::Created(_))));
}

#[test]
fn disconnect_of_an_unknown_member_changes_nothing() {
    let mut room = Room::from_template(RoomTemplate::new());
    let user = room.register_user(UserTemplate::stub(AccessGroups(1)));
    let object = room.create_object(user, AccessGroups(1), true);
    assert!(room.disconnect_user(user + 1).is_ok());
    assert!(room.contains_object(&object));
    assert!(room.get_user(user).is_some());
    room.disconnect_user(user).unwrap();
    assert!(room.get_user(user).is_none());
    assert!(!room.contains_object(&object));
}

// ---- objects

#[test]
fn should_collect_command() {
    let id = GameObjectId::new(1, GameObjectOwner::Room);
    let mut object = GameObject::new(id, 55, AccessGroups(63), true);
    object.set_long(1, 100).unwrap();
    object.set_double(2, 200.200f64.to_bits()).unwrap();
    object.fields.insert(3, FieldValue::Structure(vec![1, 2, 3])).unwrap();

    let mut commands = CreateCommandsCollector::new();
    object.collect_create_commands(&mut commands);

    assert!(matches!(&commands[0],
        S2CCommandWithFieldInfo { field: None, command: S2CCommand::Create(c) }
        if c.object_id == id && c.template == object.template_id && c.access_groups == object.access_groups));
    assert!(matches!(&commands[1],
        S2CCommandWithFieldInfo { field: Some(Field { id: 1, field_type: FieldType::Long }), command: S2CCommand::SetLong(c) }
        if c.object_id == id && c.field_id == 1 && c.value == 100));
    assert!(matches!(&commands[2],
        S2CCommandWithFieldInfo { field: Some(Field { id: 2, field_type: FieldType::Double }), command: S2CCommand::SetDouble(c) }
        if c.object_id == id && c.field_id == 2 && (f64::from_bits(c.value) - 200.200).abs() < 0.0001));
    assert!(matches!(&commands[3],
        S2CCommandWithFieldInfo { field: Some(Field { id: 3, field_type: FieldType::Structure }), command: S2CCommand::SetStructure(c) }
        if c.object_id == id && c.field_id == 3 && c.structure == vec![1, 2, 3]));
    assert!(matches!(&commands[4],
        S2CCommandWithFieldInfo { field: None, command: S2CCommand::Created(c) } if c.object_id == id));
}

#[test]
fn should_collect_command_for_not_created_object() {
    let id = GameObjectId::new(1, GameObjectOwner::Room);
    let mut object = GameObject::new(id, 0, AccessGroups::default(), false);
    object.set_long(1, 100).unwrap();

    let mut commands = CreateCommandsCollector::new();
    object.collect_create_commands(&mut commands);
    assert_eq!(commands.len(), 2);
    assert!(matches!(&commands[0], S2CCommandWithFieldInfo { field: None, command: S2CCommand::Create(_) }));
    assert!(matches!(&commands[1],
        S2CCommandWithFieldInfo { field: Some(Field { id: 1, field_type: FieldType::Long }), command: S2CCommand::SetLong(c) }
        if c.object_id == id && c.field_id == 1 && c.value == 100));
}

#[test]
fn should_update_structure() {
    let mut object = GameObject::new(GameObjectId::default_id(), 0, AccessGroups::default(), false);
    object.set_structure(1, &[1, 2, 3]).unwrap();
    object.set_structure(1, &[4, 5, 6, 7]).unwrap();
    assert_eq!(*object.get_structure(&1).unwrap(), [4, 5, 6, 7])
}

#[test]
fn setting_a_field_keeps_its_place_and_others() {
    let mut object = GameObject::new(GameObjectId::new(3, GameObjectOwner::Room), 0, AccessGroups::default(), false);
    object.set_long(1, 10).unwrap();
    object.set_long(2, 20).unwrap();
    object.set_long(1, 11).unwrap();
    let fields = object.fields();
    assert_eq!(fields.len(), 2);
    assert_eq!(fields[0], (1, FieldValue::Long(11)));
    assert_eq!(fields[1], (2, FieldValue::Long(20)));
    assert_eq!(object.get_compare_and_set_owner(&1), None);
    object.set_compare_and_set_owner(1, 9).unwrap();
    assert_eq!(object.get_compare_and_set_owner(&1), Some(&9));
}

// ---- sending

#[test]
fn test_build_command_and_send_1() {
    let mut template = RoomTemplate::new();
    let access_groups = AccessGroups(55);
    let field_id_1 = 10;
    let field_id_2 = 11;
    template.permissions.set_permission(0, &field_id_2, FieldType::Long, &access_groups, Permission::Rw);

    let mut room = Room::from_template(template);
    let user_1 = room.register_user(UserTemplate::stub(access_groups));
    let user_2 = room.register_user(UserTemplate::stub(access_groups));
    let object_id = room.create_object(user_1, access_groups, true);

    // the owner may do anything
    assert!(room
        .do_action_and_send_commands(
            &object_id,
            Field { id: field_id_1, field_type: FieldType::Long },
            user_1,
            Permission::Rw,
            None,
            &FieldActionOf::Nothing,
        )
        .is_ok());

    // read-only by default for every field
    assert!(room
        .do_action_and_send_commands(
            &object_id,
            Field { id: field_id_1, field_type: FieldType::Long },
            user_2,
            Permission::Rw,
            None,
            &FieldActionOf::Nothing,
        )
        .is_ok());
}

#[test]
fn test_build_command_and_send_2() {
    let mut template = RoomTemplate::new();
    let access_groups = AccessGroups(55);
    let field_id_1 = 10;
    let field_id_2 = 20;
    let field_type = FieldType::Long;
    template.permissions.set_permission(0, &field_id_2, field_type, &access_groups, Permission::Rw);

    let mut room = Room::from_template(template);
    let user_id = room.register_user(UserTemplate::stub(access_groups));
    let object_id = room.create_object(user_id, access_groups, true);
    room.mark_as_connected(user_id);

    // a field that nobody else may change
    assert!(room
        .do_action_and_send_commands(
            &object_id,
            Field { id: field_id_1, field_type },
            user_id,
            Permission::Rw,
            None,
            &FieldActionOf::Send(S2CCommand::SetLong(SetLongCommand { object_id, field_id: field_id_1, value: 0 })),
        )
        .is_ok());
    assert!(room.get_user_out_commands(user_id).is_empty());

    // a field that others may change
    assert!(room
        .do_action_and_send_commands(
            &object_id,
            Field { id: field_id_2, field_type },
            user_id,
            Permission::Rw,
            None,
            &FieldActionOf::Send(S2CCommand::SetLong(SetLongCommand { object_id, field_id: field_id_2, value: 0 })),
        )
        .is_ok());
    assert!(matches!(room.get_user_out_commands(user_id).get(0), Some(S2CCommand::SetLong(_))));
}

#[test]
fn test_build_command_and_send_3() {
    let template = RoomTemplate::new();
    let access_groups_a = AccessGroups(0b01);
    let access_groups_b = AccessGroups(0b10);
    let mut room = Room::from_template(template);
    let user_1 = room.register_user(UserTemplate::stub(access_groups_a));
    let user_2 = room.register_user(UserTemplate::stub(access_groups_b));
    let object_id = room.create_object(user_1, access_groups_a, true);
    assert!(room
        .do_action_and_send_commands(
            &object_id,
            Field { id: 0, field_type: FieldType::Long },
            user_2,
            Permission::Ro,
            None,
            &FieldActionOf::Nothing,
        )
        .is_err());
}

#[test]
fn should_send_to_user() {
    let groups = AccessGroups(55);
    let object_template = 5;
    let deny_field_id = 50;
    let allow_field_id = 70;

    let mut template = RoomTemplate::new();
    template.permissions.set_permission(object_template, &deny_field_id, FieldType::Long, &groups, Permission::Deny);

    let mut room = Room::from_template(template);
    let user_source_id = room.register_user(UserTemplate::stub(groups));
    let user_target_id = room.register_user(UserTemplate::stub(groups));

    room.mark_as_connected(user_target_id);
    let object_id = room.create_object(user_target_id, groups, true);
    room.get_object_mut(&object_id).unwrap().template_id = object_template;

    let commands = vec![
        S2CCommandWithFieldInfo {
            field: Some(Field { id: deny_field_id, field_type: FieldType::Long }),
            command: S2CCommand::SetLong(SetLongCommand { object_id, field_id: deny_field_id, value: 0 }),
        },
        S2CCommandWithFieldInfo {
            field: Some(Field { id: allow_field_id, field_type: FieldType::Long }),
            command: S2CCommand::SetLong(SetLongCommand { object_id, field_id: allow_field_id, value: 100 }),
        },
    ];
    room.current_member_id = Some(user_source_id);
    room.send_to_member(&user_target_id, object_template, &commands).unwrap();

    let out_commands = &room.get_user(user_target_id).unwrap().out_commands;
    assert!(matches!(
        out_commands.get(0).map(|c| &c.command),
        Some(BothDirectionCommandOf::S2CWithCreator(c))
            if matches!(&c.command, S2CCommand::SetLong(command) if command.field_id == allow_field_id)
            && c.creator == user_source_id
    ));
    assert_eq!(out_commands.len(), 1);
}

#[test]
fn should_send_with_permission() {
    let access_groups = AccessGroups(0b111);
    let object_template = 100;
    let allow_field_id = 10;
    let deny_field_id = 11;
    let field_type = FieldType::Long;

    let mut template = RoomTemplate::new();
    template.permissions.set_permission(object_template, &deny_field_id, FieldType::Long, &access_groups, Permission::Deny);

    let mut room = Room::from_template(template);
    let user_1 = room.register_user(UserTemplate::stub(access_groups));
    let user_2 = room.register_user(UserTemplate::stub(access_groups));
    room.mark_as_connected(user_1);
    room.mark_as_connected(user_2);

    let object_id = room.create_object(user_1, access_groups, true);
    room.get_object_mut(&object_id).unwrap().template_id = object_template;

    let commands = [
        S2CCommandWithFieldInfo {
            field: Some(Field { id: allow_field_id, field_type }),
            command: S2CCommand::SetLong(SetLongCommand { object_id, field_id: allow_field_id, value: 0 }),
        },
        S2CCommandWithFieldInfo {
            field: Some(Field { id: deny_field_id, field_type }),
            command: S2CCommand::SetLong(SetLongCommand { object_id, field_id: deny_field_id, value: 155 }),
        },
    ];

    room.send_to_members(access_groups, object_template, &commands, MemberFilter::All);

    let commands = room.get_user_out_commands(user_2);
    assert!(matches!(commands.get(0), Some(S2CCommand::SetLong(c)) if c.field_id == allow_field_id));
    assert_eq!(commands.len(), 1);
}

#[test]
fn should_do_action_not_send_if_object_not_created() {
    let field_id = 10;
    let template = RoomTemplate::new();
    let access_groups = AccessGroups(55);
    let mut room = Room::from_template(template);
    let user_1 = room.register_user(UserTemplate::stub(access_groups));
    let user_2 = room.register_user(UserTemplate::stub(access_groups));
    let object_id = room.create_object(user_1, access_groups, false);
    room.mark_as_connected(user_1);
    room.mark_as_connected(user_2);

    assert!(room
        .do_action_and_send_commands(
            &object_id,
            Field { id: field_id, field_type: FieldType::Long },
            user_1,
            Permission::Rw,
            None,
            &FieldActionOf::Send(S2CCommand::SetLong(SetLongCommand { object_id, field_id: 100, value: 200 })),
        )
        .is_ok());

    let commands = room.get_user_out_commands(user_2);
    assert!(commands.is_empty());
}

#[test]
fn action_of_a_member_without_write_access_changes_nothing() {
    let groups = AccessGroups(0b1);
    let mut room = Room::from_template(RoomTemplate::new());
    let owner = room.register_user(UserTemplate::stub(groups));
    let other = room.register_user(UserTemplate::stub(groups));
    let object_id = room.create_object(owner, groups, true);
    room.mark_as_connected(owner);
    room.record_sent = true;
    room.out_commands.clear();
    assert!(room
        .do_action_and_send_commands(
            &object_id,
            Field { id: 1, field_type: FieldType::Long },
            other,
            Permission::Rw,
            None,
            &FieldActionOf::SetLong(5),
        )
        .is_ok());
    assert!(room.get_object(&object_id).unwrap().get_long(&1).is_none());
    assert!(room.out_commands.is_empty());
    assert!(room.get_user_out_commands(owner).is_empty());
}

// ---- templates

#[test]
fn should_convert_game_object() {
    let config_object = GameObjectTemplate {
        id: 100,
        template: 200,
        groups: AccessGroups::default(),
        fields: vec![
            (0, FieldValue::Long(100)),
            (1, FieldValue::Double(105.105f64.to_bits())),
            (2, FieldValue::Structure(vec![1])),
        ],
    };

    let object = config_object.to_root_game_object();
    assert_eq!(config_object.id, object.id.id);
    assert!(matches!(object.id.owner, GameObjectOwner::Room));
    assert_eq!(config_object.template, object.template_id);
    assert_eq!(config_object.groups, object.access_groups);
    assert_eq!(config_object.fields[0].1, *object.field(&0).unwrap());
    assert_eq!(config_object.fields[1].1, *object.field(&1).unwrap());
    assert_eq!(config_object.fields[2].1, *object.field(&2).unwrap());
}

#[test]
fn member_object_of_a_template_is_owned_by_the_member() {
    let config_object = GameObjectTemplate { id: 7, template: 3, groups: AccessGroups(2), fields: vec![(4, FieldValue::Long(1))] };
    let object = config_object.create_user_game_object(9);
    assert_eq!(object.id, GameObjectId::new(7, GameObjectOwner::User(9)));
    assert!(object.created);
    assert_eq!(object.get_long(&4), Some(&1));
}

// ---- management

#[test]
fn should_get_rooms() {
    let mut rooms = Rooms::new();
    let room_id = match rooms.handle_request(ManagementRequest::RegisterRoom(RoomTemplate::new())) {
        ManagementAnswer::RoomRegistered(id) => id,
        _ => panic!("room not registered"),
    };
    assert!(matches!(rooms.handle_request(ManagementRequest::GetRooms), ManagementAnswer::Rooms(ids) if ids == vec![room_id]));
}

#[test]
fn registering_rooms_counts_them() {
    let mut rooms = Rooms::new();
    let first = rooms.create_room(RoomTemplate::new());
    let second = rooms.create_room(RoomTemplate::new());
    assert_eq!(first, 1);
    assert_eq!(second, 2);
    assert_eq!(rooms.room_ids(), vec![1, 2]);
    assert!(rooms.register_user(3, UserTemplate::stub(AccessGroups(1))).is_err());
    assert_eq!(rooms.register_user(2, UserTemplate::stub(AccessGroups(1))).unwrap(), 1);
}

#[test]
fn rooms_hand_out_the_queued_commands_once() {
    let groups = AccessGroups(0b1);
    let mut rooms = Rooms::new();
    let room_id = rooms.create_room(RoomTemplate::new());
    let user1 = rooms.register_user(room_id, UserTemplate::stub(groups)).unwrap();
    let user2 = rooms.register_user(room_id, UserTemplate::stub(groups)).unwrap();
    let attach = || CommandWithChannel {
        channel: Channel::ReliableUnordered,
        both_direction_command: BothDirectionCommandOf::C2S(C2SCommand::AttachToRoom),
    };
    rooms.execute_commands(MemberAndRoomId { member_id: user2, room_id }, &[attach()], &sum);
    let object_id = GameObjectId::new(1, GameObjectOwner::User(user1));
    rooms.execute_commands(
        MemberAndRoomId { member_id: user1, room_id },
        &[
            attach(),
            CommandWithChannel {
                channel: Channel::ReliableUnordered,
                both_direction_command: BothDirectionCommandOf::C2S(C2SCommand::Create(CreateGameObjectCommand {
                    object_id,
                    template: 3,
                    access_groups: groups,
                })),
            },
            CommandWithChannel {
                channel: Channel::ReliableUnordered,
                both_direction_command: BothDirectionCommandOf::C2S(C2SCommand::Created(CreatedGameObjectCommand { object_id })),
            },
        ],
        &sum,
    );

    let out = rooms.collect_out_commands();
    assert_eq!(out.len(), 2);
    assert_eq!((out[0].0, out[0].1), (room_id, user1));
    assert!(out[0].2.is_empty());
    assert_eq!((out[1].0, out[1].1), (room_id, user2));
    assert_eq!(out[1].2.len(), 2);
    assert!(matches!(&out[1].2[0].command, BothDirectionCommandOf::S2CWithCreator(c)
        if c.creator == user1 && matches!(&c.command, S2CCommand::Create(x) if x.object_id == object_id)));
    assert!(matches!(&out[1].2[1].command, BothDirectionCommandOf::S2CWithCreator(c)
        if matches!(&c.command, S2CCommand::Created(x) if x.object_id == object_id)));

    let again = rooms.collect_out_commands();
    assert_eq!(again.len(), 2);
    assert!(again.iter().all(|(_, _, commands)| commands.is_empty()));
}

#[test]
fn rooms_report_a_disconnect_in_a_missing_room() {
    let mut rooms = Rooms::new();
    let room_id = rooms.create_room(RoomTemplate::new());
    let user = rooms.register_user(room_id, UserTemplate::stub(AccessGroups(1))).unwrap();
    assert!(rooms.user_disconnected(&MemberAndRoomId { member_id: user, room_id: room_id + 1 }).is_err());
    assert!(rooms.room_by_id[0].get_user(user).is_some());
    assert!(rooms.user_disconnected(&MemberAndRoomId { member_id: user, room_id }).is_ok());
    assert!(rooms.room_by_id[0].get_user(user).is_none());
    assert_eq!(rooms.changed_rooms, vec![room_id]);
}

#[test]
fn compare_and_set_owners_are_kept_by_field() {
    let mut object = GameObject::new(GameObjectId::new(1, GameObjectOwner::Room), 0, AccessGroups::default(), false);
    object.set_compare_and_set_owner(4, 2).unwrap();
    object.set_compare_and_set_owner(5, 3).unwrap();
    let owners = object.get_compare_and_set_owners();
    assert_eq!(owners.len(), 2);
    assert_eq!(owners.get(&4), Some(&2));
    let error = ServerCommandError::from_object_error(GameObjectError::FieldCountOverflow(object.id, 0));
    assert!(matches!(error, ServerCommandError::GameObjectError { error: GameObjectError::FieldCountOverflow(id, 0) } if id == object.id));
}

#[test]
fn registration_request_gives_a_random_private_key() {
    let first = UserTemplate::with_random_key(AccessGroups(6), vec![GameObjectTemplate { id: 1, template: 2, groups: AccessGroups(2), fields: vec![] }]);
    let second = UserTemplate::with_random_key(AccessGroups(6), vec![]);
    assert_eq!(first.groups, AccessGroups(6));
    assert_eq!(first.objects.len(), 1);
    assert_eq!(first.objects[0].id, 1);
    assert!(second.objects.is_empty());
    assert_ne!(first.private_key, second.private_key);
}

#[test]
fn owner_acts_on_a_field_denied_to_its_groups() {
    let groups = AccessGroups(0b1);
    let mut template = RoomTemplate::new();
    template.permissions.set_permission(0, &7, FieldType::Long, &groups, Permission::Deny);
    let mut room = Room::from_template(template);
    let owner = room.register_user(UserTemplate::stub(groups));
    let object_id = room.create_object(owner, groups, true);
    assert!(room
        .do_action_and_send_commands(
            &object_id,
            Field { id: 7, field_type: FieldType::Long },
            owner,
            Permission::Rw,
            None,
            &FieldActionOf::SetLong(42),
        )
        .is_ok());
    assert_eq!(room.get_object(&object_id).unwrap().get_long(&7), Some(&42));
}

#[test]
fn should_refuse_field_beyond_object_capacity() {
    let mut object = GameObject::new(GameObjectId::new(1, GameObjectOwner::Room), 7, AccessGroups::default(), false);
    for field_id in 0..192u16 {
        object.set_long(field_id, i64::from(field_id)).unwrap();
    }
    assert_eq!(object.fields().len(), 192);
    assert!(matches!(object.set_long(500, 1), Err(GameObjectError::FieldCountOverflow(_, 7))));
    assert_eq!(object.fields().len(), 192);
    object.set_long(10, 99).unwrap();
    assert_eq!(object.get_long(&10), Some(&99));
}

#[test]
fn dump_should_show_members_and_objects_with_fields_by_type() {
    let mut rooms = Rooms::new();
    let room_id = rooms.create_room(RoomTemplate::new());
    let member_id = rooms.register_user(room_id, UserTemplate::stub(AccessGroups(5))).unwrap();
    let room = &mut rooms.room_by_id[0];
    let object_id = room.create_object(member_id, AccessGroups(5), true);
    {
        let object = room.get_object_mut(&object_id).unwrap();
        object.set_long(1, 100).unwrap();
        object.set_double(2, 2.5f64.to_bits()).unwrap();
        object.set_structure(3, &[1, 2, 3]).unwrap();
        object.set_long(4, -7).unwrap();
        object.set_compare_and_set_owner(1, member_id).unwrap();
    }
    assert!(rooms.room_by_id[0].members[0].insert_cleaner(cleaner_key(object_id, 1), ResetValueOf::Long(9)));
    let dump = rooms.dump(room_id).unwrap();
    assert_eq!(dump.users.len(), 1);
    assert_eq!(dump.users[0].id, u32::from(member_id));
    assert_eq!(dump.users[0].groups, 5);
    assert!(!dump.users[0].attached);
    let cleaners = &dump.users[0].compare_and_set_cleaners;
    assert_eq!(cleaners.len(), 1);
    assert_eq!(cleaners[0].game_object_id, object_id.id);
    assert_eq!(cleaners[0].game_object_owner_user, u32::from(member_id));
    assert_eq!(cleaners[0].field_id, 1);
    assert_eq!(cleaners[0].reset, ResetValueOf::Long(9));
    assert_eq!(dump.objects.len(), 1);
    let object = &dump.objects[0];
    assert_eq!(object.owner_user_id, Some(u32::from(member_id)));
    assert_eq!(object.id, object_id.id);
    assert_eq!(object.groups, 5);
    assert!(object.created);
    assert_eq!(object.longs, vec![(1, 100), (4, -7)]);
    assert_eq!(object.floats, vec![(2, 2.5f64.to_bits())]);
    assert_eq!(object.structures, vec![(3, vec![1, 2, 3])]);
    assert_eq!(object.compare_and_set_owners, vec![(1, u32::from(member_id))]);
    assert!(rooms.dump(room_id + 1).is_none());
}
