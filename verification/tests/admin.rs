use cheetah_matches_relay::commands::{
    C2SCommandOf, CompareAndSetLongCommand, DeleteFieldCommand, EventCommandOf, S2CCommandOf, SetDoubleCommand,
    SetLongCommand, TargetEventCommandOf,
};
use cheetah_matches_relay::debug::tracer::admin::{get_string_value, AdminCommand, ValueTextOf};
use cheetah_matches_relay::debug::tracer::traced::{TracedCommand, TracedCommandOf, UniDirectionCommandOf};
use cheetah_matches_relay::types::{FieldType, GameObjectId, GameObjectOwner};

fn traced(network_command: UniDirectionCommandOf<Vec<u8>>) -> TracedCommand {
    TracedCommandOf { time: 1_100_000_000, template: None, user: 255, network_command }
}

fn text(s: &str) -> ValueTextOf<String> {
    ValueTextOf::Text(s.to_string())
}

#[test]
fn should_convert() {
    let command = TracedCommandOf {
        time: 1_100_000_000,
        template: Some(155),
        user: 255,
        network_command: UniDirectionCommandOf::C2S(C2SCommandOf::Event(EventCommandOf {
            object_id: GameObjectId::new(100, GameObjectOwner::Room),
            field_id: 555,
            event: vec![10, 20, 30],
        })),
    };

    let admin_command = AdminCommand::from(&command);
    assert_eq!(admin_command.time, 1_100_000_000);
    assert_eq!(admin_command.direction, "c2s");
    assert_eq!(admin_command.command, "Event");
    assert_eq!(admin_command.object_id, "root(100)");
    assert_eq!(admin_command.user_id, 255);
    assert_eq!(admin_command.template, Some(155));
    assert_eq!(admin_command.value, text("[10, 20, 30]"));
    assert_eq!(admin_command.field_id, Some(555));
    assert_eq!(admin_command.field_type, Some(FieldType::Event));
}

#[test]
fn should_convert_with_none_template_and_none_field() {
    let command = traced(UniDirectionCommandOf::C2S(C2SCommandOf::AttachToRoom));
    let admin_command = AdminCommand::from(&command);
    assert_eq!(admin_command.time, 1_100_000_000);
    assert_eq!(admin_command.direction, "c2s");
    assert_eq!(admin_command.command, "AttachToRoom");
    assert_eq!(admin_command.object_id, "none");
    assert_eq!(admin_command.user_id, 255);
    assert_eq!(admin_command.template, None);
    assert_eq!(admin_command.value, text(""));
    assert_eq!(admin_command.field_id, None);
    assert_eq!(admin_command.field_type, None);
}

#[test]
fn values_are_written_as_debug_writes_them() {
    let member_object = GameObjectId::new(7, GameObjectOwner::User(12));
    let cas = traced(UniDirectionCommandOf::C2S(C2SCommandOf::CompareAndSetLong(CompareAndSetLongCommand {
        object_id: member_object,
        field_id: 1,
        current: -5,
        new: 1000,
        reset: Some(i64::MIN),
    })));
    assert_eq!(get_string_value(&cas), text("new = 1000, current = -5, reset = Some(-9223372036854775808)"));
    assert_eq!(AdminCommand::from(&cas).object_id, "user(12,7)");

    let target = traced(UniDirectionCommandOf::C2S(C2SCommandOf::TargetEvent(TargetEventCommandOf {
        target: 3,
        event: EventCommandOf { object_id: member_object, field_id: 2, event: vec![] },
    })));
    assert_eq!(get_string_value(&target), text("target_user = 3, value = []"));

    let delete_field = DeleteFieldCommand { object_id: member_object, field_id: 4, field_type: FieldType::Structure };
    let c2s_delete = traced(UniDirectionCommandOf::C2S(C2SCommandOf::DeleteField(delete_field)));
    assert_eq!(get_string_value(&c2s_delete), text("field_type = Structure"));
    let s2c_delete = traced(UniDirectionCommandOf::S2C(S2CCommandOf::DeleteField(delete_field)));
    assert_eq!(get_string_value(&s2c_delete), text(""));
    assert_eq!(AdminCommand::from(&s2c_delete).direction, "s2c");

    let long = traced(UniDirectionCommandOf::S2C(S2CCommandOf::SetLong(SetLongCommand {
        object_id: member_object,
        field_id: 1,
        value: 0,
    })));
    assert_eq!(get_string_value(&long), text("0"));
    assert_eq!(AdminCommand::from(&long).command, "SetLong");

    let bits = 2.5f64.to_bits();
    let double = traced(UniDirectionCommandOf::S2C(S2CCommandOf::SetDouble(SetDoubleCommand {
        object_id: member_object,
        field_id: 1,
        value: bits,
    })));
    assert_eq!(get_string_value(&double), ValueTextOf::Double(bits));
}
