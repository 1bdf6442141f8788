use cheetah_matches_relay::commands::{C2SCommandOf, EventCommandOf, S2CCommandOf, CreateGameObjectCommand};
use cheetah_matches_relay::debug::tracer::filter::{Filter, Rule, RuleCommandDirection};
use cheetah_matches_relay::debug::tracer::parser::{find_right_bracket, get_field, get_value, parse, to_id, try_parse};
use cheetah_matches_relay::debug::tracer::query::{Op, ParseErrorOf};
use cheetah_matches_relay::debug::tracer::sessions::{
    CommandTracerSessions, CommandTracerSessionsAnswer, CommandTracerSessionsError, CommandTracerSessionsTask, BUFFER_LIMIT,
};
use cheetah_matches_relay::debug::tracer::traced::{TracedCommand, TracedCommandOf, UniDirectionCommandOf};
use cheetah_matches_relay::room::objects::GameObjects;
use cheetah_matches_relay::types::{AccessGroups, FieldId, GameObjectId, GameObjectOwner, GameObjectTemplateId, RoomMemberId};

/// Time of the collected commands in these tests, in nanoseconds.
const TIME: u64 = 55_550_000_000;

fn event() -> EventCommandOf<Vec<u8>> {
    EventCommandOf { object_id: GameObjectId::new(0, GameObjectOwner::Room), field_id: 0, event: vec![] }
}

fn c2s() -> TracedCommand {
    TracedCommandOf { time: 0, template: None, user: 0, network_command: UniDirectionCommandOf::C2S(C2SCommandOf::Event(event())) }
}

fn s2c() -> TracedCommand {
    TracedCommandOf { time: 0, template: None, user: 0, network_command: UniDirectionCommandOf::S2C(S2CCommandOf::Event(event())) }
}

fn with_user(mut c: TracedCommand, user: RoomMemberId) -> TracedCommand {
    c.user = user;
    c
}

fn with_template(mut c: TracedCommand, template: GameObjectTemplateId) -> TracedCommand {
    c.template = Some(template);
    c
}

fn with_field_id(mut c: TracedCommand, field_id: FieldId) -> TracedCommand {
    match &mut c.network_command {
        UniDirectionCommandOf::C2S(C2SCommandOf::Event(e)) => e.field_id = field_id,
        UniDirectionCommandOf::S2C(S2CCommandOf::Event(e)) => e.field_id = field_id,
        _ => {}
    }
    c
}

fn with_object_id(mut c: TracedCommand, object_id: GameObjectId) -> TracedCommand {
    match &mut c.network_command {
        UniDirectionCommandOf::C2S(C2SCommandOf::Event(e)) => e.object_id = object_id,
        UniDirectionCommandOf::S2C(S2CCommandOf::Event(e)) => e.object_id = object_id,
        _ => {}
    }
    c
}

#[test]
fn filter_should_filter_by_direction() {
    let filter_c2s = Filter::new(Rule::Direction(RuleCommandDirection::C2S));
    assert!(filter_c2s.filter(&c2s()));
    assert!(!filter_c2s.filter(&s2c()));
    let filter_s2c = Filter::new(Rule::Direction(RuleCommandDirection::S2C));
    assert!(filter_s2c.filter(&s2c()));
    assert!(!filter_s2c.filter(&c2s()));
}

#[test]
fn filter_should_filter_by_user() {
    let filter = Filter::new(Rule::User(55));
    assert!(filter.filter(&with_user(c2s(), 55)));
    assert!(!filter.filter(&with_user(c2s(), 155)));
}

#[test]
fn filter_should_filter_by_template() {
    let filter = Filter::new(Rule::Template(100));
    assert!(filter.filter(&with_template(c2s(), 100)));
    assert!(!filter.filter(&with_template(c2s(), 200)));
}

#[test]
fn filter_should_filter_by_not() {
    let filter = Filter::new(Rule::Not(Box::new(Rule::Template(100))));
    assert!(filter.filter(&with_template(c2s(), 10)));
    assert!(!filter.filter(&with_template(c2s(), 100)));
}

#[test]
fn filter_should_filter_by_field() {
    let filter = Filter::new(Rule::Field(10));
    assert!(filter.filter(&with_field_id(c2s(), 10)));
    assert!(filter.filter(&with_field_id(s2c(), 10)));
    assert!(!filter.filter(&with_field_id(c2s(), 100)));
    assert!(!filter.filter(&with_field_id(s2c(), 100)));
}

#[test]
fn should_filter_by_room_owner() {
    let filter = Filter::new(Rule::RoomOwner);
    assert!(filter.filter(&with_object_id(c2s(), GameObjectId::new(100, GameObjectOwner::Room))));
    assert!(!filter.filter(&with_object_id(c2s(), GameObjectId::new(50, GameObjectOwner::User(100)))));
}

#[test]
fn should_filter_by_user_owner() {
    let filter = Filter::new(Rule::UserOwner(55));
    assert!(filter.filter(&with_object_id(c2s(), GameObjectId::new(50, GameObjectOwner::User(55)))));
    assert!(!filter.filter(&with_object_id(c2s(), GameObjectId::new(100, GameObjectOwner::Room))));
}

#[test]
fn filter_should_filter_by_object_id() {
    let filter = Filter::new(Rule::ObjectId(100));
    assert!(filter.filter(&with_object_id(c2s(), GameObjectId::new(100, GameObjectOwner::User(55)))));
    assert!(filter.filter(&with_object_id(c2s(), GameObjectId::new(100, GameObjectOwner::Room))));
    assert!(!filter.filter(&with_object_id(c2s(), GameObjectId::new(70, GameObjectOwner::User(55)))));
    assert!(!filter.filter(&with_object_id(c2s(), GameObjectId::new(50, GameObjectOwner::Room))));
}

#[test]
fn should_filter_or() {
    let filter = Filter::new(Rule::OrRule(vec![Rule::Template(100), Rule::Template(55), Rule::User(55)]));
    assert!(filter.filter(&with_user(with_template(c2s(), 100), 55)));
    assert!(filter.filter(&with_user(with_template(c2s(), 55), 100)));
}

#[test]
fn should_filter_and() {
    let filter = Filter::new(Rule::AndRule(vec![Rule::Template(100), Rule::User(55)]));
    assert!(filter.filter(&with_user(with_template(c2s(), 100), 55)));
    assert!(!filter.filter(&with_user(with_template(c2s(), 55), 100)));
}

#[test]
fn filter_of_an_empty_or_passes_nothing_and_of_an_empty_and_everything() {
    assert!(!Filter::new(Rule::OrRule(vec![])).filter(&c2s()));
    assert!(Filter::new(Rule::AndRule(vec![])).filter(&c2s()));
    assert!(Filter::new(Rule::True).filter(&s2c()));
}

#[test]
fn should_parse_empty() {
    assert_eq!(parse("").unwrap(), Rule::True);
}

#[test]
fn parser_should_parse_user() {
    assert_eq!(parse("user=55").unwrap(), Rule::User(55));
}

#[test]
fn should_parse_field() {
    assert_eq!(parse("field=55").unwrap(), Rule::Field(55));
}

#[test]
fn parser_should_parse_template() {
    assert_eq!(parse("template=155").unwrap(), Rule::Template(155));
}

#[test]
fn should_parse_object_id() {
    assert_eq!(parse("id=155").unwrap(), Rule::ObjectId(155));
}

#[test]
fn should_parse_room_owner() {
    assert_eq!(parse("owner=room").unwrap(), Rule::RoomOwner);
}

#[test]
fn should_parse_user_owner() {
    assert_eq!(parse("owner=55").unwrap(), Rule::UserOwner(55));
}

#[test]
fn should_parse_c2s() {
    assert_eq!(parse("c2s").unwrap(), Rule::Direction(RuleCommandDirection::C2S));
}

#[test]
fn should_parse_s2c() {
    assert_eq!(parse("s2c").unwrap(), Rule::Direction(RuleCommandDirection::S2C));
}

#[test]
fn should_parse_not() {
    assert_eq!(parse("owner!=55").unwrap(), Rule::Not(Box::new(Rule::UserOwner(55))));
}

#[test]
fn should_parse_or() {
    assert_eq!(
        parse("c2s || user=55").unwrap(),
        Rule::OrRule(vec![Rule::Direction(RuleCommandDirection::C2S), Rule::User(55)])
    );
}

#[test]
fn should_parse_more_two_or() {
    assert_eq!(
        parse("c2s || user=55 || template=10").unwrap(),
        Rule::OrRule(vec![Rule::Direction(RuleCommandDirection::C2S), Rule::User(55), Rule::Template(10)])
    );
}

#[test]
fn should_parse_and() {
    assert_eq!(
        parse("user=55 && c2s").unwrap(),
        Rule::AndRule(vec![Rule::User(55), Rule::Direction(RuleCommandDirection::C2S)])
    );
}

#[test]
fn should_parse_more_two_and() {
    assert_eq!(
        parse("user=55 && c2s && field=100").unwrap(),
        Rule::AndRule(vec![Rule::User(55), Rule::Direction(RuleCommandDirection::C2S), Rule::Field(100)])
    );
}

#[test]
fn should_parse_with_bracket() {
    assert_eq!(
        parse("user=55 && field=10 && (template=20 || template=30) && owner=room").unwrap(),
        Rule::AndRule(vec![
            Rule::User(55),
            Rule::Field(10),
            Rule::OrRule(vec![Rule::Template(20), Rule::Template(30)]),
            Rule::RoomOwner
        ])
    );
}

#[test]
fn should_fail_when_wrong_field() {
    assert!(matches!(parse("wrong=555"), Err(ParseErrorOf::UnknownField(value)) if value == "wrong"));
}

#[test]
fn should_fail_when_wrong_value() {
    assert!(matches!(parse("id=ttt"), Err(ParseErrorOf::ValueFormatError(value)) if value == "ttt"));
}

#[test]
fn should_fail_when_wrong_bracket() {
    assert!(matches!(parse("(id=ttt"), Err(ParseErrorOf::RightBracketNotFound(value)) if value == "(id=ttt"));
}

#[test]
fn should_fail_when_wrong_operation() {
    assert!(matches!(parse("id=1 & template=5"), Err(ParseErrorOf::ValueFormatError(value)) if value == "1&template=5"));
}

#[test]
fn parser_helpers_on_plain_values() {
    let chars = |s: &str| s.chars().collect::<Vec<char>>();
    assert_eq!(find_right_bracket(&chars("a(b)c)d")).unwrap(), 5);
    assert!(find_right_bracket(&chars("(ab")).is_err());
    assert_eq!(to_id(&chars("155")).unwrap(), 155);
    assert!(to_id(&chars("1x")).is_err());
    let (field, op, value) = get_field(&chars("user!=5&&c2s")).unwrap();
    assert_eq!(field, chars("user"));
    assert!(matches!(op, Op::NotEqual));
    assert_eq!(value, chars("5&&c2s"));
    let (value, rest) = get_value(&chars("5&&c2s"));
    assert_eq!(value, chars("5"));
    assert_eq!(rest, chars("&&c2s"));
}

#[test]
fn try_parse_answers_for_a_bracket_group() {
    assert_eq!(try_parse("(user=1)").unwrap().unwrap(), Rule::User(1));
}

#[test]
fn parse_cuts_a_bracket_group_at_the_character_count_taken_as_bytes() {
    assert!(matches!(parse("(é=1)"), Err(ParseErrorOf::UnknownField(value)) if value == "é"));
    assert!(matches!(parse("(éé=1)"), Err(ParseErrorOf::UnknownOperation(value)) if value == "éé"));
    assert!(try_parse("(aé)").is_none());
    assert_eq!(try_parse("(user=1)&&(id=2)").unwrap().unwrap(), Rule::AndRule(vec![Rule::User(1), Rule::ObjectId(2)]));
}

#[test]
fn parse_error_text_is_its_debug_text() {
    let e = parse("wrong=555").unwrap_err();
    assert_eq!(e.to_debug_string(), format!("{:?}", e));
    let e = parse("(id=ttt").unwrap_err();
    assert_eq!(e.to_debug_string(), format!("{:?}", e));
}

fn attach() -> C2SCommandOf<Vec<u8>> {
    C2SCommandOf::AttachToRoom
}

fn traced(template: Option<GameObjectTemplateId>, user: RoomMemberId, c: UniDirectionCommandOf<Vec<u8>>) -> TracedCommand {
    TracedCommandOf { time: TIME, template, user, network_command: c }
}

#[test]
fn should_collect_command_without_filter() {
    let objects: GameObjects = indexmap::IndexMap::new();
    let mut tracer = CommandTracerSessions::new();
    let session_id = tracer.create_session();
    tracer.collect_c2s_at(TIME, &objects, 100, &attach());
    tracer.collect_c2s_at(TIME, &objects, 101, &attach());
    tracer.collect_c2s_at(TIME, &objects, 102, &attach());
    tracer.collect_s2c_at(TIME, 200, 100, &S2CCommandOf::Event(event()));
    let commands = tracer.drain_filtered_commands(session_id).unwrap();
    assert_eq!(
        commands,
        vec![
            traced(None, 100, UniDirectionCommandOf::C2S(attach())),
            traced(None, 101, UniDirectionCommandOf::C2S(attach())),
            traced(None, 102, UniDirectionCommandOf::C2S(attach())),
            traced(Some(200), 100, UniDirectionCommandOf::S2C(S2CCommandOf::Event(event()))),
        ]
    );
    assert!(tracer.drain_filtered_commands(session_id).unwrap().is_empty());
}

#[test]
fn should_collect_command_with_filter() {
    let objects: GameObjects = indexmap::IndexMap::new();
    let mut tracer = CommandTracerSessions::new();
    let session_id = tracer.create_session();
    tracer.collect_c2s_at(TIME, &objects, 100, &attach());
    tracer.collect_c2s_at(TIME, &objects, 101, &attach());
    tracer.collect_c2s_at(TIME, &objects, 102, &attach());
    tracer.collect_s2c_at(TIME, 200, 100, &S2CCommandOf::Event(event()));
    tracer.set_filter(session_id, "(user=100)").unwrap();
    let commands = tracer.drain_filtered_commands(session_id).unwrap();
    assert_eq!(
        commands,
        vec![
            traced(None, 100, UniDirectionCommandOf::C2S(attach())),
            traced(Some(200), 100, UniDirectionCommandOf::S2C(S2CCommandOf::Event(event()))),
        ]
    );
    assert!(tracer.drain_filtered_commands(session_id).unwrap().is_empty());
}

#[test]
fn should_limit_commands_buffer() {
    let objects: GameObjects = indexmap::IndexMap::new();
    let mut tracer = CommandTracerSessions::new();
    let session_id = tracer.create_session();
    tracer.collect_c2s_at(TIME, &objects, 50, &attach());
    for _ in 0..BUFFER_LIMIT {
        tracer.collect_c2s_at(TIME, &objects, 1000, &attach());
    }
    tracer.collect_c2s_at(TIME, &objects, 55, &attach());
    let (_, session) = tracer.sessions.iter_mut().find(|(id, _)| *id == session_id).unwrap();
    assert!(session.filtered_commands.len() < BUFFER_LIMIT);
    assert!(session.commands.len() < BUFFER_LIMIT);
    let last_command = session.commands.pop_back().unwrap();
    assert_eq!(last_command, traced(None, 55, UniDirectionCommandOf::C2S(attach())));
}

#[test]
fn should_close_session() {
    let mut tracer = CommandTracerSessions::new();
    let session_id = tracer.create_session();
    tracer.close_session(session_id).unwrap();
    assert!(tracer.sessions.is_empty());
}

#[test]
fn should_do_task_create_session() {
    let mut tracer = CommandTracerSessions::new();
    match tracer.execute_task(CommandTracerSessionsTask::CreateSession) {
        CommandTracerSessionsAnswer::SessionCreated(session_id) => {
            assert!(tracer.sessions.iter().any(|(id, _)| *id == session_id))
        }
        _ => panic!("no session created"),
    }
}

#[test]
fn should_do_task_set_filter() {
    let mut tracer = CommandTracerSessions::new();
    let session_id = tracer.create_session();
    let answer = tracer.execute_task(CommandTracerSessionsTask::SetFilter(session_id, "(user=55)".to_string()));
    assert!(matches!(answer, CommandTracerSessionsAnswer::FilterSet(Ok(()))));
}

#[test]
fn should_do_task_set_wrong_filter() {
    let mut tracer = CommandTracerSessions::new();
    let session_id = tracer.create_session();
    let answer = tracer.execute_task(CommandTracerSessionsTask::SetFilter(session_id, "(8=55)".to_string()));
    assert!(matches!(answer, CommandTracerSessionsAnswer::FilterSet(Err(_))));
}

#[test]
fn should_do_task_get_commands() {
    let objects: GameObjects = indexmap::IndexMap::new();
    let mut tracer = CommandTracerSessions::new();
    let session_id = tracer.create_session();
    tracer.collect_c2s_at(TIME, &objects, 100, &attach());
    match tracer.execute_task(CommandTracerSessionsTask::GetCommands(session_id)) {
        CommandTracerSessionsAnswer::Commands(Ok(commands)) => assert_eq!(commands.len(), 1),
        _ => panic!("no commands"),
    }
}

#[test]
fn should_do_task_close_session() {
    let mut tracer = CommandTracerSessions::new();
    let session_id = tracer.create_session();
    match tracer.execute_task(CommandTracerSessionsTask::CloseSession(session_id)) {
        CommandTracerSessionsAnswer::SessionClosed(Ok(())) => assert!(tracer.sessions.is_empty()),
        _ => panic!("session not closed"),
    }
}

#[test]
fn should_collect_create_command() {
    let objects: GameObjects = indexmap::IndexMap::new();
    let mut tracer = CommandTracerSessions::new();
    let session_id = tracer.create_session();
    let create = C2SCommandOf::Create(CreateGameObjectCommand {
        object_id: GameObjectId::new(0, GameObjectOwner::Room),
        template: 100,
        access_groups: AccessGroups(0),
    });
    tracer.collect_c2s_at(TIME, &objects, 100, &create);
    let commands = tracer.drain_filtered_commands(session_id).unwrap();
    assert_eq!(commands, vec![traced(Some(100), 100, UniDirectionCommandOf::C2S(create))]);
}

#[test]
fn sessions_report_missing_sessions_and_wrong_queries() {
    let mut tracer = CommandTracerSessions::new();
    assert!(matches!(tracer.drain_filtered_commands(7), Err(CommandTracerSessionsError::SessionNotFound)));
    assert!(matches!(tracer.close_session(7), Err(CommandTracerSessionsError::SessionNotFound)));
    assert!(matches!(tracer.set_filter(7, "user=1"), Err(CommandTracerSessionsError::SessionNotFound)));
    match tracer.set_filter(7, "wrong=1") {
        Err(CommandTracerSessionsError::QueryError(text)) => assert_eq!(text, "UnknownField(\"wrong\")"),
        _ => panic!("the query is wrong"),
    }
}

#[test]
fn collecting_with_the_clock_keeps_every_command() {
    let objects: GameObjects = indexmap::IndexMap::new();
    let mut tracer = CommandTracerSessions::new();
    let session_id = tracer.create_session();
    tracer.collect_c2s(&objects, 3, &attach());
    tracer.collect_s2c(4, 3, &S2CCommandOf::Event(event()));
    let commands = tracer.drain_filtered_commands(session_id).unwrap();
    assert_eq!(commands.len(), 2);
    assert!(commands[0].time > 0);
}

#[test]
fn task_answers_as_the_direct_call() {
    let objects: GameObjects = indexmap::IndexMap::new();
    let mut by_task = CommandTracerSessions::new();
    let mut by_call = CommandTracerSessions::new();
    let id = match by_task.execute_task(CommandTracerSessionsTask::CreateSession) {
        CommandTracerSessionsAnswer::SessionCreated(id) => id,
        other => panic!("{:?}", other),
    };
    assert_eq!(by_call.create_session(), id);
    for tracer in [&mut by_task, &mut by_call] {
        tracer.collect_c2s_at(TIME, &objects, 1, &attach());
        tracer.collect_c2s_at(TIME, &objects, 2, &attach());
    }
    assert!(matches!(
        by_task.execute_task(CommandTracerSessionsTask::SetFilter(id, "user=2".to_string())),
        CommandTracerSessionsAnswer::FilterSet(Ok(()))
    ));
    assert!(by_call.set_filter(id, "user=2").is_ok());
    let direct = by_call.drain_filtered_commands(id).unwrap();
    match by_task.execute_task(CommandTracerSessionsTask::GetCommands(id)) {
        CommandTracerSessionsAnswer::Commands(Ok(commands)) => assert_eq!(commands, direct),
        other => panic!("{:?}", other),
    }
    assert_eq!(direct, vec![traced(None, 2, UniDirectionCommandOf::C2S(attach()))]);
    assert!(matches!(
        by_task.execute_task(CommandTracerSessionsTask::CloseSession(id + 1)),
        CommandTracerSessionsAnswer::SessionClosed(Err(CommandTracerSessionsError::SessionNotFound))
    ));
    assert!(matches!(by_call.close_session(id + 1), Err(CommandTracerSessionsError::SessionNotFound)));
    assert_eq!(by_task.sessions.len(), by_call.sessions.len());
}
