use cheetah_matches_relay::registry::{AttachedUser, CreatedMatch, RegistryService, StubMatchmakingService};
use cheetah_matches_relay::commands::{C2SCommand, CreateGameObjectCommand, CreatedGameObjectCommand};
use cheetah_matches_relay::protocol::{BothDirectionCommandOf, Channel, CommandWithChannel, MemberAndRoomId};
use cheetah_matches_relay::room::template::{RoomTemplate, UserTemplate};
use cheetah_matches_relay::server::agones::AgonesCycle;
use cheetah_matches_relay::server::network::{FrameOutcome, NetworkSessions, PeerState};
use cheetah_matches_relay::server::manager::{ManagementAnswer, ManagementRequest};
use cheetah_matches_relay::server::rooms::Rooms;
use cheetah_matches_relay::types::{AccessGroups, GameObjectId, GameObjectOwner};
use cheetah_matches_relay::server::statistics::CycleStatistics;

fn sum(a: u64, b: u64) -> u64 {
    (f64::from_bits(a) + f64::from_bits(b)).to_bits()
}

fn address(text: &'static str) -> &'static str {
    text
}

#[test]
fn network_should_not_panic_when_wrong_in_data() {
    let mut sessions: NetworkSessions<&str> = NetworkSessions::new();
    let mut rooms = Rooms::new();
    let outcome = sessions.on_frame(&mut rooms, None, None, address("127.0.0.1:5002"), &sum);
    assert_eq!(outcome, FrameOutcome::HeaderMissing);
}

#[test]
fn network_should_not_panic_when_wrong_user() {
    let mut sessions: NetworkSessions<&str> = NetworkSessions::new();
    let mut rooms = Rooms::new();
    let id = MemberAndRoomId { member_id: 0, room_id: 0 };
    let outcome = sessions.on_frame(&mut rooms, Some(id), Some((0, vec![])), address("127.0.0.1:5002"), &sum);
    assert_eq!(outcome, FrameOutcome::SessionNotFound);
}

#[test]
fn network_should_not_panic_when_missing_user_header() {
    let mut sessions: NetworkSessions<&str> = NetworkSessions::new();
    let mut rooms = Rooms::new();
    let outcome = sessions.on_frame(&mut rooms, None, Some((0, vec![])), address("127.0.0.1:5002"), &sum);
    assert_eq!(outcome, FrameOutcome::HeaderMissing);
}

#[test]
fn network_should_keep_address_from_last_frame() {
    let mut sessions: NetworkSessions<&str> = NetworkSessions::new();
    let mut rooms = Rooms::new();
    sessions.register_user(0, 100, [0; 32]);
    let id = MemberAndRoomId { member_id: 100, room_id: 0 };
    let addr_1 = address("127.0.0.1:5002");
    let addr_2 = address("127.0.0.1:5003");
    assert_eq!(sessions.on_frame(&mut rooms, Some(id), Some((100, vec![])), addr_1, &sum), FrameOutcome::Executed);
    assert_eq!(sessions.on_frame(&mut rooms, Some(id), Some((10, vec![])), addr_2, &sum), FrameOutcome::Executed);
    assert_eq!(sessions.sessions[0].1.peer.peer_address, Some(addr_1));
}

#[test]
fn undecodable_frame_changes_nothing() {
    let mut sessions: NetworkSessions<u8> = NetworkSessions::new();
    let mut rooms = Rooms::new();
    sessions.register_user(1, 2, [7; 32]);
    let id = MemberAndRoomId { member_id: 2, room_id: 1 };
    assert_eq!(sessions.private_key(&id), Some([7; 32]));
    assert_eq!(sessions.private_key(&MemberAndRoomId { member_id: 3, room_id: 1 }), None);
    assert_eq!(sessions.on_frame(&mut rooms, Some(id), None, 9, &sum), FrameOutcome::Undecodable);
    assert_eq!(sessions.sessions[0].1.peer.peer_address, None);
}

#[test]
fn frames_reach_the_room_and_commands_go_back_to_addresses() {
    let groups = AccessGroups(1);
    let mut rooms = Rooms::new();
    let room_id = rooms.create_room(RoomTemplate::new());
    let user1 = rooms.register_user(room_id, UserTemplate::stub(groups)).unwrap();
    let user2 = rooms.register_user(room_id, UserTemplate::stub(groups)).unwrap();
    let mut sessions: NetworkSessions<u8> = NetworkSessions::new();
    sessions.register_user(room_id, user1, [1; 32]);
    sessions.register_user(room_id, user2, [2; 32]);
    let attach = || CommandWithChannel {
        channel: Channel::ReliableUnordered,
        both_direction_command: BothDirectionCommandOf::C2S(C2SCommand::AttachToRoom),
    };
    let id2 = MemberAndRoomId { member_id: user2, room_id };
    assert_eq!(sessions.on_frame(&mut rooms, Some(id2), Some((1, vec![attach()])), 22, &sum), FrameOutcome::Executed);
    let id1 = MemberAndRoomId { member_id: user1, room_id };
    let object_id = GameObjectId::new(1, GameObjectOwner::User(user1));
    let create = CommandWithChannel {
        channel: Channel::ReliableUnordered,
        both_direction_command: BothDirectionCommandOf::C2S(C2SCommand::Create(CreateGameObjectCommand {
            object_id,
            template: 1,
            access_groups: groups,
        })),
    };
    let created = CommandWithChannel {
        channel: Channel::ReliableUnordered,
        both_direction_command: BothDirectionCommandOf::C2S(C2SCommand::Created(CreatedGameObjectCommand { object_id })),
    };
    assert_eq!(sessions.on_frame(&mut rooms, Some(id1), Some((1, vec![attach(), create, created])), 11, &sum), FrameOutcome::Executed);

    let out = rooms.collect_out_commands();
    let destinations = sessions.destinations(out);
    assert_eq!(destinations.len(), 2);
    assert_eq!((destinations[0].0, destinations[0].1), (11, [1; 32]));
    assert!(destinations[0].2.is_empty());
    assert_eq!((destinations[1].0, destinations[1].1), (22, [2; 32]));
    assert_eq!(destinations[1].2.len(), 2);

    assert!(sessions.disconnected(&mut rooms, id1).is_ok());
    assert_eq!(sessions.sessions.len(), 1);
    assert!(!rooms.room_by_id[0].contains_object(&object_id));
    assert!(sessions.disconnected(&mut rooms, MemberAndRoomId { member_id: user1, room_id: room_id + 5 }).is_err());
}

#[test]
fn newer_frame_moves_the_address() {
    let mut session: PeerState<u32> = PeerState::new();
    session.on_frame_received(0, 1);
    assert_eq!(session.peer_address, Some(1));
    session.on_frame_received(0, 2);
    assert_eq!(session.peer_address, Some(2));
    session.on_frame_received(5, 3);
    session.on_frame_received(5, 4);
    assert_eq!(session.peer_address, Some(3));
    session.on_frame_received(6, 4);
    assert_eq!(session.peer_address, Some(4));
}

#[test]
fn cycle_statistics_keep_average_and_maximum() {
    let mut statistics = CycleStatistics::new();
    assert!(statistics.on_cycle(1));
    assert_eq!(statistics.avg_cycle_time, 1);
    assert!(!statistics.on_cycle(9));
    assert_eq!(statistics.avg_cycle_time, 5);
    assert_eq!(statistics.max_cycle_time, 9);
    assert!(!statistics.on_cycle(2));
    assert_eq!(statistics.avg_cycle_time, 3);
    assert_eq!(statistics.max_cycle_time, 9);
}

#[test]
fn registry_offers_its_relay() {
    let registry = RegistryService {
        relay_grpc_host: "grpc".to_string(),
        relay_grpc_port: 5001,
        relay_game_host: "game".to_string(),
        relay_game_port: 5555,
    };
    let relay = registry.find_free_relay();
    assert_eq!(relay.relay_grpc_host, "grpc");
    assert_eq!(relay.relay_grpc_port, 5555);
    assert_eq!(relay.relay_game_host, "game");
    assert_eq!(relay.relay_game_port, 5555);
}

#[test]
fn matchmaking_keeps_one_match_per_template() {
    let mut service = StubMatchmakingService::new();
    let template = "arena".to_string();
    assert!(service.find_match(&template).is_none());
    let created = CreatedMatch {
        id: 77,
        relay_grpc_host: "relay".to_string(),
        relay_grpc_port: 70_001,
        relay_game_host: "game".to_string(),
        relay_game_port: 5555,
    };
    let info = service.remember_match(template.clone(), created);
    assert_eq!(info.room_id, 77);
    assert_eq!(info.relay_grpc_port, 70_001u32 as u16);
    let found = service.find_match(&template).unwrap();
    assert_eq!(found.room_id, 77);
    assert_eq!(found.relay_game_host, "game");
    assert!(service.find_match(&"duel".to_string()).is_none());

    let response = StubMatchmakingService::ticket_response(AttachedUser { user_id: 3, private_key: vec![1, 2] }, &found);
    assert_eq!(response.user_id, 3);
    assert_eq!(response.private_key, vec![1, 2]);
    assert_eq!(response.room_id, 77);
    assert_eq!(response.relay_game_host, "game");
    assert_eq!(response.relay_game_port, 5555);
}

#[test]
fn agones_allocates_once_when_a_room_exists() {
    let mut cycle = AgonesCycle::new();
    assert!(!cycle.on_tick(0));
    assert!(!cycle.allocated);
    assert!(cycle.on_tick(1));
    assert!(cycle.allocated);
    assert!(!cycle.on_tick(2));
    assert!(cycle.allocated);
}

#[test]
fn registered_user_gets_a_network_session_and_a_refused_one_does_not() {
    let mut sessions: NetworkSessions<&str> = NetworkSessions::new();
    let mut rooms = Rooms::new();
    let room_id = match sessions.serve_request(&mut rooms, ManagementRequest::RegisterRoom(RoomTemplate::new())) {
        ManagementAnswer::RoomRegistered(id) => id,
        other => panic!("{:?}", other),
    };
    assert!(sessions.sessions.is_empty());
    let mut template = UserTemplate::stub(AccessGroups(1));
    template.private_key = [7; 32];
    let member_id = match sessions.serve_request(&mut rooms, ManagementRequest::RegisterUser(room_id, template)) {
        ManagementAnswer::UserRegistered(Ok(id)) => id,
        other => panic!("{:?}", other),
    };
    let key = MemberAndRoomId { member_id, room_id };
    assert_eq!(sessions.private_key(&key), Some([7; 32]));
    assert_eq!(sessions.sessions.len(), 1);
    let answer = sessions.serve_request(&mut rooms, ManagementRequest::RegisterUser(room_id + 100, UserTemplate::stub(AccessGroups(1))));
    assert!(matches!(answer, ManagementAnswer::UserRegistered(Err(_))));
    assert_eq!(sessions.sessions.len(), 1);
    assert!(matches!(sessions.serve_request(&mut rooms, ManagementRequest::GetRooms), ManagementAnswer::Rooms(ids) if ids == vec![room_id]));
    assert_eq!(sessions.sessions.len(), 1);
}

fn created_match(id: u64) -> CreatedMatch {
    CreatedMatch {
        id,
        relay_grpc_host: "relay".to_string(),
        relay_grpc_port: 7000,
        relay_game_host: "game".to_string(),
        relay_game_port: 5555,
    }
}

#[test]
fn find_or_create_match_asks_the_factory_once_per_template() {
    let mut service = StubMatchmakingService::new();
    let template = "arena".to_string();
    assert!(service.find_or_create_match(template.clone(), None).is_none());
    assert!(service.matches.is_empty());
    let first = service.find_or_create_match(template.clone(), Some(created_match(10))).unwrap();
    assert_eq!(first.room_id, 10);
    assert_eq!(first.relay_grpc_port, 7000);
    let second = service.find_or_create_match(template.clone(), None).unwrap();
    assert_eq!(second.room_id, 10);
    let third = service.find_or_create_match(template, Some(created_match(11))).unwrap();
    assert_eq!(third.room_id, 10);
    assert_eq!(service.matches.len(), 1);
    let other = service.find_or_create_match("duel".to_string(), Some(created_match(12))).unwrap();
    assert_eq!(other.room_id, 12);
    assert_eq!(service.matches.len(), 2);
}

#[test]
fn run_of_requests_gets_one_answer_each_and_stops_before_one_that_cannot_be_served() {
    let mut sessions: NetworkSessions<&str> = NetworkSessions::new();
    let mut rooms = Rooms::new();
    let answers = sessions.serve_requests(
        &mut rooms,
        vec![ManagementRequest::RegisterRoom(RoomTemplate::new()), ManagementRequest::GetRooms],
    );
    assert_eq!(answers.len(), 2);
    let room_id = match &answers[0] {
        ManagementAnswer::RoomRegistered(id) => *id,
        other => panic!("{:?}", other),
    };
    assert!(matches!(&answers[1], ManagementAnswer::Rooms(ids) if ids == &vec![room_id]));
    let task = cheetah_matches_relay::debug::tracer::sessions::CommandTracerSessionsTask::SetFilter(0, "(aé)".to_string());
    let answers = sessions.serve_requests(
        &mut rooms,
        vec![
            ManagementRequest::RegisterUser(room_id, UserTemplate::stub(AccessGroups(1))),
            ManagementRequest::CommandTracerSessionTask(room_id, task),
            ManagementRequest::GetRooms,
        ],
    );
    assert_eq!(answers.len(), 1);
    assert!(matches!(&answers[0], ManagementAnswer::UserRegistered(Ok(_))));
    assert_eq!(sessions.sessions.len(), 1);
}
