use bevygap::deployment::{DeployOutcome, RequestFailure, ServiceFault, ServiceReply};
use bevygap::lobby::{
    clamp_players, CreateRoomRequest, DeploymentError, JoinRoomRequest, LeaveRoomRequest,
    LobbyError, LobbyRoom, LobbyStore,
};

fn request(host: &str, mode: &str, max_players: Option<u32>) -> CreateRoomRequest {
    CreateRoomRequest {
        host_name: host.to_string(),
        game_mode: mode.to_string(),
        max_players,
    }
}

fn join() -> JoinRoomRequest {
    JoinRoomRequest { player_name: None }
}

fn leave() -> LeaveRoomRequest {
    LeaveRoomRequest { player_name: Some("TestPlayer".to_string()) }
}

fn ready_reply() -> DeployOutcome {
    let body = "{\"session_id\":\"s-1\",\"gameserver_ip\":\"10.0.0.7\",\"gameserver_port\":7777,\"connect_token\":\"tok\"}";
    DeployOutcome::Replied(ServiceReply { fault: None, payload: body.as_bytes().to_vec() })
}

fn ids(rooms: &Vec<LobbyRoom>) -> Vec<String> {
    rooms.iter().map(|room| room.id.clone()).collect()
}

#[test]
fn test_lobby_status() {
    let store = LobbyStore::new(10);
    let status = store.lobby_status();
    assert_eq!(status.max_rooms, 10);
    assert_eq!(status.active_rooms, 0);
    assert_eq!(status.total_rooms, 0);
}

#[test]
fn test_list_empty_rooms() {
    let store = LobbyStore::new(10);
    let rooms = store.list_rooms();
    assert_eq!(rooms.len(), 0);
}

#[test]
fn created_room_carries_the_time_of_the_clock() {
    let mut store = LobbyStore::new(10);
    let before = std::time::SystemTime::now()
        .duration_since(std::time::UNIX_EPOCH)
        .unwrap()
        .as_secs();
    let room = store.create_room(request("TestHost", "FreeForAll", None)).unwrap();
    assert!(room.created_at >= before);
    assert!(room.created_at <= before + 60);
}

#[test]
fn test_create_room() {
    let mut store = LobbyStore::new(10);
    let room = store.create_room(request("TestHost", "FreeForAll", Some(4))).unwrap();
    assert_eq!(room.host_name, "TestHost");
    assert_eq!(room.game_mode, "FreeForAll");
    assert_eq!(room.max_players, 4);
    assert_eq!(room.current_players, 1);
    assert_eq!(room.started, false);
    assert!(room.id.starts_with("ROOM"));
}

#[test]
fn test_start_room_not_found() {
    let mut store = LobbyStore::new(10);
    let refusal = store.check_startable("NONEXISTENT").unwrap_err();
    assert_eq!(refusal, LobbyError::NotFound);
    assert_eq!(refusal.status_code(), 404);
    let late = store.finish_start("NONEXISTENT", &ready_reply()).unwrap_err();
    assert_eq!(late.status_code(), 404);
    assert_eq!(store.lobby_status().total_rooms, 0);
}

#[test]
fn test_leave_room_not_found() {
    let mut store = LobbyStore::new(10);
    let refusal = store.leave_room("NONEXISTENT", &leave()).unwrap_err();
    assert_eq!(refusal.status_code(), 404);
    assert_eq!(refusal.message(), "room not found");
}

#[test]
fn test_full_lobby_workflow() {
    let mut store = LobbyStore::new(10);
    assert_eq!(store.lobby_status().active_rooms, 0);

    let created = store.create_room(request("WorkflowHost", "Capture", Some(6))).unwrap();
    assert_eq!(created.current_players, 1);
    assert_eq!(created.started, false);
    assert_eq!(created.max_players, 6);
    let room_id = created.id.clone();

    let rooms = store.list_rooms();
    assert_eq!(rooms.len(), 1);
    assert_eq!(rooms[0].id, room_id);

    assert_eq!(store.check_startable(&room_id), Ok(()));
    let outcome = ready_reply();
    let started = store.finish_start(&room_id, &outcome).unwrap();
    assert_eq!(started.started, true);
    assert_eq!(started.id, room_id);

    let rooms = store.list_rooms();
    assert_eq!(rooms.len(), 0);
    let status = store.lobby_status();
    assert_eq!(status.active_rooms, 0);
    assert_eq!(status.total_rooms, 1);
}

#[test]
fn test_max_rooms_limit() {
    let mut store = LobbyStore::new(10);
    for i in 1..=10 {
        let outcome = store.create_room(request(&format!("Host{}", i), "Test", Some(4)));
        assert!(outcome.is_ok());
    }
    let refusal = store.create_room(request("TooManyHost", "Test", Some(4))).unwrap_err();
    assert_eq!(refusal, LobbyError::CapacityExceeded { max_rooms: 10 });
    assert_eq!(refusal.status_code(), 429);
    assert_eq!(refusal.message(), "maximum active rooms reached (10)");
    let status = store.lobby_status();
    assert_eq!(status.active_rooms, 10);
    assert_eq!(status.total_rooms, 10);
}

#[test]
fn rooms_are_numbered_in_three_digits() {
    let mut store = LobbyStore::new(200);
    let first = store.create_room_at(request("a", "m", None), 10).unwrap();
    assert_eq!(first.id, "ROOM001");
    let second = store.create_room_at(request("b", "m", None), 11).unwrap();
    assert_eq!(second.id, "ROOM002");
    for n in 3..=99 {
        store.create_room_at(request("c", "m", None), n).unwrap();
    }
    let hundredth = store.create_room_at(request("d", "m", None), 100).unwrap();
    assert_eq!(hundredth.id, "ROOM100");
    assert_eq!(store.lobby_status().total_rooms, 100);
}

#[test]
fn created_room_has_the_given_time_and_no_session() {
    let mut store = LobbyStore::new(3);
    let room = store.create_room_at(request("Host", "Duel", Some(2)), 1_700_000_000).unwrap();
    assert_eq!(room.created_at, 1_700_000_000);
    assert_eq!(room.session_info, None);
    assert_eq!(store.get_room("ROOM001"), Some(room));
    assert_eq!(store.get_room("ROOM002"), None);
}

#[test]
fn player_limit_is_clamped() {
    assert_eq!(clamp_players(None), 4);
    assert_eq!(clamp_players(Some(0)), 1);
    assert_eq!(clamp_players(Some(1)), 1);
    assert_eq!(clamp_players(Some(16)), 16);
    assert_eq!(clamp_players(Some(17)), 16);
    assert_eq!(clamp_players(Some(u32::MAX)), 16);
    let mut store = LobbyStore::new(3);
    assert_eq!(store.create_room(request("a", "m", Some(0))).unwrap().max_players, 1);
    assert_eq!(store.create_room(request("a", "m", Some(99))).unwrap().max_players, 16);
    assert_eq!(store.create_room(request("a", "m", None)).unwrap().max_players, 4);
}

#[test]
fn refused_creation_leaves_the_store_alone() {
    let mut store = LobbyStore::new(1);
    let kept = store.create_room_at(request("a", "m", None), 5).unwrap();
    let refusal = store.create_room_at(request("b", "m", None), 6).unwrap_err();
    assert_eq!(refusal, LobbyError::CapacityExceeded { max_rooms: 1 });
    assert_eq!(store.list_rooms(), vec![kept]);
    let empty = LobbyStore::new(0).create_room(request("a", "m", None));
    assert_eq!(empty, Err(LobbyError::CapacityExceeded { max_rooms: 0 }));
}

#[test]
fn started_rooms_do_not_count_against_the_capacity() {
    let mut store = LobbyStore::new(1);
    let first = store.create_room_at(request("a", "m", None), 5).unwrap();
    store.finish_start(&first.id, &ready_reply()).unwrap();
    let second = store.create_room_at(request("b", "m", None), 6).unwrap();
    assert_eq!(second.id, "ROOM002");
    let status = store.lobby_status();
    assert_eq!((status.active_rooms, status.total_rooms), (1, 2));
}

#[test]
fn join_counts_players_until_the_room_is_full() {
    let mut store = LobbyStore::new(3);
    let room = store.create_room_at(request("a", "m", Some(3)), 5).unwrap();
    assert_eq!(store.join_room(&room.id, &join()).unwrap().current_players, 2);
    assert_eq!(store.join_room(&room.id, &join()).unwrap().current_players, 3);
    let before = store.get_room(&room.id).unwrap();
    let refusal = store.join_room(&room.id, &join()).unwrap_err();
    assert_eq!(refusal, LobbyError::Full);
    assert_eq!(refusal.status_code(), 409);
    assert_eq!(refusal.message(), "room full");
    assert_eq!(store.get_room(&room.id).unwrap(), before);
    assert_eq!(before.current_players, 3);
}

#[test]
fn join_is_refused_for_missing_and_started_rooms() {
    let mut store = LobbyStore::new(3);
    assert_eq!(store.join_room("ROOM001", &join()), Err(LobbyError::NotFound));
    let room = store.create_room_at(request("a", "m", Some(3)), 5).unwrap();
    store.finish_start(&room.id, &ready_reply()).unwrap();
    let refusal = store.join_room(&room.id, &join()).unwrap_err();
    assert_eq!(refusal, LobbyError::AlreadyStarted);
    assert_eq!(refusal.status_code(), 409);
    assert_eq!(refusal.message(), "room already started");
    assert_eq!(store.get_room(&room.id).unwrap().current_players, 1);
}

#[test]
fn last_player_leaving_removes_a_waiting_room() {
    let mut store = LobbyStore::new(3);
    let room = store.create_room_at(request("a", "m", Some(3)), 5).unwrap();
    store.join_room(&room.id, &join()).unwrap();
    assert_eq!(store.leave_room(&room.id, &leave()), Ok(()));
    assert_eq!(store.get_room(&room.id).unwrap().current_players, 1);
    assert_eq!(store.leave_room(&room.id, &leave()), Ok(()));
    assert_eq!(store.get_room(&room.id), None);
    assert_eq!(store.list_rooms().len(), 0);
    assert_eq!(store.lobby_status().total_rooms, 0);
    assert_eq!(store.leave_room(&room.id, &leave()), Err(LobbyError::NotFound));
}

#[test]
fn started_room_stays_when_its_players_leave() {
    let mut store = LobbyStore::new(3);
    let room = store.create_room_at(request("a", "m", Some(3)), 5).unwrap();
    store.finish_start(&room.id, &ready_reply()).unwrap();
    assert_eq!(store.leave_room(&room.id, &leave()), Ok(()));
    let kept = store.get_room(&room.id).unwrap();
    assert_eq!(kept.current_players, 0);
    assert!(kept.started);
    assert_eq!(store.leave_room(&room.id, &leave()), Ok(()));
    assert_eq!(store.get_room(&room.id).unwrap().current_players, 0);
}

#[test]
fn new_room_takes_the_place_of_a_room_with_its_id() {
    let mut store = LobbyStore::new(5);
    let first = store.create_room_at(request("a", "m", None), 1).unwrap();
    let second = store.create_room_at(request("b", "m", None), 2).unwrap();
    store.join_room(&second.id, &join()).unwrap();
    store.leave_room(&first.id, &leave()).unwrap();
    let third = store.create_room_at(request("c", "m", None), 3).unwrap();
    assert_eq!(third.id, "ROOM002");
    assert_eq!(store.lobby_status().total_rooms, 1);
    let kept = store.get_room("ROOM002").unwrap();
    assert_eq!(kept.host_name, "c");
    assert_eq!(kept.current_players, 1);
}

#[test]
fn listing_is_oldest_first_and_skips_started_rooms() {
    let mut store = LobbyStore::new(10);
    let a = store.create_room_at(request("a", "m", None), 30).unwrap();
    let b = store.create_room_at(request("b", "m", None), 10).unwrap();
    let c = store.create_room_at(request("c", "m", None), 20).unwrap();
    let d = store.create_room_at(request("d", "m", None), 10).unwrap();
    assert_eq!(ids(&store.list_rooms()), vec![b.id.clone(), d.id.clone(), c.id.clone(), a.id.clone()]);
    store.finish_start(&c.id, &ready_reply()).unwrap();
    let listed = store.list_rooms();
    assert_eq!(ids(&listed), vec![b.id, d.id, a.id]);
    assert!(listed.iter().all(|room| !room.started));
}

#[test]
fn start_begins_with_the_deployment_request() {
    let mut store = LobbyStore::new(3);
    let room = store.create_room_at(request("a", "m", None), 5).unwrap();
    let call = store.begin_start(&room.id, "81.128.1.1").unwrap();
    assert_eq!(call.subject, "session.gensession");
    assert_eq!(
        call.payload,
        "{\"client_ip\":\"81.128.1.1\", \"room_id\":\"ROOM001\", \"game\":\"lobby-room\"}"
    );
    assert_eq!(call.timeout_secs, 60);
    assert_eq!(store.begin_start("ROOM009", "81.128.1.1"), Err(LobbyError::NotFound));
    store.finish_start(&room.id, &ready_reply()).unwrap();
    assert_eq!(store.begin_start(&room.id, "81.128.1.1"), Err(LobbyError::AlreadyStarted));
}

#[test]
fn start_is_refused_for_a_started_room() {
    let mut store = LobbyStore::new(3);
    let room = store.create_room_at(request("a", "m", None), 5).unwrap();
    assert_eq!(store.check_startable(&room.id), Ok(()));
    store.finish_start(&room.id, &ready_reply()).unwrap();
    let before = store.get_room(&room.id).unwrap();
    let refusal = store.check_startable(&room.id).unwrap_err();
    assert_eq!(refusal, LobbyError::AlreadyStarted);
    assert_eq!(refusal.status_code(), 409);
    assert_eq!(store.get_room(&room.id).unwrap(), before);
}

#[test]
fn successful_deployment_is_recorded() {
    let mut store = LobbyStore::new(3);
    let room = store.create_room_at(request("a", "m", None), 5).unwrap();
    let started = store.finish_start(&room.id, &ready_reply()).unwrap();
    let info = started.session_info.clone().unwrap();
    assert_eq!(info.session_id.as_deref(), Some("s-1"));
    assert_eq!(info.game_server_ip.as_deref(), Some("10.0.0.7"));
    assert_eq!(info.game_server_port, Some(7777));
    assert_eq!(info.connect_token.as_deref(), Some("tok"));
    assert_eq!(info.deployment_status, "Ready");
    assert_eq!(store.get_room(&room.id), Some(started));
}

#[test]
fn failed_request_keeps_the_room_waiting() {
    let cases = [
        (RequestFailure::TimedOut, DeploymentError::Timeout, 408, "Deployment request timeout"),
        (
            RequestFailure::NoResponders,
            DeploymentError::NoResponders,
            503,
            "No deployment service available",
        ),
        (RequestFailure::Other, DeploymentError::Other, 500, "Deployment service error"),
    ];
    for (failure, error, status, text) in cases {
        let mut store = LobbyStore::new(3);
        let room = store.create_room_at(request("a", "m", None), 5).unwrap();
        let refusal = store.finish_start(&room.id, &DeployOutcome::Failed(failure)).unwrap_err();
        assert_eq!(refusal, LobbyError::Deployment(error));
        assert_eq!(refusal.status_code(), status);
        assert_eq!(refusal.message(), text);
        let kept = store.get_room(&room.id).unwrap();
        assert!(!kept.started);
        let info = kept.session_info.unwrap();
        assert_eq!(info.deployment_status, format!("Failed: {}", text));
        assert_eq!(info.session_id, None);
        assert_eq!(info.game_server_port, None);
        assert_eq!(store.list_rooms().len(), 1);
    }
}

#[test]
fn service_error_keeps_the_room_waiting() {
    let mut store = LobbyStore::new(3);
    let room = store.create_room_at(request("a", "m", None), 5).unwrap();
    let outcome = DeployOutcome::Replied(ServiceReply {
        fault: Some(ServiceFault { code: 418, description: "no capacity".to_string() }),
        payload: Vec::new(),
    });
    let refusal = store.finish_start(&room.id, &outcome).unwrap_err();
    assert_eq!(
        refusal,
        LobbyError::Deployment(DeploymentError::ServiceError {
            code: 418,
            message: "no capacity".to_string()
        })
    );
    assert_eq!(refusal.status_code(), 418);
    assert_eq!(refusal.message(), "Failed to deploy game server: no capacity");
    let kept = store.get_room(&room.id).unwrap();
    assert!(!kept.started);
    assert_eq!(kept.session_info.unwrap().deployment_status, "Failed: no capacity");
}

#[test]
fn default_store_allows_no_rooms() {
    let mut store = LobbyStore::default();
    assert_eq!(store.max_rooms(), 0);
    assert_eq!(store.lobby_status().total_rooms, 0);
    assert!(store.create_room(request("a", "m", None)).is_err());
}
