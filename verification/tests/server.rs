use steamp2p::message::MsgClientDataBroadcast;
use steamp2p::server_session::AuthAdmission;
use steamp2p::server_session::ConnectDecision;
use steamp2p::server_session::EServerGameState;
use steamp2p::server_session::EServerMode;
use steamp2p::server_session::NetConnectionEnd;
use steamp2p::server_session::ServerAction;
use steamp2p::server_session::ServerOutbound;
use steamp2p::server_session::ServerSession;

fn open_server(max_players: u8) -> ServerSession {
    let mut s = ServerSession::new();
    s.initialize(
        String::from("game"),
        0,
        1,
        2,
        3,
        EServerMode::EServerModeAuthentication,
        String::from("1.0.0.0"),
    );
    s.set_max_player(max_players);
    s.set_server_name(String::from("arena"));
    s.set_lobby_id(1000);
    assert!(s.open(900));
    assert_eq!(s.game_state, EServerGameState::KEserverWaitingForPlayers);
    s
}

/// Runs one participant through connect, hello and begin-authentication.
fn enroll(s: &mut ServerSession, identity: u64, connection: u32) {
    assert_eq!(s.on_connecting(identity), ConnectDecision::Accept);
    let info = s.on_connected(identity, connection).expect("a pending record gets the hello");
    assert_eq!(info.ul_steam_idserver, 900);
    assert_eq!(info.rgch_server_name, "arena");
    assert_eq!(s.on_client_begin_authentication(identity, 50), AuthAdmission::Validate);
}

/// Delivers a successful validation outcome for `identity`.
fn validate_ok(s: &mut ServerSession, identity: u64, now: i64) -> (Vec<ServerAction>, bool) {
    let idx = s.find_pending_auth(identity).expect("a validation is in flight");
    s.on_auth_completed(true, idx, now)
}

#[test]
fn two_player_session_assigns_slots_and_fires_the_barrier_once() {
    // 2-player session: both clients connect, both send valid tickets,
    // both validations succeed. Both receive ServerPassAuthentication
    // with positions 0 and 1 respectively, then both receive exactly one
    // ServerAllReadyToGo.
    let mut s = open_server(2);
    enroll(&mut s, 100, 1);
    enroll(&mut s, 200, 2);

    let (a1, ready1) = validate_ok(&mut s, 100, 60);
    assert!(!ready1);
    assert_eq!(
        a1,
        vec![ServerAction::Send {
            connection: 1,
            message: ServerOutbound::PassAuthentication(0),
        }]
    );

    let (a2, ready2) = validate_ok(&mut s, 200, 61);
    assert!(ready2);
    assert_eq!(a2.len(), 2);
    assert_eq!(
        a2[0],
        ServerAction::Send { connection: 2, message: ServerOutbound::PassAuthentication(1) }
    );
    assert_eq!(
        a2[1],
        ServerAction::BroadcastTo {
            connections: vec![1, 2],
            message: ServerOutbound::AllReadyToGo,
        }
    );
    assert_eq!(s.game_state, EServerGameState::KEserverActive);
    assert_eq!(s.rg_client_data.len(), 2);
}

#[test]
fn the_ready_barrier_never_fires_twice() {
    let mut s = open_server(2);
    enroll(&mut s, 100, 1);
    enroll(&mut s, 200, 2);
    let (_, r1) = validate_ok(&mut s, 100, 60);
    let (_, r2) = validate_ok(&mut s, 200, 61);
    assert!(!r1 && r2);

    // One participant leaves and a new one fills the session again: the
    // barrier does not fire a second time.
    assert_eq!(s.on_disconnected(100), Some(1));
    assert_eq!(s.rg_client_data.len(), 1);
    enroll(&mut s, 300, 3);
    let (a3, r3) = validate_ok(&mut s, 300, 70);
    assert!(!r3);
    assert_eq!(a3.len(), 1);
    assert!(matches!(
        a3[0],
        ServerAction::Send { message: ServerOutbound::PassAuthentication(_), .. }
    ));
    assert_eq!(s.rg_client_data.len(), 2);
}

#[test]
fn one_slot_server_rejects_the_second_connection_attempt() {
    // max_players = 1: two connection attempts arrive before either
    // authenticates; the second is rejected with a capacity reason and
    // the first proceeds normally.
    let mut s = open_server(1);
    assert_eq!(s.on_connecting(100), ConnectDecision::Accept);
    assert_eq!(s.on_connecting(200), ConnectDecision::RejectFull);

    s.on_connected(100, 1).expect("the first proceeds");
    assert_eq!(s.on_client_begin_authentication(100, 50), AuthAdmission::Validate);
    let (a, ready) = validate_ok(&mut s, 100, 60);
    assert!(ready);
    assert_eq!(
        a[0],
        ServerAction::Send { connection: 1, message: ServerOutbound::PassAuthentication(0) }
    );
    assert_eq!(s.rg_client_data.len(), 1);
}

#[test]
fn authenticating_beyond_capacity_closes_instead_of_admitting() {
    // With every slot taken or spoken for, a further authentication
    // attempt ends in connection closure, never admission.
    let mut s = open_server(1);
    enroll(&mut s, 100, 1);
    let (_, ready) = validate_ok(&mut s, 100, 60);
    assert!(ready);
    assert_eq!(s.rg_client_data.len(), 1);

    // With the slot-holder active the pending list is free again, so a
    // newcomer can connect - but authenticating it must evict, not admit.
    assert_eq!(s.on_connecting(200), ConnectDecision::Accept);
    s.on_connected(200, 2).expect("transport handshake completes");
    let d = s.on_client_begin_authentication(200, 70);
    assert_eq!(d, AuthAdmission::EvictedFull { connection: 2 });
    assert_eq!(s.rg_client_data.len(), 1);
    assert_eq!(s.rg_pending_client_data.len(), 0);
}

#[test]
fn duplicate_identities_are_rejected() {
    let mut s = open_server(2);
    assert_eq!(s.on_connecting(100), ConnectDecision::Accept);
    assert_eq!(s.on_connecting(100), ConnectDecision::RejectDuplicate);
    s.on_connected(100, 1).unwrap();
    assert_eq!(s.on_client_begin_authentication(100, 50), AuthAdmission::Validate);
    let _ = validate_ok(&mut s, 100, 60);
    // Active identities cannot connect again either.
    assert_eq!(s.on_connecting(100), ConnectDecision::RejectDuplicate);
    assert_eq!(s.on_client_begin_authentication(100, 70), AuthAdmission::AlreadyActive);
}

#[test]
fn failed_validation_sends_fail_then_closes() {
    let mut s = open_server(2);
    enroll(&mut s, 100, 1);
    let idx = s.find_pending_auth(100).unwrap();
    let (a, ready) = s.on_auth_completed(false, idx, 60);
    assert!(!ready);
    assert_eq!(
        a,
        vec![
            ServerAction::EndAuthSession { identity: 100 },
            ServerAction::Send { connection: 1, message: ServerOutbound::FailAuthentication },
            ServerAction::CloseConnection {
                connection: 1,
                end: NetConnectionEnd::AppException,
            },
        ]
    );
    assert_eq!(s.rg_client_data.len(), 0);
    assert_eq!(s.rg_pending_client_data.len(), 0);
}

#[test]
fn a_connected_event_without_a_pending_record_is_refused() {
    let mut s = open_server(2);
    assert_eq!(s.on_connected(100, 1), None);
}

#[test]
fn frame_data_from_strangers_is_dropped() {
    let mut s = open_server(2);
    enroll(&mut s, 100, 1);
    let _ = validate_ok(&mut s, 100, 60);
    assert!(s.on_client_frame_data(3, vec![1, 2], 100));
    assert!(!s.on_client_frame_data(3, vec![1, 2], 999));
    assert!(!s.on_client_games_data(vec![1], 999));
}

#[test]
fn load_complete_broadcasts_the_start_payload_exactly_once() {
    let mut s = open_server(2);
    enroll(&mut s, 100, 1);
    enroll(&mut s, 200, 2);
    let _ = validate_ok(&mut s, 100, 60);
    let _ = validate_ok(&mut s, 200, 61);

    assert!(s.on_client_games_data(vec![1, 2, 3], 100));
    assert!(s.on_client_games_data(vec![9, 9], 200));

    assert_eq!(s.on_client_load_complete(100), None);
    let act = s.on_client_load_complete(200).expect("all loaded: the start payload goes out");
    match act {
        ServerAction::BroadcastTo { connections, message } => {
            assert_eq!(connections, vec![1, 2]);
            match message {
                ServerOutbound::GameStart(m) => {
                    assert_eq!(m.buffer_size, 5);
                    assert_eq!(m.game_data.len(), 2);
                    assert_eq!(m.game_data[0].local_steam_id, 100);
                    assert_eq!(m.game_data[0].data, vec![1, 2, 3]);
                    assert_eq!(m.game_data[1].local_steam_id, 200);
                    assert_eq!(m.game_data[1].data, vec![9, 9]);
                },
                other => panic!("expected a game start, got {:?}", other),
            }
        },
        other => panic!("expected a broadcast, got {:?}", other),
    }

    // The payload is consumed: later reports change nothing.
    assert_eq!(s.on_client_load_complete(100), None);
    assert!(!s.on_client_games_data(vec![5], 100));
}

#[test]
fn snapshots_drain_the_table_and_number_frames() {
    let mut s = open_server(2);
    enroll(&mut s, 100, 1);
    let _ = validate_ok(&mut s, 100, 60);
    assert!(s.on_client_frame_data(3, vec![1], 100));
    assert!(s.on_client_frame_data(3, vec![2, 2], 100));
    assert!(s.on_client_frame_data(4, vec![7], 100));

    let act = s.build_frames_snapshot().expect("there is data to flush");
    match act {
        ServerAction::BroadcastTo { connections, message } => {
            assert_eq!(connections, vec![1]);
            match message {
                ServerOutbound::FramesData(m) => {
                    assert_eq!(m.frame_id, 0);
                    assert_eq!(m.buffer_size, 3);
                    assert_eq!(m.game_data.len(), 2);
                    // latest value per channel, in first-submission order
                    assert_eq!(m.game_data[0].types, 3);
                    assert_eq!(m.game_data[0].data, vec![2, 2]);
                    assert_eq!(m.game_data[1].types, 4);
                    assert_eq!(m.game_data[1].data, vec![7]);
                },
                other => panic!("expected a snapshot, got {:?}", other),
            }
        },
        other => panic!("expected a broadcast, got {:?}", other),
    }
    // The table is drained: no snapshot until new data arrives.
    assert!(s.build_frames_snapshot().is_none());
    assert!(s.on_client_frame_data(3, vec![5], 100));
    match s.build_frames_snapshot().expect("new data, new snapshot") {
        ServerAction::BroadcastTo { message: ServerOutbound::FramesData(m), .. } => {
            assert_eq!(m.frame_id, 1);
        },
        other => panic!("expected a snapshot, got {:?}", other),
    }
}

#[test]
fn client_broadcast_is_relayed_to_every_participant() {
    let mut s = open_server(2);
    enroll(&mut s, 100, 1);
    enroll(&mut s, 200, 2);
    let _ = validate_ok(&mut s, 100, 60);
    let _ = validate_ok(&mut s, 200, 61);
    let act = s.on_client_broadcast(MsgClientDataBroadcast {
        types: 0,
        data: vec![1, 2, 3],
        local_steam_id: 100,
    });
    match act {
        ServerAction::BroadcastTo { connections, message } => {
            assert_eq!(connections, vec![1, 2]);
            match message {
                ServerOutbound::Broadcast(m) => {
                    assert_eq!(m.data, vec![1, 2, 3]);
                    assert_eq!(m.local_steam_id, 100);
                },
                other => panic!("expected a relay, got {:?}", other),
            }
        },
        other => panic!("expected a broadcast, got {:?}", other),
    }
}

#[test]
fn open_refuses_a_misconfigured_or_reopened_server() {
    let mut s = ServerSession::new();
    s.set_max_player(2);
    assert!(!s.open(900)); // no lobby
    s.set_lobby_id(1000);
    assert!(s.open(900));
    assert!(!s.open(901)); // already open
    assert_eq!(s.get_server_steam_id(), 900);
    assert_eq!(s.get_lobby_id(), 1000);
}

#[test]
fn platform_events_toggle_the_backend_state() {
    let mut s = ServerSession::new();
    assert!(!s.is_connected_to_steam());
    assert_eq!(s.on_servers_connected(), 1);
    assert!(s.is_connected_to_steam());
    s.on_servers_disconnected();
    assert!(!s.is_connected_to_steam());
    assert_eq!(s.on_servers_connected(), 2);
    s.on_servers_connect_failure();
    assert!(!s.is_connected_to_steam());
    assert!(!s.is_policy_response_callback());
    s.on_gspolicy_response(1);
    assert!(s.is_policy_response_callback());
    assert!(s.vac_secure);
}

#[test]
fn begin_authentication_without_a_pending_record_is_ignored() {
    let mut s = open_server(2);
    assert_eq!(s.on_client_begin_authentication(999, 50), AuthAdmission::NoPending);
    assert_eq!(s.rg_pending_client_data.len(), 0);
}

#[test]
fn eviction_of_a_half_connected_record_has_nothing_to_close() {
    let mut s = open_server(1);
    enroll(&mut s, 100, 1);
    let (_, ready) = validate_ok(&mut s, 100, 60);
    assert!(ready);
    // A newcomer is accepted at the transport level but authenticates
    // before its handshake completes: its record holds no connection.
    assert_eq!(s.on_connecting(200), ConnectDecision::Accept);
    let d = s.on_client_begin_authentication(200, 70);
    assert_eq!(d, AuthAdmission::EvictedFullNoConnection);
    assert_eq!(s.rg_pending_client_data.len(), 0);
}
