use steamp2p::client_session::ClientAction;
use steamp2p::client_session::ClientSession;
use steamp2p::client_session::ConnectionState;
use steamp2p::client_session::ServerMessage;
use steamp2p::client_session::SessionPhase;
use steamp2p::events::DurationControlOnlineState;
use steamp2p::events::LobbyGameCreated;
use steamp2p::message::MsgServerFrameData;
use steamp2p::message::MsgServerFramesData;
use steamp2p::message::MsgServerGameStart;
use steamp2p::message::MsgServerSendInfo;

fn connecting_client() -> ClientSession {
    let mut c = ClientSession::new();
    c.initialize(42);
    c.set_lobby_id(1000);
    let a = c.on_lobby_game_created(
        &LobbyGameCreated {
            ul_steam_idlobby: 1000,
            ul_steam_idgame_server: 77,
            un_ip: 0,
            us_port: 0,
        },
        10,
    );
    assert_eq!(a, Some(ClientAction::ConnectToServer(77)));
    c.set_connection(Some(5));
    c
}

fn server_info() -> MsgServerSendInfo {
    MsgServerSendInfo {
        ul_steam_idserver: 77,
        is_vacsecure: true,
        rgch_server_name: String::from("arena"),
    }
}

#[test]
fn server_info_starts_authentication_once() {
    let mut c = connecting_client();
    let a = c.handle_message(ServerMessage::SendInfo(server_info()), 20);
    assert_eq!(a, vec![ClientAction::BeginAuthentication]);
    assert_eq!(c.connected_status, ConnectionState::PendingAuthentication);
    assert!(c.ticket_outstanding);
    assert_eq!(c.steam_id_game_server, Some(77));
    assert_eq!(c.last_network_data_received_time, 20);

    // A duplicate introduction is silently dropped.
    let b = c.handle_message(ServerMessage::SendInfo(server_info()), 21);
    assert!(b.is_empty());
    assert_eq!(c.connected_status, ConnectionState::PendingAuthentication);
}

#[test]
fn fail_authentication_ends_not_connected_with_no_ticket() {
    // A client that receives ServerFailAuthentication always ends with
    // ConnectionState::NotConnected and no outstanding ticket.
    let mut c = connecting_client();
    c.handle_message(ServerMessage::SendInfo(server_info()), 20);
    assert!(c.ticket_outstanding);

    let a = c.handle_message(ServerMessage::FailAuthentication, 30);
    assert_eq!(c.connected_status, ConnectionState::NotConnected);
    assert!(!c.ticket_outstanding);
    assert_eq!(c.conn_server, None);
    assert_eq!(c.steam_id_game_server, None);
    assert_eq!(
        a,
        vec![
            ClientAction::CancelTicket,
            ClientAction::SetPresence(
                DurationControlOnlineState::DurationControlOnlineStateOffline
            ),
            ClientAction::CloseConnection,
        ]
    );
}

#[test]
fn pass_authentication_is_idempotent() {
    let mut c = connecting_client();
    c.handle_message(ServerMessage::SendInfo(server_info()), 20);
    let a = c.handle_message(ServerMessage::PassAuthentication(3), 30);
    assert_eq!(c.connected_status, ConnectionState::Authenticated);
    assert_eq!(c.player_index, 3);
    assert!(c.is_connected_to_server());
    assert_eq!(
        a,
        vec![
            ClientAction::SetPresence(
                DurationControlOnlineState::DurationControlOnlineStateOnlineHighPri
            ),
            ClientAction::NotifyConnected(3),
        ]
    );

    // Re-receiving the same position while authenticated is a no-op.
    let b = c.handle_message(ServerMessage::PassAuthentication(3), 31);
    assert!(b.is_empty());
    assert_eq!(c.player_index, 3);
}

#[test]
fn messages_before_connecting_are_dropped() {
    let mut c = ClientSession::new();
    c.initialize(42);
    assert_eq!(c.state, SessionPhase::InLobby);
    let before_status = c.connected_status;
    let a = c.handle_message(ServerMessage::SendInfo(server_info()), 20);
    assert!(a.is_empty());
    assert_eq!(c.connected_status, before_status);
    assert!(!c.ticket_outstanding);
}

#[test]
fn lobby_signal_outside_the_lobby_is_stale() {
    let mut c = ClientSession::new();
    assert_eq!(c.state, SessionPhase::Free);
    let a = c.on_lobby_game_created(
        &LobbyGameCreated { ul_steam_idlobby: 1, ul_steam_idgame_server: 2, un_ip: 0, us_port: 0 },
        5,
    );
    assert_eq!(a, None);
    assert_eq!(c.state, SessionPhase::Free);
}

#[test]
fn run_callback_connects_once_server_and_policy_are_up() {
    let mut c = ClientSession::new();
    c.initialize(42);
    c.set_lobby_id(1000);
    c.set_steam_id_game_server(77);
    let a = c.run_callback(true, true, 15);
    assert_eq!(
        a,
        vec![
            ClientAction::SetLobbyGameServer { lobby: 1000, server: 77 },
            ClientAction::ConnectToServer(77),
        ]
    );
    assert_eq!(c.state, SessionPhase::Connecting);

    // Without both platform signals nothing happens.
    let mut d = ClientSession::new();
    d.initialize(42);
    d.set_lobby_id(1000);
    d.set_steam_id_game_server(77);
    assert!(d.run_callback(true, false, 15).is_empty());
    assert_eq!(d.state, SessionPhase::InLobby);
}

#[test]
fn outbound_guards_refuse_empty_or_reserved() {
    let c = ClientSession::new();
    assert_eq!(c.send_frame_data(3, Vec::new()), None);
    assert_eq!(c.send_frame_data(0, vec![1]), None);
    let m = c.send_frame_data(3, vec![1, 2]).expect("a real update goes out");
    assert_eq!(m.types, 3);
    assert_eq!(m.data, vec![1, 2]);

    assert_eq!(c.set_game_data(Vec::new()), None);
    let g = c.set_game_data(vec![9]).expect("a start payload goes out");
    assert_eq!(g.types, 0);
    assert_eq!(g.data, vec![9]);

    assert_eq!(c.broadcast(Vec::new()), None);
    let b = c.broadcast(vec![4]).expect("a broadcast goes out");
    assert_eq!(b.data, vec![4]);
    assert_eq!(b.local_steam_id, 0);
}

#[test]
fn a_corrupt_snapshot_is_delivered_empty() {
    // A snapshot whose advertised size does not match its payloads is
    // reset to an empty buffer rather than forwarded malformed.
    let mut c = connecting_client();
    c.handle_message(ServerMessage::SendInfo(server_info()), 20);
    let a = c.handle_message(
        ServerMessage::FramesData(MsgServerFramesData {
            game_data: vec![MsgServerFrameData { types: 3, data: vec![1, 2, 3], local_steam_id: 9 }],
            buffer_size: 2,
            frame_id: 5,
        }),
        30,
    );
    assert_eq!(a.len(), 1);
    match &a[0] {
        ClientAction::DeliverUpdate { buffer, frame_id } => {
            assert_eq!(*frame_id, 5);
            assert!(buffer.bytes.is_empty());
            assert_eq!(buffer.entry_count, 0);
        },
        other => panic!("expected an update, got {:?}", other),
    }
}

#[test]
fn a_consistent_game_start_is_packed_for_delivery() {
    let mut c = connecting_client();
    c.handle_message(ServerMessage::SendInfo(server_info()), 20);
    let a = c.handle_message(
        ServerMessage::GameStart(MsgServerGameStart {
            game_data: vec![
                MsgServerFrameData { types: 0, data: vec![1, 2, 3], local_steam_id: 100 },
                MsgServerFrameData { types: 0, data: vec![9, 9], local_steam_id: 200 },
            ],
            buffer_size: 5,
        }),
        30,
    );
    assert_eq!(a.len(), 1);
    match &a[0] {
        ClientAction::DeliverGameStart { buffer } => {
            assert_eq!(buffer.entry_count, 2);
            assert_eq!(buffer.bytes, vec![3, 0, 1, 2, 3, 2, 0, 9, 9]);
        },
        other => panic!("expected a game start, got {:?}", other),
    }
}
