//! The client session state machine: one client's connect, authenticate
//! and play lifecycle.
//!
//! The machine owns no socket and no platform handle. The surrounding
//! loop hands it decoded messages and platform events together with the
//! current time, and performs the [`ClientAction`]s it returns: sending a
//! message, opening or closing the transport connection, issuing or
//! cancelling an authentication ticket, updating presence, or delivering
//! data to the application.

use crate::aggregator::frame_payloads;
use crate::aggregator::frames_consistent;
use crate::aggregator::pack_bytes;
use crate::aggregator::pack_frame_list;
use crate::aggregator::AggregatedBuffer;
use crate::events::DurationControlOnlineState;
use crate::events::LobbyGameCreated;
use crate::message::MsgClientDataBroadcast;
use crate::message::MsgClientFrameData;
use crate::message::MsgServerDataBroadcast;
use crate::message::MsgServerFramesData;
use crate::message::MsgServerGameStart;
use crate::message::MsgServerSendInfo;
use vstd::prelude::*;

verus! {

/// Where the client stands in the match-finding flow.
#[derive(Clone, Copy, Debug, PartialEq, Eq, Structural)]
pub enum SessionPhase {
    /// Idle: no match is being sought.
    Free,
    /// Waiting in a lobby for a server assignment.
    InLobby,
    /// A transport connection to a specific server is being established
    /// or is live.
    Connecting,
}

/// How far the handshake with the server has progressed. Forward-only,
/// except that any failure resets to `NotConnected`.
#[derive(Clone, Copy, Debug, PartialEq, Eq, Structural)]
pub enum ConnectionState {
    NotConnected,
    PendingAuthentication,
    Authenticated,
}

/// A decoded server-origin message, ready for dispatch.
#[derive(Clone, Debug, PartialEq)]
pub enum ServerMessage {
    SendInfo(MsgServerSendInfo),
    FailAuthentication,
    PassAuthentication(u32),
    AllReadyToGo,
    FramesData(MsgServerFramesData),
    GameStart(MsgServerGameStart),
    SetGameStartDataComplete,
    Broadcast(MsgServerDataBroadcast),
}

/// What the surrounding loop must do on the session's behalf.
#[derive(Clone, Debug, PartialEq)]
pub enum ClientAction {
    /// Issue an authentication ticket and send it to the server in a
    /// `MsgClientBeginAuthentication`.
    BeginAuthentication,
    /// Cancel the outstanding authentication ticket.
    CancelTicket,
    /// Report the play-session state to the platform's duration control.
    SetPresence(DurationControlOnlineState),
    /// Close the transport connection to the server.
    CloseConnection,
    /// Open a transport connection to this server identity.
    ConnectToServer(u64),
    /// Record the lobby's game server with matchmaking.
    SetLobbyGameServer { lobby: u64, server: u64 },
    /// Tell the application that authentication succeeded, with the
    /// assigned player slot.
    NotifyConnected(u32),
    /// Tell the application that every participant is ready.
    NotifyAllReadyToGo,
    /// Tell the application that its start payload was accepted.
    NotifyGameStartDataComplete,
    /// Hand the application a packed per-channel snapshot.
    DeliverUpdate { buffer: AggregatedBuffer, frame_id: u32 },
    /// Hand the application the packed one-shot start payload.
    DeliverGameStart { buffer: AggregatedBuffer },
    /// Hand the application a relayed broadcast.
    DeliverBroadcast { payload: Vec<u8>, sender: u64 },
}

/// One client's session state.
#[derive(Clone, Debug, PartialEq)]
pub struct ClientSession {
    pub state: SessionPhase,
    pub connected_status: ConnectionState,
    /// The player slot the server assigned at authentication.
    pub player_index: u32,
    /// An authentication ticket has been issued and not yet cancelled.
    pub ticket_outstanding: bool,
    /// `initialize` has run.
    pub checkout: bool,
    pub local_id: Option<u64>,
    pub lobby_id: Option<u64>,
    pub steam_id_game_server: Option<u64>,
    pub conn_server: Option<u32>,
    pub last_network_data_received_time: i64,
    pub un_server_ip: u32,
    pub us_server_port: u16,
}

impl ClientSession {
    /// A ticket is only ever outstanding once the handshake has started.
    pub open spec fn wf(self) -> bool {
        self.ticket_outstanding ==> self.connected_status != ConnectionState::NotConnected
    }

    /// Messages received before the handshake may start are dropped: the
    /// session accepts them only once it is connecting to a server.
    pub open spec fn spec_accepts_messages(self) -> bool {
        !(self.connected_status == ConnectionState::NotConnected && self.state
            != SessionPhase::Connecting)
    }

    /// The actions a disconnect performs, given the state it starts
    /// from: cancel an outstanding ticket, report play as over, close
    /// the connection - each only when there is something to cancel,
    /// report or close.
    pub open spec fn spec_disconnect_actions(s: ClientSession) -> Seq<ClientAction> {
        (if s.connected_status != ConnectionState::NotConnected {
            (if s.ticket_outstanding {
                seq![ClientAction::CancelTicket]
            } else {
                Seq::<ClientAction>::empty()
            }) + seq![
                ClientAction::SetPresence(
                    DurationControlOnlineState::DurationControlOnlineStateOffline,
                ),
            ]
        } else {
            Seq::<ClientAction>::empty()
        }) + (if s.conn_server is Some {
            seq![ClientAction::CloseConnection]
        } else {
            Seq::<ClientAction>::empty()
        })
    }

    /// A fresh, idle session.
    pub fn new() -> (s: ClientSession)
        ensures
            s.wf(),
            s.state == SessionPhase::Free,
            s.connected_status == ConnectionState::NotConnected,
            s.player_index == 0,
            !s.ticket_outstanding,
            !s.checkout,
            s.local_id is None,
            s.lobby_id is None,
            s.steam_id_game_server is None,
            s.conn_server is None,
            s.last_network_data_received_time == 0,
    {
        ClientSession {
            state: SessionPhase::Free,
            connected_status: ConnectionState::NotConnected,
            player_index: 0,
            ticket_outstanding: false,
            checkout: false,
            local_id: None,
            lobby_id: None,
            steam_id_game_server: None,
            conn_server: None,
            last_network_data_received_time: 0,
            un_server_ip: 0,
            us_server_port: 0,
        }
    }

    /// Starts a session for the local account: the client is now waiting
    /// in the lobby flow.
    pub fn initialize(&mut self, local_id: u64)
        ensures
            *final(self) == (ClientSession {
                checkout: true,
                state: SessionPhase::InLobby,
                connected_status: ConnectionState::NotConnected,
                local_id: Some(local_id),
                ticket_outstanding: false,
                ..*old(self)
            }),
            final(self).wf(),
    {
        self.checkout = true;
        self.state = SessionPhase::InLobby;
        self.connected_status = ConnectionState::NotConnected;
        self.ticket_outstanding = false;
        self.local_id = Some(local_id);
    }

    /// Records the lobby the client sits in.
    pub fn set_lobby_id(&mut self, lobby_id: u64)
        ensures
            *final(self) == (ClientSession { lobby_id: Some(lobby_id), ..*old(self) }),
    {
        self.lobby_id = Some(lobby_id);
    }

    /// Records the server identity the lobby was assigned.
    pub fn set_steam_id_game_server(&mut self, server: u64)
        ensures
            *final(self) == (ClientSession { steam_id_game_server: Some(server), ..*old(self) }),
    {
        self.steam_id_game_server = Some(server);
    }

    /// Records the local endpoint of the server connection.
    pub fn set_server_endpoint(&mut self, ip: u32, port: u16)
        ensures
            *final(self) == (ClientSession {
                un_server_ip: ip,
                us_server_port: port,
                ..*old(self)
            }),
    {
        self.un_server_ip = ip;
        self.us_server_port = port;
    }

    /// Records the outcome of opening the transport connection.
    pub fn set_connection(&mut self, conn: Option<u32>)
        ensures
            *final(self) == (ClientSession { conn_server: conn, ..*old(self) }),
    {
        self.conn_server = conn;
    }

    /// Moves to the connecting phase and asks the loop to open a
    /// transport connection to `server`.
    pub fn initiate_server_connection(&mut self, server: u64, now_ms: i64) -> (a: ClientAction)
        ensures
            *final(self) == (ClientSession {
                state: SessionPhase::Connecting,
                last_network_data_received_time: now_ms,
                ..*old(self)
            }),
            a == ClientAction::ConnectToServer(server),
    {
        self.state = SessionPhase::Connecting;
        self.last_network_data_received_time = now_ms;
        ClientAction::ConnectToServer(server)
    }

    /// The lobby was assigned a game server: a client still in the lobby
    /// starts connecting to it; in any other phase the signal is stale
    /// and dropped.
    pub fn on_lobby_game_created(&mut self, created: &LobbyGameCreated, now_ms: i64) -> (a: Option<
        ClientAction,
    >)
        ensures
            old(self).state == SessionPhase::InLobby ==> *final(self) == (ClientSession {
                state: SessionPhase::Connecting,
                last_network_data_received_time: now_ms,
                ..*old(self)
            }) && a == Some(ClientAction::ConnectToServer(created.ul_steam_idgame_server)),
            old(self).state != SessionPhase::InLobby ==> *final(self) == *old(self) && a is None,
    {
        if self.state != SessionPhase::InLobby {
            return None;
        }
        Some(self.initiate_server_connection(created.ul_steam_idgame_server, now_ms))
    }

    /// One decision step of the tick loop: a client waiting in a lobby
    /// whose server has reached the platform backend and received its
    /// policy answer records the lobby's game server and connects to it.
    pub fn run_callback(
        &mut self,
        is_connected_to_server: bool,
        policy_response_callback: bool,
        now_ms: i64,
    ) -> (a: Vec<ClientAction>)
        ensures
            ({
                let go = old(self).checkout && old(self).state == SessionPhase::InLobby
                    && is_connected_to_server && policy_response_callback
                    && old(self).lobby_id is Some && old(self).steam_id_game_server is Some;
                &&& go ==> *final(self) == (ClientSession {
                    state: SessionPhase::Connecting,
                    last_network_data_received_time: now_ms,
                    ..*old(self)
                }) && a@ == seq![
                    ClientAction::SetLobbyGameServer {
                        lobby: old(self).lobby_id->Some_0,
                        server: old(self).steam_id_game_server->Some_0,
                    },
                    ClientAction::ConnectToServer(old(self).steam_id_game_server->Some_0),
                ]
                &&& !go ==> *final(self) == *old(self) && a@.len() == 0
            }),
    {
        if !self.checkout {
            return Vec::new();
        }
        if self.state != SessionPhase::InLobby || !is_connected_to_server
            || !policy_response_callback {
            return Vec::new();
        }
        let (lobby, server) = match (self.lobby_id, self.steam_id_game_server) {
            (Some(l), Some(s)) => (l, s),
            _ => {
                return Vec::new();
            },
        };
        let mut a: Vec<ClientAction> = Vec::new();
        a.push(ClientAction::SetLobbyGameServer { lobby, server });
        let connect = self.initiate_server_connection(server, now_ms);
        a.push(connect);
        proof {
            assert(a@ =~= seq![
                ClientAction::SetLobbyGameServer {
                    lobby: old(self).lobby_id->Some_0,
                    server: old(self).steam_id_game_server->Some_0,
                },
                ClientAction::ConnectToServer(old(self).steam_id_game_server->Some_0),
            ]);
        }
        a
    }

    /// The server introduced itself. Only the first introduction counts:
    /// if the handshake has already moved past `NotConnected` the
    /// message is a duplicate and is dropped. Otherwise the session
    /// records the server, moves to `PendingAuthentication`, and asks
    /// the loop to issue a ticket and send it.
    pub fn on_receive_server_info(&mut self, msg: &MsgServerSendInfo) -> (a: Option<ClientAction>)
        requires
            old(self).wf(),
        ensures
            final(self).wf(),
            old(self).connected_status == ConnectionState::NotConnected ==> *final(self)
                == (ClientSession {
                connected_status: ConnectionState::PendingAuthentication,
                steam_id_game_server: Some(msg.ul_steam_idserver),
                ticket_outstanding: true,
                ..*old(self)
            }) && a == Some(ClientAction::BeginAuthentication),
            old(self).connected_status != ConnectionState::NotConnected ==> *final(self)
                == *old(self) && a is None,
    {
        if self.connected_status != ConnectionState::NotConnected {
            return None;
        }
        self.connected_status = ConnectionState::PendingAuthentication;
        self.steam_id_game_server = Some(msg.ul_steam_idserver);
        self.ticket_outstanding = true;
        Some(ClientAction::BeginAuthentication)
    }

    /// Tears the session down: cancels the outstanding ticket if there
    /// is one, reports play as over, closes the connection, and resets
    /// the handshake to `NotConnected`.
    pub fn disconnect_from_server(&mut self) -> (a: Vec<ClientAction>)
        requires
            old(self).wf(),
        ensures
            final(self).wf(),
            *final(self) == (ClientSession {
                connected_status: ConnectionState::NotConnected,
                ticket_outstanding: false,
                conn_server: None,
                steam_id_game_server: None,
                ..*old(self)
            }),
            a@ == ClientSession::spec_disconnect_actions(*old(self)),
    {
        let mut a: Vec<ClientAction> = Vec::new();
        if self.connected_status != ConnectionState::NotConnected {
            if self.ticket_outstanding {
                a.push(ClientAction::CancelTicket);
                self.ticket_outstanding = false;
            }
            a.push(
                ClientAction::SetPresence(
                    DurationControlOnlineState::DurationControlOnlineStateOffline,
                ),
            );
            self.connected_status = ConnectionState::NotConnected;
        }
        if self.conn_server.is_some() {
            a.push(ClientAction::CloseConnection);
            self.conn_server = None;
        }
        self.steam_id_game_server = None;
        proof {
            assert(a@ =~= ClientSession::spec_disconnect_actions(*old(self)));
        }
        a
    }

    /// The server's authentication answer. A failure disconnects the
    /// session. A success records the assigned player slot, marks the
    /// session authenticated, and reports uninterruptible play to the
    /// platform - idempotently: re-receiving the same slot while already
    /// authenticated changes nothing.
    pub fn on_receive_server_authentication_response(&mut self, success: bool, pos: u32) -> (a: Vec<
        ClientAction,
    >)
        requires
            old(self).wf(),
        ensures
            final(self).wf(),
            !success ==> *final(self) == (ClientSession {
                connected_status: ConnectionState::NotConnected,
                ticket_outstanding: false,
                conn_server: None,
                steam_id_game_server: None,
                ..*old(self)
            }) && a@ == ClientSession::spec_disconnect_actions(*old(self)),
            !success ==> final(self).connected_status == ConnectionState::NotConnected
                && !final(self).ticket_outstanding,
            success && old(self).connected_status == ConnectionState::Authenticated
                && old(self).player_index == pos ==> *final(self) == *old(self) && a@.len() == 0,
            success && !(old(self).connected_status == ConnectionState::Authenticated
                && old(self).player_index == pos) ==> *final(self) == (ClientSession {
                connected_status: ConnectionState::Authenticated,
                player_index: pos,
                ..*old(self)
            }) && a@ == seq![
                ClientAction::SetPresence(
                    DurationControlOnlineState::DurationControlOnlineStateOnlineHighPri,
                ),
                ClientAction::NotifyConnected(pos),
            ],
    {
        if !success {
            return self.disconnect_from_server();
        }
        if self.connected_status == ConnectionState::Authenticated && self.player_index == pos {
            return Vec::new();
        }
        self.player_index = pos;
        self.connected_status = ConnectionState::Authenticated;
        let mut a: Vec<ClientAction> = Vec::new();
        a.push(
            ClientAction::SetPresence(
                DurationControlOnlineState::DurationControlOnlineStateOnlineHighPri,
            ),
        );
        a.push(ClientAction::NotifyConnected(pos));
        proof {
            assert(a@ =~= seq![
                ClientAction::SetPresence(
                    DurationControlOnlineState::DurationControlOnlineStateOnlineHighPri,
                ),
                ClientAction::NotifyConnected(pos),
            ]);
        }
        a
    }

    /// Packs a periodic snapshot for delivery to the application; a
    /// snapshot that does not match its advertised size is replaced by
    /// an empty buffer (corruption is skipped, not forwarded).
    pub fn on_receive_update(&self, msg: &MsgServerFramesData) -> (a: ClientAction)
        ensures
            (a matches ClientAction::DeliverUpdate { buffer, frame_id } && frame_id == msg.frame_id
                && (frames_consistent(frame_payloads(msg.game_data@), msg.buffer_size)
                ==> buffer.bytes@ == pack_bytes(frame_payloads(msg.game_data@))
                && buffer.entry_count as int == msg.game_data@.len()) && (!frames_consistent(
                frame_payloads(msg.game_data@),
                msg.buffer_size,
            ) ==> buffer.bytes@.len() == 0 && buffer.entry_count == 0)),
    {
        let buffer = pack_frame_list(&msg.game_data, msg.buffer_size);
        ClientAction::DeliverUpdate { buffer, frame_id: msg.frame_id }
    }

    /// Packs the one-shot start payload for delivery to the application,
    /// with the same corruption policy as snapshots.
    pub fn on_game_start(&self, msg: &MsgServerGameStart) -> (a: ClientAction)
        ensures
            (a matches ClientAction::DeliverGameStart { buffer } && (frames_consistent(
                frame_payloads(msg.game_data@),
                msg.buffer_size,
            ) ==> buffer.bytes@ == pack_bytes(frame_payloads(msg.game_data@))
                && buffer.entry_count as int == msg.game_data@.len()) && (!frames_consistent(
                frame_payloads(msg.game_data@),
                msg.buffer_size,
            ) ==> buffer.bytes@.len() == 0 && buffer.entry_count == 0)),
    {
        let buffer = pack_frame_list(&msg.game_data, msg.buffer_size);
        ClientAction::DeliverGameStart { buffer }
    }

    /// Hands a relayed broadcast up to the application.
    pub fn on_broadcast_update(&self, msg: MsgServerDataBroadcast) -> (a: ClientAction)
        ensures
            (a matches ClientAction::DeliverBroadcast { payload, sender } && payload@ == msg.data@
                && sender == msg.local_steam_id),
    {
        ClientAction::DeliverBroadcast { payload: msg.data, sender: msg.local_steam_id }
    }

    /// Dispatches one decoded server message, stamping the receive time
    /// first. A message that arrives before the session may accept any
    /// (see [`ClientSession::spec_accepts_messages`]) is dropped without
    /// side effects.
    pub fn handle_message(&mut self, msg: ServerMessage, now_ms: i64) -> (a: Vec<ClientAction>)
        requires
            old(self).wf(),
        ensures
            final(self).wf(),
            ({
                let stamped = (ClientSession {
                    last_network_data_received_time: now_ms,
                    ..*old(self)
                });
                &&& !old(self).spec_accepts_messages() ==> *final(self) == stamped && a@.len() == 0
                &&& old(self).spec_accepts_messages() ==> {
                    &&& (msg matches ServerMessage::FailAuthentication ==> final(self).connected_status
                        == ConnectionState::NotConnected && !final(self).ticket_outstanding
                        && a@ == ClientSession::spec_disconnect_actions(stamped))
                    &&& (msg matches ServerMessage::SendInfo(m) ==> (
                    stamped.connected_status == ConnectionState::NotConnected ==> *final(self)
                        == (ClientSession {
                        connected_status: ConnectionState::PendingAuthentication,
                        steam_id_game_server: Some(m.ul_steam_idserver),
                        ticket_outstanding: true,
                        ..stamped
                    }) && a@ == seq![ClientAction::BeginAuthentication]) && (
                    stamped.connected_status != ConnectionState::NotConnected ==> *final(self)
                        == stamped && a@.len() == 0))
                    &&& (msg matches ServerMessage::PassAuthentication(pos) ==> (
                    stamped.connected_status == ConnectionState::Authenticated
                        && stamped.player_index == pos ==> *final(self) == stamped && a@.len()
                        == 0) && (!(stamped.connected_status == ConnectionState::Authenticated
                        && stamped.player_index == pos) ==> *final(self) == (ClientSession {
                        connected_status: ConnectionState::Authenticated,
                        player_index: pos,
                        ..stamped
                    }) && a@ == seq![
                        ClientAction::SetPresence(
                            DurationControlOnlineState::DurationControlOnlineStateOnlineHighPri,
                        ),
                        ClientAction::NotifyConnected(pos),
                    ]))
                    &&& (msg matches ServerMessage::AllReadyToGo ==> *final(self) == stamped && a@
                        == seq![ClientAction::NotifyAllReadyToGo])
                    &&& (msg matches ServerMessage::SetGameStartDataComplete ==> *final(self)
                        == stamped && a@ == seq![ClientAction::NotifyGameStartDataComplete])
                    &&& (msg matches ServerMessage::FramesData(m) ==> *final(self) == stamped
                        && a@.len() == 1 && (a@[0] matches ClientAction::DeliverUpdate {
                        buffer,
                        frame_id,
                    } && frame_id == m.frame_id && (frames_consistent(
                        frame_payloads(m.game_data@),
                        m.buffer_size,
                    ) ==> buffer.bytes@ == pack_bytes(frame_payloads(m.game_data@))) && (
                    !frames_consistent(frame_payloads(m.game_data@), m.buffer_size)
                        ==> buffer.bytes@.len() == 0 && buffer.entry_count == 0)))
                    &&& (msg matches ServerMessage::GameStart(m) ==> *final(self) == stamped
                        && a@.len() == 1 && (a@[0] matches ClientAction::DeliverGameStart { buffer }
                         && (frames_consistent(frame_payloads(m.game_data@), m.buffer_size)
                        ==> buffer.bytes@ == pack_bytes(frame_payloads(m.game_data@))) && (
                    !frames_consistent(frame_payloads(m.game_data@), m.buffer_size)
                        ==> buffer.bytes@.len() == 0 && buffer.entry_count == 0)))
                    &&& (msg matches ServerMessage::Broadcast(m) ==> *final(self) == stamped
                        && a@.len() == 1 && (a@[0] matches ClientAction::DeliverBroadcast {
                        payload,
                        sender,
                    } && payload@ == m.data@ && sender == m.local_steam_id))
                }
            }),
    {
        self.last_network_data_received_time = now_ms;
        if self.connected_status == ConnectionState::NotConnected && self.state
            != SessionPhase::Connecting {
            return Vec::new();
        }
        match msg {
            ServerMessage::SendInfo(m) => {
                let mut a: Vec<ClientAction> = Vec::new();
                if let Some(act) = self.on_receive_server_info(&m) {
                    a.push(act);
                    proof {
                        assert(a@ =~= seq![ClientAction::BeginAuthentication]);
                    }
                }
                a
            },
            ServerMessage::FailAuthentication => self.on_receive_server_authentication_response(
                false,
                0,
            ),
            ServerMessage::PassAuthentication(pos) => self
                .on_receive_server_authentication_response(true, pos),
            ServerMessage::AllReadyToGo => {
                let mut a: Vec<ClientAction> = Vec::new();
                a.push(ClientAction::NotifyAllReadyToGo);
                proof {
                    assert(a@ =~= seq![ClientAction::NotifyAllReadyToGo]);
                }
                a
            },
            ServerMessage::SetGameStartDataComplete => {
                let mut a: Vec<ClientAction> = Vec::new();
                a.push(ClientAction::NotifyGameStartDataComplete);
                proof {
                    assert(a@ =~= seq![ClientAction::NotifyGameStartDataComplete]);
                }
                a
            },
            ServerMessage::FramesData(m) => {
                let act = self.on_receive_update(&m);
                let mut a: Vec<ClientAction> = Vec::new();
                a.push(act);
                a
            },
            ServerMessage::GameStart(m) => {
                let act = self.on_game_start(&m);
                let mut a: Vec<ClientAction> = Vec::new();
                a.push(act);
                a
            },
            ServerMessage::Broadcast(m) => {
                let act = self.on_broadcast_update(m);
                let mut a: Vec<ClientAction> = Vec::new();
                a.push(act);
                a
            },
        }
    }

    /// The session is authenticated and playing.
    pub fn is_connected_to_server(&self) -> (r: bool)
        ensures
            r == (self.connected_status == ConnectionState::Authenticated),
    {
        self.connected_status == ConnectionState::Authenticated
    }

    /// Builds a per-channel update to send, refusing an empty payload or
    /// the reserved start-payload channel.
    pub fn send_frame_data(&self, types: u32, buffer: Vec<u8>) -> (r: Option<MsgClientFrameData>)
        ensures
            buffer@.len() == 0 || types == 0 ==> r is None,
            buffer@.len() > 0 && types != 0 ==> (r matches Some(m) && m.types == types && m.data@
                == buffer@),
    {
        if buffer.len() == 0 {
            return None;
        }
        if types == 0 {
            return None;
        }
        Some(MsgClientFrameData { data: buffer, types })
    }

    /// Builds the initial-snapshot submission (the reserved channel 0),
    /// refusing an empty payload.
    pub fn set_game_data(&self, buffer: Vec<u8>) -> (r: Option<MsgClientFrameData>)
        ensures
            buffer@.len() == 0 ==> r is None,
            buffer@.len() > 0 ==> (r matches Some(m) && m.types == 0 && m.data@ == buffer@),
    {
        if buffer.len() == 0 {
            return None;
        }
        Some(MsgClientFrameData { data: buffer, types: 0 })
    }

    /// Builds a broadcast to relay to every participant, refusing an
    /// empty payload.
    pub fn broadcast(&self, buffer: Vec<u8>) -> (r: Option<MsgClientDataBroadcast>)
        ensures
            buffer@.len() == 0 ==> r is None,
            buffer@.len() > 0 ==> (r matches Some(m) && m.types == 0 && m.data@ == buffer@
                && m.local_steam_id == 0),
    {
        if buffer.len() == 0 {
            return None;
        }
        Some(MsgClientDataBroadcast { data: buffer, types: 0, local_steam_id: 0 })
    }
}

} // verus!
