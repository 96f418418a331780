//! The server session state machine: admission, the authentication
//! barrier, and per-tick aggregation for up to `max_players`
//! participants.
//!
//! A participant's record lives in exactly one of two lists: *pending*
//! (transport connected, not yet authenticated) or *active*
//! (authenticated, holding a player slot); the move between them is one
//! step. The machine owns no socket: the surrounding loop feeds it
//! transport events, decoded client messages and platform callbacks, and
//! performs the [`ServerAction`]s it returns.

use crate::aggregator::channel_lookup;
use crate::aggregator::spec_submit_channel;
use crate::aggregator::spec_submit_start;
use crate::aggregator::start_bytes;
use crate::aggregator::table_bytes;
use crate::aggregator::FrameTable;
use crate::aggregator::GameStartBuffer;
use crate::aggregator::MAX_ENTRY_PAYLOAD;
use crate::message::MsgClientDataBroadcast;
use crate::message::MsgServerDataBroadcast;
use crate::message::MsgServerFramesData;
use crate::message::MsgServerGameStart;
use crate::message::MsgServerSendInfo;
use vstd::prelude::*;

verus! {

/// How the server authenticates its participants with the platform.
#[derive(Clone, Copy, Debug, PartialEq, Eq, Structural)]
pub enum EServerMode {
    EServerModeInvalid,
    EServerModeNoAuthentication,
    EServerModeAuthentication,
    EServerModeAuthenticationAndSecure,
}

/// The server-wide match phase.
#[derive(Clone, Copy, Debug, PartialEq, Eq, Structural)]
pub enum EServerGameState {
    KEserverWaitingForPlayers,
    KEserverActive,
    KEserverDraw,
    KEserverWinner,
    KEserverExiting,
}

/// The transport-level reason a connection is closed.
#[derive(Clone, Copy, Debug, PartialEq, Eq, Structural)]
pub enum NetConnectionEnd {
    /// An application-level fault: rejection, eviction, failed
    /// validation.
    AppException,
    /// An ordinary application-level close.
    AppGeneric,
}

/// One participant's record. `active` is set once ticket validation has
/// been started for it; `load_complete` once it reported loading done.
#[derive(Clone, Copy, Debug, PartialEq, Eq, Structural)]
pub struct ClientConnectionData {
    pub active: bool,
    pub load_complete: bool,
    pub ul_tick_count_last_data: i64,
    pub steam_iduser: u64,
    pub hsteam_net_connection: Option<u32>,
    /// The player slot: the record's index in the pending list at the
    /// time the connection was accepted; never reassigned.
    pub player_position: u32,
}

impl ClientConnectionData {
    /// A fresh record for a participant that just connected.
    pub fn new(identity: u64, connection: Option<u32>) -> (r: ClientConnectionData)
        ensures
            r == (ClientConnectionData {
                active: false,
                load_complete: false,
                ul_tick_count_last_data: 0,
                steam_iduser: identity,
                hsteam_net_connection: connection,
                player_position: 0,
            }),
    {
        ClientConnectionData {
            active: false,
            load_complete: false,
            ul_tick_count_last_data: 0,
            steam_iduser: identity,
            hsteam_net_connection: connection,
            player_position: 0,
        }
    }
}

/// A server-origin message to put on the wire.
#[derive(Clone, Debug, PartialEq)]
pub enum ServerOutbound {
    SendInfo(MsgServerSendInfo),
    FailAuthentication,
    PassAuthentication(u32),
    AllReadyToGo,
    GameStart(MsgServerGameStart),
    FramesData(MsgServerFramesData),
    Broadcast(MsgServerDataBroadcast),
}

/// What the surrounding loop must do on the session's behalf.
#[derive(Clone, Debug, PartialEq)]
pub enum ServerAction {
    /// Send one message over one connection.
    Send { connection: u32, message: ServerOutbound },
    /// Send one message over each listed connection.
    BroadcastTo { connections: Vec<u32>, message: ServerOutbound },
    /// Close a transport connection.
    CloseConnection { connection: u32, end: NetConnectionEnd },
    /// End the platform's ticket-validation session for an identity.
    EndAuthSession { identity: u64 },
}

/// What admission decided for a transport connection attempt.
#[derive(Clone, Copy, Debug, PartialEq, Eq, Structural)]
pub enum ConnectDecision {
    /// Accept the request; a pending record was created.
    Accept,
    /// Reject: the pending list is at capacity.
    RejectFull,
    /// Reject: this identity already has a pending or active record.
    RejectDuplicate,
}

/// The verdict on a `ClientBeginAuthentication` message.
#[derive(Clone, Copy, Debug, PartialEq, Eq, Structural)]
pub enum AuthAdmission {
    /// The identity already holds a player slot; nothing to do.
    AlreadyActive,
    /// Capacity would be exceeded: the identity's pending record was
    /// evicted; close its connection with a full-server reason.
    EvictedFull { connection: u32 },
    /// Capacity would be exceeded and the evicted record had no
    /// connection to close.
    EvictedFullNoConnection,
    /// No pending record can be validated for this identity; drop the
    /// message.
    NoPending,
    /// Start ticket validation; the record is marked as awaiting its
    /// outcome.
    Validate,
}

/// How many records in a list are awaiting or past validation.
pub open spec fn count_flagged(s: Seq<ClientConnectionData>) -> int
    decreases s.len(),
{
    if s.len() == 0 {
        0
    } else {
        (if s[0].active {
            1int
        } else {
            0int
        }) + count_flagged(s.skip(1))
    }
}

/// No two records in the list belong to the same identity.
pub open spec fn distinct_ids(s: Seq<ClientConnectionData>) -> bool {
    forall|i: int, j: int|
        #![trigger s[i], s[j]]
        0 <= i < j < s.len() ==> s[i].steam_iduser != s[j].steam_iduser
}

/// The flagged count never leaves `[0, len]`.
pub proof fn lemma_count_flagged_bound(s: Seq<ClientConnectionData>)
    ensures
        0 <= count_flagged(s) <= s.len(),
    decreases s.len(),
{
    if s.len() > 0 {
        lemma_count_flagged_bound(s.skip(1));
    }
}

/// Appending a record adds its own flag to the count.
pub proof fn lemma_count_flagged_push(s: Seq<ClientConnectionData>, r: ClientConnectionData)
    ensures
        count_flagged(s.push(r)) == count_flagged(s) + (if r.active {
            1int
        } else {
            0int
        }),
    decreases s.len(),
{
    if s.len() == 0 {
        assert(s.push(r).skip(1) =~= Seq::<ClientConnectionData>::empty());
        assert(count_flagged(Seq::<ClientConnectionData>::empty()) == 0);
    } else {
        assert(s.push(r).skip(1) =~= s.skip(1).push(r));
        lemma_count_flagged_push(s.skip(1), r);
        assert(s.push(r)[0] == s[0]);
        assert(count_flagged(s) == (if s[0].active {
            1int
        } else {
            0int
        }) + count_flagged(s.skip(1)));
    }
}

/// Replacing a record shifts the count by the flag difference.
pub proof fn lemma_count_flagged_update(
    s: Seq<ClientConnectionData>,
    i: int,
    r: ClientConnectionData,
)
    requires
        0 <= i < s.len(),
    ensures
        count_flagged(s.update(i, r)) == count_flagged(s) - (if s[i].active {
            1int
        } else {
            0int
        }) + (if r.active {
            1int
        } else {
            0int
        }),
    decreases s.len(),
{
    if i == 0 {
        assert(s.update(0, r).skip(1) =~= s.skip(1));
    } else {
        assert(s.update(i, r).skip(1) =~= s.skip(1).update(i - 1, r));
        lemma_count_flagged_update(s.skip(1), i - 1, r);
        assert(s.update(i, r)[0] == s[0]);
    }
}

/// Removing a record subtracts its own flag from the count.
pub proof fn lemma_count_flagged_remove(s: Seq<ClientConnectionData>, i: int)
    requires
        0 <= i < s.len(),
    ensures
        count_flagged(s.remove(i)) == count_flagged(s) - (if s[i].active {
            1int
        } else {
            0int
        }),
    decreases s.len(),
{
    if i == 0 {
        assert(s.remove(0) =~= s.skip(1));
    } else {
        assert(s.remove(i).skip(1) =~= s.skip(1).remove(i - 1));
        lemma_count_flagged_remove(s.skip(1), i - 1);
        assert(s.remove(i)[0] == s[0]);
    }
}

/// The server session state.
#[derive(Debug)]
pub struct ServerSession {
    pub is_connected_to_steam: bool,
    pub policy_response_callback: bool,
    /// The anti-cheat protection the platform's policy answer reported.
    pub vac_secure: bool,
    /// `open` has run and resources must be torn down on close.
    pub can_close: bool,
    /// `open` has run; connections can be admitted.
    pub opened: bool,
    pub game_state: EServerGameState,
    /// Authenticated participants, in admission order.
    pub rg_client_data: Vec<ClientConnectionData>,
    /// Participants between transport accept and validation outcome.
    pub rg_pending_client_data: Vec<ClientConnectionData>,
    pub max_players: u8,
    pub name: String,
    pub map_name: String,
    pub server_name: String,
    pub server_id: u64,
    pub player_bot: u32,
    pub lobby_id: u64,
    pub app_id: u32,
    pub connected_success_count: u32,
    pub player_count: u32,
    /// The readiness barrier has fired; it never fires again in this
    /// session.
    pub ready_broadcast_sent: bool,
    /// Latest per-channel payloads awaiting the next snapshot.
    pub frame_messages: FrameTable,
    /// The one-shot start payload being assembled.
    pub game_start_data: GameStartBuffer,
    /// The start payload has been broadcast and cleared.
    pub game_start_consumed: bool,
    /// Sequence number of the next snapshot.
    pub frame_id: u32,
    pub pch_game_dir: String,
    pub un_ip: u32,
    pub us_steam_port: u16,
    pub us_game_port: u16,
    pub us_query_port: u16,
    pub server_mode: EServerMode,
    pub pch_version_string: String,
}

impl ServerSession {
    /// Internal consistency. Capacity: the participants that hold or
    /// await a slot never exceed `max_players`; every active record was
    /// validated and is connected; identities are unique across both
    /// lists; the aggregation state is well formed.
    pub open spec fn wf(self) -> bool {
        &&& self.rg_client_data@.len() + count_flagged(self.rg_pending_client_data@)
            <= self.max_players as int
        &&& self.rg_pending_client_data@.len() <= self.max_players as int
        &&& forall|i: int|
            0 <= i < self.rg_client_data@.len() ==> (#[trigger] self.rg_client_data@[i]).active
                && self.rg_client_data@[i].hsteam_net_connection is Some
        &&& forall|i: int|
            0 <= i < self.rg_pending_client_data@.len() && (#[trigger] self.rg_pending_client_data@[i]).active
                ==> self.rg_pending_client_data@[i].hsteam_net_connection is Some
        &&& distinct_ids(self.rg_client_data@)
        &&& distinct_ids(self.rg_pending_client_data@)
        &&& forall|i: int, j: int|
            #![trigger self.rg_client_data@[i], self.rg_pending_client_data@[j]]
            0 <= i < self.rg_client_data@.len() && 0 <= j < self.rg_pending_client_data@.len()
                ==> self.rg_client_data@[i].steam_iduser
                != self.rg_pending_client_data@[j].steam_iduser
        &&& self.frame_messages.wf()
        &&& self.game_start_data.wf()
    }

    /// The identity holds a player slot.
    pub open spec fn spec_has_active(self, identity: u64) -> bool {
        exists|i: int|
            0 <= i < self.rg_client_data@.len() && (#[trigger] self.rg_client_data@[i]).steam_iduser
                == identity
    }

    /// The identity has a pending record.
    pub open spec fn spec_has_pending(self, identity: u64) -> bool {
        exists|i: int|
            0 <= i < self.rg_pending_client_data@.len() && (
            #[trigger] self.rg_pending_client_data@[i]).steam_iduser == identity
    }

    /// The connections of the active participants, in admission order.
    pub open spec fn spec_active_conns(self) -> Seq<u32> {
        self.rg_client_data@.map(
            |i: int, c: ClientConnectionData| c.hsteam_net_connection->Some_0,
        )
    }

    /// A session with nothing configured and nothing admitted.
    pub fn new() -> (s: ServerSession)
        ensures
            s.wf(),
            s.rg_client_data@.len() == 0,
            s.rg_pending_client_data@.len() == 0,
            s.max_players == 0,
            s.game_state == EServerGameState::KEserverExiting,
            !s.is_connected_to_steam,
            !s.policy_response_callback,
            !s.opened,
            !s.can_close,
            !s.ready_broadcast_sent,
            !s.game_start_consumed,
            s.lobby_id == 0,
            s.server_id == 0,
            s.connected_success_count == 0,
            s.frame_messages.model() == Seq::<(u64, u32, Seq<u8>)>::empty(),
            s.game_start_data.model() == Seq::<(u64, Seq<u8>)>::empty(),
    {
        let s = ServerSession {
            is_connected_to_steam: false,
            policy_response_callback: false,
            vac_secure: false,
            can_close: false,
            opened: false,
            game_state: EServerGameState::KEserverExiting,
            rg_client_data: Vec::new(),
            rg_pending_client_data: Vec::new(),
            max_players: 0,
            name: String::new(),
            map_name: String::new(),
            server_name: String::new(),
            server_id: 0,
            player_bot: 0,
            lobby_id: 0,
            app_id: 0,
            connected_success_count: 0,
            player_count: 0,
            ready_broadcast_sent: false,
            frame_messages: FrameTable::new(),
            game_start_data: GameStartBuffer::new(),
            game_start_consumed: false,
            frame_id: 0,
            pch_game_dir: String::new(),
            un_ip: 0,
            us_steam_port: 0,
            us_game_port: 0,
            us_query_port: 0,
            server_mode: EServerMode::EServerModeNoAuthentication,
            pch_version_string: String::new(),
        };
        proof {
            assert(count_flagged(s.rg_pending_client_data@) == 0);
        }
        s
    }

    /// Index of the identity's record among the active participants.
    fn find_active(&self, identity: u64) -> (r: Option<usize>)
        ensures
            match r {
                Some(i) => i < self.rg_client_data@.len()
                    && self.rg_client_data@[i as int].steam_iduser == identity,
                None => !self.spec_has_active(identity),
            },
    {
        let mut i: usize = 0;
        while i < self.rg_client_data.len()
            invariant
                i <= self.rg_client_data@.len(),
                forall|j: int|
                    0 <= j < i ==> (#[trigger] self.rg_client_data@[j]).steam_iduser != identity,
            decreases self.rg_client_data@.len() - i,
        {
            if self.rg_client_data[i].steam_iduser == identity {
                return Some(i);
            }
            i = i + 1;
        }
        None
    }

    /// Index of the identity's record among the pending participants.
    fn find_pending(&self, identity: u64) -> (r: Option<usize>)
        ensures
            match r {
                Some(i) => i < self.rg_pending_client_data@.len()
                    && self.rg_pending_client_data@[i as int].steam_iduser == identity,
                None => !self.spec_has_pending(identity),
            },
    {
        let mut i: usize = 0;
        while i < self.rg_pending_client_data.len()
            invariant
                i <= self.rg_pending_client_data@.len(),
                forall|j: int|
                    0 <= j < i ==> (#[trigger] self.rg_pending_client_data@[j]).steam_iduser
                        != identity,
            decreases self.rg_pending_client_data@.len() - i,
        {
            if self.rg_pending_client_data[i].steam_iduser == identity {
                return Some(i);
            }
            i = i + 1;
        }
        None
    }

    /// Index of the pending record that awaits this identity's
    /// validation outcome, if any: the record must both match the
    /// identity and have validation in progress.
    pub fn find_pending_auth(&self, identity: u64) -> (r: Option<usize>)
        ensures
            match r {
                Some(i) => i < self.rg_pending_client_data@.len()
                    && self.rg_pending_client_data@[i as int].steam_iduser == identity
                    && self.rg_pending_client_data@[i as int].active,
                None => forall|j: int|
                    0 <= j < self.rg_pending_client_data@.len() ==> !((
                    #[trigger] self.rg_pending_client_data@[j]).steam_iduser == identity
                        && self.rg_pending_client_data@[j].active),
            },
    {
        let mut i: usize = 0;
        while i < self.rg_pending_client_data.len()
            invariant
                i <= self.rg_pending_client_data@.len(),
                forall|j: int|
                    0 <= j < i ==> !((#[trigger] self.rg_pending_client_data@[j]).steam_iduser
                        == identity && self.rg_pending_client_data@[j].active),
            decreases self.rg_pending_client_data@.len() - i,
        {
            if self.rg_pending_client_data[i].steam_iduser == identity
                && self.rg_pending_client_data[i].active {
                return Some(i);
            }
            i = i + 1;
        }
        None
    }

    /// Admission of a transport connection attempt: reject when the
    /// pending list is at capacity, reject a duplicate identity, and
    /// otherwise create the pending record.
    pub fn on_connecting(&mut self, identity: u64) -> (d: ConnectDecision)
        requires
            old(self).wf(),
        ensures
            final(self).wf(),
            old(self).rg_pending_client_data@.len() >= old(self).max_players as int ==> d
                == ConnectDecision::RejectFull && *final(self) == *old(self),
            old(self).rg_pending_client_data@.len() < old(self).max_players as int && (old(self).spec_has_pending(identity) || old(self).spec_has_active(identity)) ==> d
                == ConnectDecision::RejectDuplicate && *final(self) == *old(self),
            old(self).rg_pending_client_data@.len() < old(self).max_players as int && !old(self).spec_has_pending(identity) && !old(self).spec_has_active(identity) ==> d
                == ConnectDecision::Accept && *final(self) == (ServerSession {
                rg_pending_client_data: final(self).rg_pending_client_data,
                ..*old(self)
            }) && final(self).rg_pending_client_data@ == old(self).rg_pending_client_data@.push(
                ClientConnectionData {
                    active: false,
                    load_complete: false,
                    ul_tick_count_last_data: 0,
                    steam_iduser: identity,
                    hsteam_net_connection: None,
                    player_position: old(self).rg_pending_client_data@.len() as u32,
                },
            ),
    {
        if self.rg_pending_client_data.len() >= self.max_players as usize {
            return ConnectDecision::RejectFull;
        }
        let in_pending = self.find_pending(identity);
        let in_active = self.find_active(identity);
        if in_pending.is_some() || in_active.is_some() {
            return ConnectDecision::RejectDuplicate;
        }
        let mut record = ClientConnectionData::new(identity, None);
        record.player_position = self.rg_pending_client_data.len() as u32;
        proof {
            lemma_count_flagged_push(self.rg_pending_client_data@, record);
        }
        self.rg_pending_client_data.push(record);
        ConnectDecision::Accept
    }

    /// The transport handshake completed. If the identity still has a
    /// pending record, the connection is attached to it and the server's
    /// introduction is returned for sending; otherwise the record is
    /// gone (for example evicted) and the caller must close the fresh
    /// connection.
    pub fn on_connected(&mut self, identity: u64, connection: u32) -> (r: Option<MsgServerSendInfo>)
        requires
            old(self).wf(),
        ensures
            final(self).wf(),
            !old(self).spec_has_pending(identity) ==> r is None && *final(self) == *old(self),
            old(self).spec_has_pending(identity) ==> (r matches Some(msg)
                && msg.ul_steam_idserver == old(self).server_id && msg.is_vacsecure == old(self).vac_secure && msg.rgch_server_name@ == old(self).server_name@) && (exists|i: int|
                0 <= i < old(self).rg_pending_client_data@.len() && (
                #[trigger] old(self).rg_pending_client_data@[i]).steam_iduser == identity && *final(self) == (ServerSession {
                    rg_pending_client_data: final(self).rg_pending_client_data,
                    ..*old(self)
                }) && final(self).rg_pending_client_data@ == old(self).rg_pending_client_data@.update(
                    i,
                    (ClientConnectionData {
                        hsteam_net_connection: Some(connection),
                        ..old(self).rg_pending_client_data@[i]
                    }),
                )),
    {
        let found = match self.find_pending(identity) {
            Some(i) => i,
            None => {
                return None;
            },
        };
        let ghost pending0 = self.rg_pending_client_data@;
        let mut record = self.rg_pending_client_data.remove(found);
        let ghost rec0 = record;
        record.hsteam_net_connection = Some(connection);
        self.rg_pending_client_data.insert(found, record);
        proof {
            let i = found as int;
            let updated = (ClientConnectionData {
                hsteam_net_connection: Some(connection),
                ..pending0[i]
            });
            assert(self.rg_pending_client_data@ =~= pending0.update(i, updated));
            lemma_count_flagged_update(pending0, i, updated);
        }
        let msg = MsgServerSendInfo {
            ul_steam_idserver: self.server_id,
            is_vacsecure: self.vac_secure,
            rgch_server_name: self.server_name.clone(),
        };
        Some(msg)
    }

    /// A transport disconnect: the identity's active record, if any, is
    /// removed, and its connection handle is returned for closing with a
    /// generic end reason. Pending records are left to the
    /// authentication flow.
    pub fn on_disconnected(&mut self, identity: u64) -> (r: Option<u32>)
        requires
            old(self).wf(),
        ensures
            final(self).wf(),
            !old(self).spec_has_active(identity) ==> r is None && *final(self) == *old(self),
            old(self).spec_has_active(identity) ==> (exists|i: int|
                0 <= i < old(self).rg_client_data@.len() && (
                #[trigger] old(self).rg_client_data@[i]).steam_iduser == identity && r == Some(
                    old(self).rg_client_data@[i].hsteam_net_connection->Some_0,
                ) && *final(self) == (ServerSession {
                    rg_client_data: final(self).rg_client_data,
                    ..*old(self)
                }) && final(self).rg_client_data@ == old(self).rg_client_data@.remove(i)),
    {
        let found = match self.find_active(identity) {
            Some(i) => i,
            None => {
                return None;
            },
        };
        let record = self.rg_client_data.remove(found);
        let conn = match record.hsteam_net_connection {
            Some(c) => c,
            None => {
                proof {
                    assert(false);
                }
                0
            },
        };
        Some(conn)
    }

    /// The connections of the active participants, in admission order.
    pub fn active_connections(&self) -> (r: Vec<u32>)
        requires
            self.wf(),
        ensures
            r@ == self.spec_active_conns(),
    {
        let mut r: Vec<u32> = Vec::new();
        let mut i: usize = 0;
        proof {
            assert(r@ =~= self.spec_active_conns().take(0));
        }
        while i < self.rg_client_data.len()
            invariant
                self.wf(),
                i <= self.rg_client_data@.len(),
                r@ == self.spec_active_conns().take(i as int),
            decreases self.rg_client_data@.len() - i,
        {
            let c = match self.rg_client_data[i].hsteam_net_connection {
                Some(c) => c,
                None => {
                    proof {
                        assert(false);
                    }
                    0
                },
            };
            r.push(c);
            proof {
                assert(self.spec_active_conns()[i as int] == c);
                assert(r@ =~= self.spec_active_conns().take(i as int + 1));
            }
            i = i + 1;
        }
        proof {
            assert(self.spec_active_conns().take(self.rg_client_data@.len() as int)
                =~= self.spec_active_conns());
        }
        r
    }

    /// How many pending records await a validation outcome.
    pub fn count_validating(&self) -> (n: usize)
        ensures
            n == count_flagged(self.rg_pending_client_data@),
    {
        let ghost m = self.rg_pending_client_data@;
        proof {
            lemma_count_flagged_bound(m);
            assert(m.take(0) =~= Seq::<ClientConnectionData>::empty());
        }
        let mut n: usize = 0;
        let mut i: usize = 0;
        while i < self.rg_pending_client_data.len()
            invariant
                i <= m.len(),
                m == self.rg_pending_client_data@,
                n as int == count_flagged(m.take(i as int)),
                n <= i,
            decreases m.len() - i,
        {
            proof {
                assert(m.take(i as int).push(m[i as int]) =~= m.take(i as int + 1));
                lemma_count_flagged_push(m.take(i as int), m[i as int]);
            }
            if self.rg_pending_client_data[i].active {
                n = n + 1;
            }
            i = i + 1;
        }
        proof {
            assert(m.take(m.len() as int) =~= m);
        }
        n
    }

    /// Admission of a `ClientBeginAuthentication`. An identity that
    /// already holds a slot is ignored. If admitting it would exceed
    /// capacity - the slots held plus the validations already in flight
    /// reach `max_players` - its pending record is evicted instead and
    /// its connection closed with a full-server reason. Otherwise its
    /// pending, connected record is marked as awaiting validation and
    /// stamped, and the caller must start the platform's ticket
    /// validation.
    pub fn on_client_begin_authentication(&mut self, identity: u64, now_ms: i64) -> (d:
        AuthAdmission)
        requires
            old(self).wf(),
        ensures
            final(self).wf(),
            ({
                let full = old(self).rg_client_data@.len() + count_flagged(
                    old(self).rg_pending_client_data@,
                ) >= old(self).max_players as int;
                &&& old(self).spec_has_active(identity) ==> d == AuthAdmission::AlreadyActive
                    && *final(self) == *old(self)
                &&& !old(self).spec_has_active(identity) && !old(self).spec_has_pending(identity)
                    ==> d == AuthAdmission::NoPending && *final(self) == *old(self)
                &&& !old(self).spec_has_active(identity) && old(self).spec_has_pending(identity)
                    && full ==> (exists|i: int|
                    0 <= i < old(self).rg_pending_client_data@.len() && (
                    #[trigger] old(self).rg_pending_client_data@[i]).steam_iduser == identity
                        && *final(self) == (ServerSession {
                        rg_pending_client_data: final(self).rg_pending_client_data,
                        ..*old(self)
                    }) && final(self).rg_pending_client_data@ == old(
                        self,
                    ).rg_pending_client_data@.remove(i) && d == (match old(
                        self,
                    ).rg_pending_client_data@[i].hsteam_net_connection {
                        Some(c) => AuthAdmission::EvictedFull { connection: c },
                        None => AuthAdmission::EvictedFullNoConnection,
                    }))
                &&& !old(self).spec_has_active(identity) && old(self).spec_has_pending(identity)
                    && !full ==> (exists|i: int|
                    0 <= i < old(self).rg_pending_client_data@.len() && (
                    #[trigger] old(self).rg_pending_client_data@[i]).steam_iduser == identity && (
                    match old(self).rg_pending_client_data@[i].hsteam_net_connection {
                        Some(c) => d == AuthAdmission::Validate && *final(self) == (ServerSession {
                            rg_pending_client_data: final(self).rg_pending_client_data,
                            ..*old(self)
                        }) && final(self).rg_pending_client_data@ == old(
                            self,
                        ).rg_pending_client_data@.update(
                            i,
                            (ClientConnectionData {
                                active: true,
                                ul_tick_count_last_data: now_ms,
                                ..old(self).rg_pending_client_data@[i]
                            }),
                        ),
                        None => d == AuthAdmission::NoPending && *final(self) == *old(self),
                    }))
            }),
    {
        if self.find_active(identity).is_some() {
            return AuthAdmission::AlreadyActive;
        }
        let found = match self.find_pending(identity) {
            Some(i) => i,
            None => {
                return AuthAdmission::NoPending;
            },
        };
        let ghost pending0 = self.rg_pending_client_data@;
        proof {
            lemma_count_flagged_bound(pending0);
        }
        let validating = self.count_validating();
        if self.rg_client_data.len() + validating >= self.max_players as usize {
            let evicted = self.rg_pending_client_data.remove(found);
            proof {
                lemma_count_flagged_remove(pending0, found as int);
                lemma_count_flagged_bound(self.rg_pending_client_data@);
            }
            return match evicted.hsteam_net_connection {
                Some(c) => AuthAdmission::EvictedFull { connection: c },
                None => AuthAdmission::EvictedFullNoConnection,
            };
        }
        let has_conn = self.rg_pending_client_data[found].hsteam_net_connection.is_some();
        if !has_conn {
            return AuthAdmission::NoPending;
        }
        let mut record = self.rg_pending_client_data.remove(found);
        record.active = true;
        record.ul_tick_count_last_data = now_ms;
        self.rg_pending_client_data.insert(found, record);
        proof {
            let i = found as int;
            let updated = (ClientConnectionData {
                active: true,
                ul_tick_count_last_data: now_ms,
                ..pending0[i]
            });
            assert(self.rg_pending_client_data@ =~= pending0.update(i, updated));
            lemma_count_flagged_update(pending0, i, updated);
            lemma_count_flagged_bound(self.rg_pending_client_data@);
        }
        AuthAdmission::Validate
    }

    /// The platform refused to even start validating the identity's
    /// ticket: its pending record is dropped and its connection, if any,
    /// returned for closing.
    pub fn on_begin_auth_failed(&mut self, identity: u64) -> (r: Option<u32>)
        requires
            old(self).wf(),
        ensures
            final(self).wf(),
            !old(self).spec_has_pending(identity) ==> r is None && *final(self) == *old(self),
            old(self).spec_has_pending(identity) ==> (exists|i: int|
                0 <= i < old(self).rg_pending_client_data@.len() && (
                #[trigger] old(self).rg_pending_client_data@[i]).steam_iduser == identity && r
                    == old(self).rg_pending_client_data@[i].hsteam_net_connection && *final(self)
                    == (ServerSession {
                    rg_pending_client_data: final(self).rg_pending_client_data,
                    ..*old(self)
                }) && final(self).rg_pending_client_data@ == old(
                    self,
                ).rg_pending_client_data@.remove(i)),
    {
        let found = match self.find_pending(identity) {
            Some(i) => i,
            None => {
                return None;
            },
        };
        let ghost pending0 = self.rg_pending_client_data@;
        let record = self.rg_pending_client_data.remove(found);
        proof {
            lemma_count_flagged_remove(pending0, found as int);
            lemma_count_flagged_bound(self.rg_pending_client_data@);
        }
        record.hsteam_net_connection
    }

    /// The validation outcome for the pending record at
    /// `pending_auth_index` (located with
    /// [`ServerSession::find_pending_auth`]). A record not awaiting
    /// validation is ignored. On failure the record is dropped: the
    /// platform session is ended, `ServerFailAuthentication` sent, the
    /// connection closed. On success the record moves to the active list
    /// with `player_position` equal to its former pending index, and
    /// `ServerPassAuthentication` is sent. The readiness barrier fires -
    /// once per session, at most - exactly when the session is now full:
    /// every active participant then receives `ServerAllReadyToGo` and
    /// the match phase becomes active. The returned flag reports that the
    /// barrier fired.
    pub fn on_auth_completed(
        &mut self,
        auth_successful: bool,
        pending_auth_index: usize,
        now_ms: i64,
    ) -> (r: (Vec<ServerAction>, bool))
        requires
            old(self).wf(),
            pending_auth_index < old(self).rg_pending_client_data@.len(),
        ensures
            final(self).wf(),
            ({
                let rec = old(self).rg_pending_client_data@[pending_auth_index as int];
                let conn = rec.hsteam_net_connection->Some_0;
                &&& !rec.active ==> *final(self) == *old(self) && r.0@.len() == 0 && !r.1
                &&& rec.active && !auth_successful ==> *final(self) == (ServerSession {
                    rg_pending_client_data: final(self).rg_pending_client_data,
                    ..*old(self)
                }) && final(self).rg_pending_client_data@ == old(
                    self,
                ).rg_pending_client_data@.remove(pending_auth_index as int) && r.0@ == seq![
                    ServerAction::EndAuthSession { identity: rec.steam_iduser },
                    ServerAction::Send {
                        connection: conn,
                        message: ServerOutbound::FailAuthentication,
                    },
                    ServerAction::CloseConnection {
                        connection: conn,
                        end: NetConnectionEnd::AppException,
                    },
                ] && !r.1
                &&& rec.active && auth_successful ==> {
                    let moved = (ClientConnectionData { ul_tick_count_last_data: now_ms, ..rec });
                    &&& r.1 == (old(self).rg_client_data@.len() + 1 == old(self).max_players as int
                        && !old(self).ready_broadcast_sent)
                    &&& *final(self) == (ServerSession {
                        rg_pending_client_data: final(self).rg_pending_client_data,
                        rg_client_data: final(self).rg_client_data,
                        ready_broadcast_sent: old(self).ready_broadcast_sent || r.1,
                        game_state: if r.1 {
                            EServerGameState::KEserverActive
                        } else {
                            old(self).game_state
                        },
                        ..*old(self)
                    })
                    &&& final(self).rg_pending_client_data@ == old(
                        self,
                    ).rg_pending_client_data@.remove(pending_auth_index as int)
                    &&& final(self).rg_client_data@ == old(self).rg_client_data@.push(moved)
                    &&& !r.1 ==> r.0@ == seq![
                        ServerAction::Send {
                            connection: conn,
                            message: ServerOutbound::PassAuthentication(rec.player_position),
                        },
                    ]
                    &&& r.1 ==> r.0@.len() == 2 && r.0@[0] == (ServerAction::Send {
                        connection: conn,
                        message: ServerOutbound::PassAuthentication(rec.player_position),
                    }) && (r.0@[1] matches ServerAction::BroadcastTo { connections, message }
                        && connections@ == final(self).spec_active_conns() && message
                        == ServerOutbound::AllReadyToGo)
                    &&& r.1 ==> final(self).rg_client_data@.len() == old(self).max_players as int
                        && !old(self).ready_broadcast_sent
                }
            }),
    {
        let rec = self.rg_pending_client_data[pending_auth_index];
        if !rec.active {
            return (Vec::new(), false);
        }
        let conn = match rec.hsteam_net_connection {
            Some(c) => c,
            None => {
                proof {
                    assert(false);
                }
                0
            },
        };
        let ghost pending0 = self.rg_pending_client_data@;
        if !auth_successful {
            self.rg_pending_client_data.remove(pending_auth_index);
            proof {
                lemma_count_flagged_remove(pending0, pending_auth_index as int);
                lemma_count_flagged_bound(self.rg_pending_client_data@);
            }
            let mut a: Vec<ServerAction> = Vec::new();
            a.push(ServerAction::EndAuthSession { identity: rec.steam_iduser });
            a.push(
                ServerAction::Send { connection: conn, message: ServerOutbound::FailAuthentication },
            );
            a.push(
                ServerAction::CloseConnection {
                    connection: conn,
                    end: NetConnectionEnd::AppException,
                },
            );
            proof {
                assert(a@ =~= seq![
                    ServerAction::EndAuthSession { identity: rec.steam_iduser },
                    ServerAction::Send {
                        connection: conn,
                        message: ServerOutbound::FailAuthentication,
                    },
                    ServerAction::CloseConnection {
                        connection: conn,
                        end: NetConnectionEnd::AppException,
                    },
                ]);
            }
            return (a, false);
        }
        let mut moved = self.rg_pending_client_data.remove(pending_auth_index);
        moved.ul_tick_count_last_data = now_ms;
        proof {
            lemma_count_flagged_remove(pending0, pending_auth_index as int);
            lemma_count_flagged_bound(self.rg_pending_client_data@);
        }
        self.rg_client_data.push(moved);
        let mut a: Vec<ServerAction> = Vec::new();
        a.push(
            ServerAction::Send {
                connection: conn,
                message: ServerOutbound::PassAuthentication(rec.player_position),
            },
        );
        let mut ready = false;
        if self.rg_client_data.len() == self.max_players as usize && !self.ready_broadcast_sent {
            ready = true;
            self.ready_broadcast_sent = true;
            self.game_state = EServerGameState::KEserverActive;
            let conns = self.active_connections();
            a.push(
                ServerAction::BroadcastTo {
                    connections: conns,
                    message: ServerOutbound::AllReadyToGo,
                },
            );
        }
        (a, ready)
    }

    /// A per-channel update from a participant: for an active sender the
    /// latest value for (sender, channel) is stored, overwriting the
    /// previous one; anyone else's update, an oversized payload, or one
    /// that would overflow the snapshot budget is dropped.
    pub fn on_client_frame_data(&mut self, types: u32, data: Vec<u8>, remote: u64) -> (accepted:
        bool)
        requires
            old(self).wf(),
        ensures
            final(self).wf(),
            !old(self).spec_has_active(remote) ==> !accepted && *final(self) == *old(self),
            old(self).spec_has_active(remote) ==> {
                &&& accepted <==> (data@.len() <= MAX_ENTRY_PAYLOAD as int && table_bytes(
                    spec_submit_channel(old(self).frame_messages.model(), remote, types, data@),
                ) <= u32::MAX as int)
                &&& accepted ==> *final(self) == (ServerSession {
                    frame_messages: final(self).frame_messages,
                    ..*old(self)
                }) && final(self).frame_messages.model() == spec_submit_channel(
                    old(self).frame_messages.model(),
                    remote,
                    types,
                    data@,
                )
                &&& !accepted ==> *final(self) == *old(self)
            },
    {
        if self.find_active(remote).is_none() {
            return false;
        }
        self.frame_messages.submit_channel(remote, types, data)
    }

    /// An initial snapshot (the reserved channel 0) from a participant:
    /// for an active sender it replaces that identity's entry in the
    /// start payload, adjusting the tracked size; it is dropped once the
    /// start payload has been consumed, from a non-participant, or when
    /// it would not fit.
    pub fn on_client_games_data(&mut self, data: Vec<u8>, remote: u64) -> (accepted: bool)
        requires
            old(self).wf(),
        ensures
            final(self).wf(),
            old(self).game_start_consumed || !old(self).spec_has_active(remote) ==> !accepted
                && *final(self) == *old(self),
            !old(self).game_start_consumed && old(self).spec_has_active(remote) ==> {
                &&& accepted <==> (data@.len() <= MAX_ENTRY_PAYLOAD as int && start_bytes(
                    spec_submit_start(old(self).game_start_data.model(), remote, data@),
                ) + 2 * spec_submit_start(old(self).game_start_data.model(), remote, data@).len()
                    <= u32::MAX as int)
                &&& accepted ==> *final(self) == (ServerSession {
                    game_start_data: final(self).game_start_data,
                    ..*old(self)
                }) && final(self).game_start_data.model() == spec_submit_start(
                    old(self).game_start_data.model(),
                    remote,
                    data@,
                )
                &&& !accepted ==> *final(self) == *old(self)
            },
    {
        if self.game_start_consumed {
            return false;
        }
        if self.find_active(remote).is_none() {
            return false;
        }
        self.game_start_data.submit_start(remote, data)
    }

    /// Relays a participant's broadcast verbatim, re-tagged as a
    /// server-origin broadcast, to every active participant - the sender
    /// included: the relay makes no loop-back exception.
    pub fn on_client_broadcast(&self, msg: MsgClientDataBroadcast) -> (a: ServerAction)
        requires
            self.wf(),
        ensures
            (a matches ServerAction::BroadcastTo { connections, message } && connections@
                == self.spec_active_conns() && (message matches ServerOutbound::Broadcast(m)
                && m.types == msg.types && m.data@ == msg.data@ && m.local_steam_id
                == msg.local_steam_id)),
    {
        let connections = self.active_connections();
        let relayed = MsgServerDataBroadcast {
            types: msg.types,
            data: msg.data,
            local_steam_id: msg.local_steam_id,
        };
        ServerAction::BroadcastTo { connections, message: ServerOutbound::Broadcast(relayed) }
    }

    /// Every active participant has finished loading.
    pub open spec fn spec_all_load_complete(s: Seq<ClientConnectionData>) -> bool {
        forall|i: int| 0 <= i < s.len() ==> (#[trigger] s[i]).load_complete
    }

    /// A participant reports its loading done. Once every active
    /// participant has reported, the assembled start payload is consumed
    /// - broadcast to all and cleared, exactly once per session. Reports
    /// after consumption or from non-participants are dropped.
    pub fn on_client_load_complete(&mut self, remote: u64) -> (r: Option<ServerAction>)
        requires
            old(self).wf(),
        ensures
            final(self).wf(),
            old(self).game_start_consumed || !old(self).spec_has_active(remote) ==> r is None
                && *final(self) == *old(self),
            !old(self).game_start_consumed && old(self).spec_has_active(remote) ==> (exists|i: int|
                0 <= i < old(self).rg_client_data@.len() && (
                #[trigger] old(self).rg_client_data@[i]).steam_iduser == remote && {
                    let marked = old(self).rg_client_data@.update(
                        i,
                        (ClientConnectionData {
                            load_complete: true,
                            ..old(self).rg_client_data@[i]
                        }),
                    );
                    &&& final(self).rg_client_data@ == marked
                    &&& !ServerSession::spec_all_load_complete(marked) ==> r is None && *final(self)
                        == (ServerSession {
                        rg_client_data: final(self).rg_client_data,
                        ..*old(self)
                    })
                    &&& ServerSession::spec_all_load_complete(marked) ==> *final(self)
                        == (ServerSession {
                        rg_client_data: final(self).rg_client_data,
                        game_start_data: final(self).game_start_data,
                        game_start_consumed: true,
                        ..*old(self)
                    }) && final(self).game_start_data.model() == Seq::<(u64, Seq<u8>)>::empty() && (
                    r matches Some(act) && (act matches ServerAction::BroadcastTo {
                        connections,
                        message,
                    } && connections@ == final(self).spec_active_conns() && (
                    message matches ServerOutbound::GameStart(m) && m.game_data@.map(
                        |j: int, f: crate::message::MsgServerFrameData| (f.local_steam_id, f.data@),
                    ) == old(self).game_start_data.model() && m.buffer_size == old(
                        self,
                    ).game_start_data.payload_bytes)))
                }),
    {
        if self.game_start_consumed {
            return None;
        }
        let found = match self.find_active(remote) {
            Some(i) => i,
            None => {
                return None;
            },
        };
        let ghost active0 = self.rg_client_data@;
        let mut record = self.rg_client_data.remove(found);
        record.load_complete = true;
        self.rg_client_data.insert(found, record);
        proof {
            let i = found as int;
            let marked = (ClientConnectionData { load_complete: true, ..active0[i] });
            assert(self.rg_client_data@ =~= active0.update(i, marked));
        }
        let mut all_load = true;
        let mut i: usize = 0;
        while i < self.rg_client_data.len()
            invariant
                i <= self.rg_client_data@.len(),
                all_load == (forall|j: int|
                    0 <= j < i ==> (#[trigger] self.rg_client_data@[j]).load_complete),
            decreases self.rg_client_data@.len() - i,
        {
            if !self.rg_client_data[i].load_complete {
                all_load = false;
            }
            i = i + 1;
        }
        if !all_load {
            return None;
        }
        let msg = self.game_start_data.take_message();
        self.game_start_consumed = true;
        let connections = self.active_connections();
        Some(
            ServerAction::BroadcastTo {
                connections,
                message: ServerOutbound::GameStart(msg),
            },
        )
    }

    /// Drains the whole per-channel table into one snapshot and returns
    /// it for broadcasting to every active participant; with nothing
    /// accumulated there is no snapshot this tick. Each snapshot carries
    /// the next sequence number. The caller triggers this on its own
    /// fixed-rate timer.
    pub fn build_frames_snapshot(&mut self) -> (r: Option<ServerAction>)
        requires
            old(self).wf(),
        ensures
            final(self).wf(),
            old(self).frame_messages.model().len() == 0 ==> r is None && *final(self) == *old(self),
            old(self).frame_messages.model().len() > 0 ==> *final(self) == (ServerSession {
                frame_messages: final(self).frame_messages,
                frame_id: if old(self).frame_id == u32::MAX {
                    0u32
                } else {
                    (old(self).frame_id + 1) as u32
                },
                ..*old(self)
            }) && final(self).frame_messages.model() == Seq::<(u64, u32, Seq<u8>)>::empty() && (
            r matches Some(act) && (act matches ServerAction::BroadcastTo { connections, message }
                && connections@ == old(self).spec_active_conns() && (
            message matches ServerOutbound::FramesData(m) && m.game_data@.map(
                |j: int, f: crate::message::MsgServerFrameData| (f.local_steam_id, f.types, f.data@),
            ) == old(self).frame_messages.model() && m.buffer_size as int == table_bytes(
                old(self).frame_messages.model(),
            ) - 2 * old(self).frame_messages.model().len() && m.frame_id == old(self).frame_id))),
    {
        if self.frame_messages.slots.len() == 0 {
            proof {
                assert(self.frame_messages.model().len() == 0);
            }
            return None;
        }
        let (game_data, buffer_size) = self.frame_messages.take_all();
        let msg = MsgServerFramesData { game_data, buffer_size, frame_id: self.frame_id };
        if self.frame_id == u32::MAX {
            self.frame_id = 0;
        } else {
            self.frame_id = self.frame_id + 1;
        }
        let connections = self.active_connections();
        Some(
            ServerAction::BroadcastTo {
                connections,
                message: ServerOutbound::FramesData(msg),
            },
        )
    }

    /// The platform backend accepted the server's logon.
    pub fn on_servers_connected(&mut self) -> (count: u32)
        ensures
            *final(self) == (ServerSession {
                is_connected_to_steam: true,
                connected_success_count: if old(self).connected_success_count == u32::MAX {
                    u32::MAX
                } else {
                    (old(self).connected_success_count + 1) as u32
                },
                ..*old(self)
            }),
            count == final(self).connected_success_count,
    {
        self.is_connected_to_steam = true;
        if self.connected_success_count < u32::MAX {
            self.connected_success_count = self.connected_success_count + 1;
        }
        self.connected_success_count
    }

    /// The platform backend could not be reached.
    pub fn on_servers_connect_failure(&mut self)
        ensures
            *final(self) == (ServerSession { is_connected_to_steam: false, ..*old(self) }),
    {
        self.is_connected_to_steam = false;
    }

    /// The platform backend connection was lost.
    pub fn on_servers_disconnected(&mut self)
        ensures
            *final(self) == (ServerSession { is_connected_to_steam: false, ..*old(self) }),
    {
        self.is_connected_to_steam = false;
    }

    /// The platform reported its anti-cheat policy for this server.
    pub fn on_gspolicy_response(&mut self, secure: u8)
        ensures
            *final(self) == (ServerSession {
                policy_response_callback: true,
                vac_secure: secure != 0,
                ..*old(self)
            }),
    {
        self.policy_response_callback = true;
        self.vac_secure = secure != 0;
    }

    /// The server process has a platform backend connection.
    pub fn is_connected_to_steam(&self) -> (r: bool)
        ensures
            r == self.is_connected_to_steam,
    {
        self.is_connected_to_steam
    }

    /// The anti-cheat policy answer has arrived.
    pub fn is_policy_response_callback(&self) -> (r: bool)
        ensures
            r == self.policy_response_callback,
    {
        self.policy_response_callback
    }

    /// Sets the application id.
    pub fn set_appid(&mut self, appid: u32)
        ensures
            *final(self) == (ServerSession { app_id: appid, ..*old(self) }),
    {
        self.app_id = appid;
    }

    /// Sets the player capacity. The capacity cannot be set below what
    /// the session already holds.
    pub fn set_max_player(&mut self, max: u8)
        requires
            old(self).wf(),
            old(self).rg_client_data@.len() + count_flagged(old(self).rg_pending_client_data@)
                <= max as int,
            old(self).rg_pending_client_data@.len() <= max as int,
        ensures
            final(self).wf(),
            *final(self) == (ServerSession { max_players: max, ..*old(self) }),
    {
        self.max_players = max;
    }

    /// Sets the application name.
    pub fn set_app_name(&mut self, name: String)
        ensures
            *final(self) == (ServerSession { name: name, ..*old(self) }),
    {
        self.name = name;
    }

    /// Sets the map name.
    pub fn set_map_name(&mut self, name: String)
        ensures
            *final(self) == (ServerSession { map_name: name, ..*old(self) }),
    {
        self.map_name = name;
    }

    /// Sets the server name sent in the introduction message.
    pub fn set_server_name(&mut self, name: String)
        ensures
            *final(self) == (ServerSession { server_name: name, ..*old(self) }),
    {
        self.server_name = name;
    }

    /// Sets the advertised bot count.
    pub fn set_bot_player_count(&mut self, bot: u32)
        ensures
            *final(self) == (ServerSession { player_bot: bot, ..*old(self) }),
    {
        self.player_bot = bot;
    }

    /// Sets the lobby this server hosts.
    pub fn set_lobby_id(&mut self, lobby_id: u64)
        ensures
            *final(self) == (ServerSession { lobby_id: lobby_id, ..*old(self) }),
    {
        self.lobby_id = lobby_id;
    }

    /// The lobby this server hosts.
    pub fn get_lobby_id(&self) -> (r: u64)
        ensures
            r == self.lobby_id,
    {
        self.lobby_id
    }

    /// The server's own platform identity, recorded at `open`.
    pub fn get_server_steam_id(&self) -> (r: u64)
        ensures
            r == self.server_id,
    {
        self.server_id
    }

    /// Records the parameters the platform logon will use.
    pub fn initialize(
        &mut self,
        pch_game_dir: String,
        un_ip: u32,
        us_steam_port: u16,
        us_game_port: u16,
        us_query_port: u16,
        server_mode: EServerMode,
        pch_version_string: String,
    )
        ensures
            *final(self) == (ServerSession {
                pch_game_dir: pch_game_dir,
                un_ip: un_ip,
                us_steam_port: us_steam_port,
                us_game_port: us_game_port,
                us_query_port: us_query_port,
                server_mode: server_mode,
                pch_version_string: pch_version_string,
                ..*old(self)
            }),
    {
        self.pch_game_dir = pch_game_dir;
        self.un_ip = un_ip;
        self.us_steam_port = us_steam_port;
        self.us_game_port = us_game_port;
        self.us_query_port = us_query_port;
        self.server_mode = server_mode;
        self.pch_version_string = pch_version_string;
    }

    /// Opens the session once the platform server is up: requires a
    /// lobby and a capacity to be configured, refuses a second open, and
    /// records the server's own identity. The session then waits for
    /// players.
    pub fn open(&mut self, server_id: u64) -> (opened: bool)
        requires
            old(self).wf(),
        ensures
            final(self).wf(),
            old(self).opened || old(self).lobby_id == 0 || old(self).max_players == 0 ==> !opened
                && *final(self) == *old(self),
            !old(self).opened && old(self).lobby_id != 0 && old(self).max_players != 0 ==> opened
                && *final(self) == (ServerSession {
                opened: true,
                can_close: true,
                connected_success_count: 0,
                player_count: 0,
                game_state: EServerGameState::KEserverWaitingForPlayers,
                server_id: server_id,
                ..*old(self)
            }),
    {
        if self.opened {
            return false;
        }
        if self.lobby_id == 0 {
            return false;
        }
        if self.max_players == 0 {
            return false;
        }
        self.opened = true;
        self.can_close = true;
        self.connected_success_count = 0;
        self.player_count = 0;
        self.game_state = EServerGameState::KEserverWaitingForPlayers;
        self.server_id = server_id;
        true
    }
}

/// A server session never holds more than `max_players` active
/// participants: however connections, authentications and validation
/// outcomes interleave, the active list is bounded by the configured
/// capacity.
pub proof fn lemma_active_capacity(s: ServerSession)
    requires
        s.wf(),
    ensures
        s.rg_client_data@.len() <= s.max_players as int,
{
    lemma_count_flagged_bound(s.rg_pending_client_data@);
}

} // verus!
