//! Wire message tags and message bodies.
//!
//! Every frame on the wire starts with a 4-byte little-endian tag followed
//! by the serialized message body. The tag space is split into ranges:
//! server-origin messages live in 300-399, client-origin messages in
//! 500-599, with 600 and 700 reserved for peer-to-peer authentication and
//! voice traffic. A tag outside the known set decodes to [`EMessage::Error`],
//! which must never be dispatched.

use vstd::prelude::*;

verus! {

/// Handle value that stands for "no transport connection".
pub const HSTEAM_NET_CONNECTION_INVALID: u32 = 0;

/// First connection-end reason code reserved for the application.
pub const ESTEAM_NET_CONNECTION_END_APP_MIN: i32 = 1000;

/// Message kind carried in the 4-byte frame header.
///
/// The code of each tag is its 32-bit pattern on the wire;
/// [`EMessage::Error`] uses the all-ones pattern and is never sent
/// deliberately - it is the decoder's rejection value.
#[derive(Clone, Copy, Debug, PartialEq, Eq, Structural)]
pub enum EMessage {
    Error,
    Begin,
    Server,
    Client,
    ServerBegin,
    ServerSendInfo,
    ServerFailAuthentication,
    ServerPassAuthentication,
    ServerAllReadyToGo,
    ServerFrameData,
    ServerFramesData,
    ServerGameStart,
    ServerSetGameStartDataComplete,
    ServerBroadcast,
    ClientBegin,
    ClientBeginAuthentication,
    ClientLoadComplete,
    ClientFrameData,
    ClientBroadcast,
    P2pBegin,
    VoiceChatBegin,
}

impl EMessage {
    /// The 32-bit wire code of this tag.
    pub open spec fn code(self) -> u32 {
        match self {
            EMessage::Error => 0xFFFF_FFFFu32,
            EMessage::Begin => 0,
            EMessage::Server => 1,
            EMessage::Client => 2,
            EMessage::ServerBegin => 300,
            EMessage::ServerSendInfo => 301,
            EMessage::ServerFailAuthentication => 302,
            EMessage::ServerPassAuthentication => 303,
            EMessage::ServerAllReadyToGo => 304,
            EMessage::ServerFrameData => 305,
            EMessage::ServerFramesData => 306,
            EMessage::ServerGameStart => 307,
            EMessage::ServerSetGameStartDataComplete => 308,
            EMessage::ServerBroadcast => 309,
            EMessage::ClientBegin => 500,
            EMessage::ClientBeginAuthentication => 502,
            EMessage::ClientLoadComplete => 503,
            EMessage::ClientFrameData => 504,
            EMessage::ClientBroadcast => 505,
            EMessage::P2pBegin => 600,
            EMessage::VoiceChatBegin => 700,
        }
    }

    /// Executable twin of [`EMessage::code`].
    pub fn tag_code(self) -> (c: u32)
        ensures
            c == self.code(),
    {
        match self {
            EMessage::Error => 0xFFFF_FFFFu32,
            EMessage::Begin => 0,
            EMessage::Server => 1,
            EMessage::Client => 2,
            EMessage::ServerBegin => 300,
            EMessage::ServerSendInfo => 301,
            EMessage::ServerFailAuthentication => 302,
            EMessage::ServerPassAuthentication => 303,
            EMessage::ServerAllReadyToGo => 304,
            EMessage::ServerFrameData => 305,
            EMessage::ServerFramesData => 306,
            EMessage::ServerGameStart => 307,
            EMessage::ServerSetGameStartDataComplete => 308,
            EMessage::ServerBroadcast => 309,
            EMessage::ClientBegin => 500,
            EMessage::ClientBeginAuthentication => 502,
            EMessage::ClientLoadComplete => 503,
            EMessage::ClientFrameData => 504,
            EMessage::ClientBroadcast => 505,
            EMessage::P2pBegin => 600,
            EMessage::VoiceChatBegin => 700,
        }
    }

    /// The tag a 32-bit wire code decodes to; unknown codes decode to
    /// [`EMessage::Error`].
    pub open spec fn spec_from_code(c: u32) -> EMessage {
        if c == 0 {
            EMessage::Begin
        } else if c == 1 {
            EMessage::Server
        } else if c == 2 {
            EMessage::Client
        } else if c == 300 {
            EMessage::ServerBegin
        } else if c == 301 {
            EMessage::ServerSendInfo
        } else if c == 302 {
            EMessage::ServerFailAuthentication
        } else if c == 303 {
            EMessage::ServerPassAuthentication
        } else if c == 304 {
            EMessage::ServerAllReadyToGo
        } else if c == 305 {
            EMessage::ServerFrameData
        } else if c == 306 {
            EMessage::ServerFramesData
        } else if c == 307 {
            EMessage::ServerGameStart
        } else if c == 308 {
            EMessage::ServerSetGameStartDataComplete
        } else if c == 309 {
            EMessage::ServerBroadcast
        } else if c == 500 {
            EMessage::ClientBegin
        } else if c == 502 {
            EMessage::ClientBeginAuthentication
        } else if c == 503 {
            EMessage::ClientLoadComplete
        } else if c == 504 {
            EMessage::ClientFrameData
        } else if c == 505 {
            EMessage::ClientBroadcast
        } else if c == 600 {
            EMessage::P2pBegin
        } else if c == 700 {
            EMessage::VoiceChatBegin
        } else {
            EMessage::Error
        }
    }

    /// Executable twin of [`EMessage::spec_from_code`].
    pub fn from_code(c: u32) -> (m: EMessage)
        ensures
            m == EMessage::spec_from_code(c),
    {
        match c {
            0 => EMessage::Begin,
            1 => EMessage::Server,
            2 => EMessage::Client,
            300 => EMessage::ServerBegin,
            301 => EMessage::ServerSendInfo,
            302 => EMessage::ServerFailAuthentication,
            303 => EMessage::ServerPassAuthentication,
            304 => EMessage::ServerAllReadyToGo,
            305 => EMessage::ServerFrameData,
            306 => EMessage::ServerFramesData,
            307 => EMessage::ServerGameStart,
            308 => EMessage::ServerSetGameStartDataComplete,
            309 => EMessage::ServerBroadcast,
            500 => EMessage::ClientBegin,
            502 => EMessage::ClientBeginAuthentication,
            503 => EMessage::ClientLoadComplete,
            504 => EMessage::ClientFrameData,
            505 => EMessage::ClientBroadcast,
            600 => EMessage::P2pBegin,
            700 => EMessage::VoiceChatBegin,
            _ => EMessage::Error,
        }
    }
}

/// Every tag decodes back to itself: the tag registry is a bijection
/// between the known tags and their codes.
pub proof fn lemma_tag_code_round_trip(t: EMessage)
    ensures
        EMessage::spec_from_code(t.code()) == t,
{
}

/// Application-level reasons a connection is closed, occupying the
/// reserved range starting at [`ESTEAM_NET_CONNECTION_END_APP_MIN`].
#[derive(Clone, Copy, Debug, PartialEq, Eq, Structural)]
pub enum EDisconnectReason {
    EDRClientDisconnect,
    EDRServerClosed,
    EDRServerReject,
    EDRServerFull,
    EDRClientKicked,
}

impl EDisconnectReason {
    /// The connection-end code reported to the transport.
    pub open spec fn code(self) -> i32 {
        match self {
            EDisconnectReason::EDRClientDisconnect => (ESTEAM_NET_CONNECTION_END_APP_MIN + 1) as i32,
            EDisconnectReason::EDRServerClosed => (ESTEAM_NET_CONNECTION_END_APP_MIN + 2) as i32,
            EDisconnectReason::EDRServerReject => (ESTEAM_NET_CONNECTION_END_APP_MIN + 3) as i32,
            EDisconnectReason::EDRServerFull => (ESTEAM_NET_CONNECTION_END_APP_MIN + 4) as i32,
            EDisconnectReason::EDRClientKicked => (ESTEAM_NET_CONNECTION_END_APP_MIN + 5) as i32,
        }
    }

    /// Executable twin of [`EDisconnectReason::code`].
    pub fn reason_code(self) -> (c: i32)
        ensures
            c == self.code(),
    {
        match self {
            EDisconnectReason::EDRClientDisconnect => 1001,
            EDisconnectReason::EDRServerClosed => 1002,
            EDisconnectReason::EDRServerReject => 1003,
            EDisconnectReason::EDRServerFull => 1004,
            EDisconnectReason::EDRClientKicked => 1005,
        }
    }
}

/// A message body type together with the tag it travels under.
pub trait INetMessage {
    /// The tag of this message kind.
    spec fn spec_id() -> EMessage;

    /// Executable twin of [`INetMessage::spec_id`].
    fn id() -> (t: EMessage)
        ensures
            t == Self::spec_id(),
    ;
}

/// Server hello: identifies the server and asks the client to
/// authenticate.
#[derive(Clone, Debug, PartialEq)]
pub struct MsgServerSendInfo {
    pub ul_steam_idserver: u64,
    pub is_vacsecure: bool,
    pub rgch_server_name: String,
}

impl INetMessage for MsgServerSendInfo {
    open spec fn spec_id() -> EMessage {
        EMessage::ServerSendInfo
    }

    fn id() -> EMessage {
        EMessage::ServerSendInfo
    }
}

/// Client answer to [`MsgServerSendInfo`]: the authentication ticket.
#[derive(Clone, Debug, PartialEq)]
pub struct MsgClientBeginAuthentication {
    pub rgch_token: Vec<u8>,
}

impl INetMessage for MsgClientBeginAuthentication {
    open spec fn spec_id() -> EMessage {
        EMessage::ClientBeginAuthentication
    }

    fn id() -> EMessage {
        EMessage::ClientBeginAuthentication
    }
}

/// The server refused the authentication ticket; the client must
/// disconnect.
#[derive(Clone, Copy, Debug, PartialEq, Eq, Structural)]
pub struct MsgServerFailAuthentication;

impl INetMessage for MsgServerFailAuthentication {
    open spec fn spec_id() -> EMessage {
        EMessage::ServerFailAuthentication
    }

    fn id() -> EMessage {
        EMessage::ServerFailAuthentication
    }
}

/// The server accepted the authentication ticket; carries the player
/// slot.
#[derive(Clone, Copy, Debug, PartialEq, Eq, Structural)]
pub struct MsgServerPassAuthentication {
    pub player_position: u32,
}

impl INetMessage for MsgServerPassAuthentication {
    open spec fn spec_id() -> EMessage {
        EMessage::ServerPassAuthentication
    }

    fn id() -> EMessage {
        EMessage::ServerPassAuthentication
    }
}

/// Client signal: loading finished, ready for the start payload.
#[derive(Clone, Copy, Debug, PartialEq, Eq, Structural)]
pub struct MsgClientLoadComplete;

impl INetMessage for MsgClientLoadComplete {
    open spec fn spec_id() -> EMessage {
        EMessage::ClientLoadComplete
    }

    fn id() -> EMessage {
        EMessage::ClientLoadComplete
    }
}

/// One client update for a single logical channel.
#[derive(Clone, Debug, PartialEq)]
pub struct MsgClientFrameData {
    pub types: u32,
    pub data: Vec<u8>,
}

impl INetMessage for MsgClientFrameData {
    open spec fn spec_id() -> EMessage {
        EMessage::ClientFrameData
    }

    fn id() -> EMessage {
        EMessage::ClientFrameData
    }
}

/// One aggregated update the server re-broadcasts, tagged with its
/// original sender.
#[derive(Clone, Debug, PartialEq)]
pub struct MsgServerFrameData {
    pub types: u32,
    pub data: Vec<u8>,
    pub local_steam_id: u64,
}

impl INetMessage for MsgServerFrameData {
    open spec fn spec_id() -> EMessage {
        EMessage::ServerFrameData
    }

    fn id() -> EMessage {
        EMessage::ServerFrameData
    }
}

/// Client payload relayed verbatim to every participant.
#[derive(Clone, Debug, PartialEq)]
pub struct MsgClientDataBroadcast {
    pub types: u32,
    pub data: Vec<u8>,
    pub local_steam_id: u64,
}

impl INetMessage for MsgClientDataBroadcast {
    open spec fn spec_id() -> EMessage {
        EMessage::ClientBroadcast
    }

    fn id() -> EMessage {
        EMessage::ClientBroadcast
    }
}

/// Server-side relay of a [`MsgClientDataBroadcast`].
#[derive(Clone, Debug, PartialEq)]
pub struct MsgServerDataBroadcast {
    pub types: u32,
    pub data: Vec<u8>,
    pub local_steam_id: u64,
}

impl INetMessage for MsgServerDataBroadcast {
    open spec fn spec_id() -> EMessage {
        EMessage::ServerBroadcast
    }

    fn id() -> EMessage {
        EMessage::ServerBroadcast
    }
}

/// The one-shot game start payload: every participant's initial
/// snapshot.
#[derive(Clone, Debug, PartialEq)]
pub struct MsgServerGameStart {
    pub game_data: Vec<MsgServerFrameData>,
    pub buffer_size: u32,
}

impl INetMessage for MsgServerGameStart {
    open spec fn spec_id() -> EMessage {
        EMessage::ServerGameStart
    }

    fn id() -> EMessage {
        EMessage::ServerGameStart
    }
}

/// A periodic snapshot of the latest value of every channel.
#[derive(Clone, Debug, PartialEq)]
pub struct MsgServerFramesData {
    pub game_data: Vec<MsgServerFrameData>,
    pub buffer_size: u32,
    pub frame_id: u32,
}

impl INetMessage for MsgServerFramesData {
    open spec fn spec_id() -> EMessage {
        EMessage::ServerFramesData
    }

    fn id() -> EMessage {
        EMessage::ServerFramesData
    }
}

} // verus!
