//! Plain-value forms of the platform events and identifiers the sessions
//! consume.
//!
//! The platform collaborator (identity, matchmaking, ticket validation)
//! delivers its results asynchronously; the surrounding event loop turns
//! each callback into one of these values and hands it to the session
//! state machines, which decide everything else.

use vstd::prelude::*;

verus! {

/// Handle of a matchmaking lobby.
#[derive(Clone, Copy, Debug, PartialEq, Eq, Hash, Structural)]
pub struct LobbyId(pub u64);

impl LobbyId {
    /// Creates a `LobbyId` from a raw 64 bit value.
    pub fn from_raw(id: u64) -> (r: LobbyId)
        ensures
            r.0 == id,
    {
        LobbyId(id)
    }

    /// Returns the raw 64 bit value of the lobby id.
    pub fn raw(&self) -> (r: u64)
        ensures
            r == self.0,
    {
        self.0
    }
}

/// The lobby has been assigned a game server: the signal that moves a
/// waiting client from the lobby to a server connection.
#[derive(Clone, Copy, Debug, PartialEq, Eq, Structural)]
pub struct LobbyGameCreated {
    pub ul_steam_idlobby: u64,
    pub ul_steam_idgame_server: u64,
    pub un_ip: u32,
    pub us_port: u16,
}

/// The server process has (re)connected to the platform backend.
#[derive(Clone, Copy, Debug, PartialEq, Eq, Structural)]
pub struct SteamServersConnected;

/// The server process lost its platform backend connection.
#[derive(Clone, Copy, Debug, PartialEq, Eq, Structural)]
pub struct SteamServersDisconnected {
    pub reason: i64,
}

/// The server process failed to reach the platform backend.
#[derive(Clone, Copy, Debug, PartialEq, Eq, Structural)]
pub struct SteamServerConnectFailure {
    pub reason: i64,
    pub still_retrying: bool,
}

/// Why a submitted authentication ticket was rejected.
#[derive(Clone, Copy, Debug, PartialEq, Eq, Structural)]
pub enum AuthSessionValidateError {
    UserNotConnectedToSteam,
    NoLicenseOrExpired,
    VACBanned,
    LoggedInElseWhere,
    VACCheckTimedOut,
    AuthTicketCancelled,
    AuthTicketInvalidAlreadyUsed,
    AuthTicketInvalid,
    PublisherIssuedBan,
}

impl AuthSessionValidateError {
    /// A human-readable account of the rejection.
    pub fn describe(&self) -> &'static str {
        match self {
            AuthSessionValidateError::UserNotConnectedToSteam => "user not connected to steam",
            AuthSessionValidateError::NoLicenseOrExpired => "the license has expired",
            AuthSessionValidateError::VACBanned => "the user is VAC banned from this game",
            AuthSessionValidateError::LoggedInElseWhere => "the user is logged in elsewhere",
            AuthSessionValidateError::VACCheckTimedOut => "VAC check timed out",
            AuthSessionValidateError::AuthTicketCancelled => "the authentication ticket has been cancelled",
            AuthSessionValidateError::AuthTicketInvalidAlreadyUsed => "the authentication ticket has already been used",
            AuthSessionValidateError::AuthTicketInvalid => "the authentication ticket is invalid",
            AuthSessionValidateError::PublisherIssuedBan => "the user is banned",
        }
    }
}

/// Why starting a ticket validation failed synchronously.
#[derive(Clone, Copy, Debug, PartialEq, Eq, Structural)]
pub enum AuthSessionError {
    InvalidTicket,
    DuplicateRequest,
    InvalidVersion,
    GameMismatch,
    ExpiredTicket,
}

impl AuthSessionError {
    /// A human-readable account of the failure.
    pub fn describe(&self) -> &'static str {
        match self {
            AuthSessionError::InvalidTicket => "invalid ticket",
            AuthSessionError::DuplicateRequest => "duplicate ticket request",
            AuthSessionError::InvalidVersion => "incompatible interface version",
            AuthSessionError::GameMismatch => "incorrect game for ticket",
            AuthSessionError::ExpiredTicket => "ticket has expired",
        }
    }
}

/// The asynchronous outcome of a ticket validation: `response` is `None`
/// on success and names the rejection otherwise.
#[derive(Clone, Copy, Debug, PartialEq, Eq)]
pub struct ValidateAuthTicketResponse {
    pub steam_id: u64,
    pub response: Option<AuthSessionValidateError>,
    pub owner_steam_id: u64,
}

/// The platform's anti-cheat policy answer for this server.
#[derive(Clone, Copy, Debug, PartialEq, Eq, Structural)]
pub struct GSPolicyResponseCallback {
    pub secure: u8,
}

/// Play-session states reported to the platform's duration control.
#[derive(Clone, Copy, Debug, PartialEq, Eq, Structural)]
pub enum DurationControlOnlineState {
    DurationControlOnlineStateInvalid,
    DurationControlOnlineStateOffline,
    DurationControlOnlineStateOnline,
    DurationControlOnlineStateOnlineHighPri,
}

} // verus!
