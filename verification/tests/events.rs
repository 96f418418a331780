use steamp2p::events::AuthSessionError;
use steamp2p::events::AuthSessionValidateError;
use steamp2p::events::LobbyId;
use steamp2p::events::ValidateAuthTicketResponse;

#[test]
fn lobby_id_round_trips_its_raw_value() {
    let id = LobbyId::from_raw(0xDEAD_BEEF_0000_0001);
    assert_eq!(id.raw(), 0xDEAD_BEEF_0000_0001);
    assert_eq!(LobbyId::from_raw(id.raw()), id);
}

#[test]
fn validation_outcome_distinguishes_success_from_rejection() {
    let ok = ValidateAuthTicketResponse { steam_id: 7, response: None, owner_steam_id: 7 };
    assert!(ok.response.is_none());

    let rejected = ValidateAuthTicketResponse {
        steam_id: 7,
        response: Some(AuthSessionValidateError::AuthTicketCancelled),
        owner_steam_id: 8,
    };
    assert!(rejected.response.is_some());
    assert_eq!(
        rejected.response.unwrap().describe(),
        "the authentication ticket has been cancelled"
    );
}

#[test]
fn auth_errors_describe_themselves() {
    assert_eq!(AuthSessionError::InvalidTicket.describe(), "invalid ticket");
    assert_eq!(AuthSessionError::ExpiredTicket.describe(), "ticket has expired");
    assert_eq!(
        AuthSessionValidateError::VACBanned.describe(),
        "the user is VAC banned from this game"
    );
}
