use steamp2p::client_session::ClientSession;
use steamp2p::codec::decode;
use steamp2p::codec::encode;
use steamp2p::message::EDisconnectReason;
use steamp2p::message::EMessage;
use steamp2p::message::INetMessage;
use steamp2p::message::MsgClientBeginAuthentication;
use steamp2p::message::MsgClientFrameData;
use steamp2p::message::MsgServerGameStart;
use steamp2p::message::MsgServerSendInfo;
use steamp2p::message::ESTEAM_NET_CONNECTION_END_APP_MIN;

#[test]
fn encode_prepends_little_endian_tag() {
    let frame = encode(EMessage::ServerSendInfo, &vec![7, 8, 9]);
    // 301 = 0x012D, little endian
    assert_eq!(frame, vec![0x2D, 0x01, 0x00, 0x00, 7, 8, 9]);
}

#[test]
fn encode_empty_body_is_four_bytes() {
    let frame = encode(EMessage::ClientLoadComplete, &Vec::new());
    assert_eq!(frame, vec![0xF7, 0x01, 0x00, 0x00]);
    assert_eq!(frame.len(), 4);
}

#[test]
fn decode_round_trips_every_tag() {
    let tags = vec![
        EMessage::Begin,
        EMessage::Server,
        EMessage::Client,
        EMessage::ServerBegin,
        EMessage::ServerSendInfo,
        EMessage::ServerFailAuthentication,
        EMessage::ServerPassAuthentication,
        EMessage::ServerAllReadyToGo,
        EMessage::ServerFrameData,
        EMessage::ServerFramesData,
        EMessage::ServerGameStart,
        EMessage::ServerSetGameStartDataComplete,
        EMessage::ServerBroadcast,
        EMessage::ClientBegin,
        EMessage::ClientBeginAuthentication,
        EMessage::ClientLoadComplete,
        EMessage::ClientFrameData,
        EMessage::ClientBroadcast,
        EMessage::P2pBegin,
        EMessage::VoiceChatBegin,
    ];
    for tag in tags {
        let body = vec![1, 2, 3, 4, 5];
        let (t, b) = decode(&encode(tag, &body));
        assert_eq!(t, tag);
        assert_eq!(b, body);
    }
}

#[test]
fn tag_codes_match_the_wire_ranges() {
    assert_eq!(EMessage::ServerSendInfo.tag_code(), 301);
    assert_eq!(EMessage::ServerBroadcast.tag_code(), 309);
    assert_eq!(EMessage::ClientBeginAuthentication.tag_code(), 502);
    assert_eq!(EMessage::ClientBroadcast.tag_code(), 505);
    assert_eq!(EMessage::P2pBegin.tag_code(), 600);
    assert_eq!(EMessage::VoiceChatBegin.tag_code(), 700);
    assert_eq!(EMessage::from_code(301), EMessage::ServerSendInfo);
    assert_eq!(EMessage::from_code(9999), EMessage::Error);
    assert_eq!(EMessage::from_code(u32::MAX), EMessage::Error);
}

#[test]
fn short_frame_decodes_to_error_and_dispatcher_does_not_mutate() {
    // A decode attempted on a 3-byte frame yields the Error tag with an
    // empty body; the dispatcher drops such frames, so the session is
    // untouched.
    let mut session = ClientSession::new();
    session.initialize(42);
    let before = session.clone();

    let frame = vec![0x2D, 0x01, 0x00];
    let (tag, body) = decode(&frame);
    assert_eq!(tag, EMessage::Error);
    assert!(body.is_empty());
    // Error-tagged frames are never dispatched: no handler runs.
    assert_eq!(session, before);
}

#[test]
fn unknown_tag_decodes_to_error_with_empty_body() {
    let mut frame = vec![0x0F, 0x27, 0x00, 0x00]; // 9999: no such tag
    frame.extend_from_slice(&[1, 2, 3]);
    let (tag, body) = decode(&frame);
    assert_eq!(tag, EMessage::Error);
    assert!(body.is_empty());
}

#[test]
fn empty_frame_decodes_to_error() {
    let (tag, body) = decode(&Vec::new());
    assert_eq!(tag, EMessage::Error);
    assert!(body.is_empty());
}

#[test]
fn message_bodies_know_their_tag() {
    assert_eq!(MsgServerSendInfo::id(), EMessage::ServerSendInfo);
    assert_eq!(MsgClientBeginAuthentication::id(), EMessage::ClientBeginAuthentication);
    assert_eq!(MsgClientFrameData::id(), EMessage::ClientFrameData);
    assert_eq!(MsgServerGameStart::id(), EMessage::ServerGameStart);
}

#[test]
fn disconnect_reasons_sit_in_the_application_range() {
    assert_eq!(ESTEAM_NET_CONNECTION_END_APP_MIN, 1000);
    assert_eq!(EDisconnectReason::EDRClientDisconnect.reason_code(), 1001);
    assert_eq!(EDisconnectReason::EDRServerClosed.reason_code(), 1002);
    assert_eq!(EDisconnectReason::EDRServerReject.reason_code(), 1003);
    assert_eq!(EDisconnectReason::EDRServerFull.reason_code(), 1004);
    assert_eq!(EDisconnectReason::EDRClientKicked.reason_code(), 1005);
}
