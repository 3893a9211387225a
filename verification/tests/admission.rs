use tcpserver::connection_handler::{ConnectionHandler, HandlerError};
use tcpserver::connection_service::ConnectionService;
use tcpserver::network_utils::{ConnectionQuality, IpAddress, IpInfo};
use tcpserver::protocol::{frame_text_payload, text_payload, GameMessage, ProtocolError};

fn local() -> IpInfo {
    IpInfo::from_ip(&IpAddress::V4([127, 0, 0, 1]), "127.0.0.1".to_string())
}

#[test]
fn test_connection_handler() {
    let handler = ConnectionHandler::new(ConnectionService::new(100, 0));
    let summary = handler.get_connections_summary(0);
    assert_eq!(summary.total_connections, 0);
    let problematic = handler.identify_problematic_connections(0);
    assert!(problematic.is_empty());
}

#[test]
fn ip_info_fields() {
    let info = IpInfo::from_ip(&IpAddress::V4([192, 168, 1, 1]), "192.168.1.1".to_string());
    assert!(info.is_private);
    assert!(!info.is_localhost);
    assert_eq!(info.ip_version, "IPv4");
    let mut v6 = [0u8; 16];
    v6[15] = 1;
    let info6 = IpInfo::from_ip(&IpAddress::V6(v6), "::1".to_string());
    assert!(info6.is_localhost);
    assert_eq!(info6.ip_version, "IPv6");
    assert_eq!(info6.address, "::1");
}

#[test]
fn empty_address_is_refused() {
    let handler = ConnectionHandler::new(ConnectionService::new(100, 0));
    let info = IpInfo::from_ip(&IpAddress::V4([8, 8, 8, 8]), String::new());
    assert_eq!(handler.validate_user_connection(&info), Err(HandlerError::InvalidAddress));
    let public = IpInfo::from_ip(&IpAddress::V4([8, 8, 8, 8]), "8.8.8.8".to_string());
    assert_eq!(handler.validate_user_connection(&public), Ok(()));
}

#[test]
fn first_message_must_be_connect() {
    let mut handler = ConnectionHandler::new(ConnectionService::new(100, 0));
    let r = handler.accept_connection(&local(), GameMessage::HeartBeat, "127.0.0.1:5000".to_string(), 0);
    assert_eq!(r.err(), Some(HandlerError::NotConnectMessage));
    let (id, welcome) = handler
        .accept_connection(
            &local(),
            GameMessage::Connect { room_id: 3, user_id: 42 },
            "127.0.0.1:5000".to_string(),
            1000,
        )
        .unwrap();
    assert_eq!(id, 42);
    assert_eq!(welcome, GameMessage::ConnectionAck { user_id: 42 });
    assert_eq!(handler.connection_service().get_connection_count(), 1);
}

#[test]
fn quality_grades_and_problems() {
    let mut handler = ConnectionHandler::new(ConnectionService::new(100, 0));
    handler
        .accept_connection(&local(), GameMessage::Connect { room_id: 1, user_id: 1 }, "a".to_string(), 0)
        .unwrap();
    // just connected, heard from 0 s ago: Poor (uptime too short for better)
    assert_eq!(handler.check_connection_quality(1, 0), Ok(ConnectionQuality::Poor));
    // 26 minutes of silence
    let now = 26 * 60 * 1000;
    assert_eq!(handler.check_connection_quality(1, now), Ok(ConnectionQuality::VeryPoor));
    let problems = handler.identify_problematic_connections(now);
    assert_eq!(problems.len(), 1);
    assert_eq!(problems[0].user_id, 1);
    assert_eq!(problems[0].severity, "보통");
    assert_eq!(problems[0].issue, "하트비트 지연");
    assert_eq!(problems[0].last_heartbeat_secs, 1560);
    let later = handler.identify_problematic_connections(31 * 60 * 1000);
    assert_eq!(later[0].severity, "높음");
    assert_eq!(handler.check_connection_quality(9, 0), Err(HandlerError::UserNotFound(9)));
    let summary = handler.get_connections_summary(now);
    assert_eq!(summary.total_connections, 1);
    assert_eq!(summary.quality_distribution.very_poor, 1);
    assert_eq!(summary.quality_distribution.poor, 0);
}

#[test]
fn disconnection_notice() {
    let mut handler = ConnectionHandler::new(ConnectionService::new(100, 0));
    handler
        .accept_connection(&local(), GameMessage::Connect { room_id: 1, user_id: 7 }, "a".to_string(), 0)
        .unwrap();
    let (notice, removed) = handler.handle_disconnection(7);
    assert!(removed);
    assert_eq!(
        notice,
        GameMessage::Error { code: 1001, message: "사용자 7가 연결을 해제했습니다".to_string() }
    );
    let (_, again) = handler.handle_disconnection(7);
    assert!(!again);
}

#[test]
fn text_payload_reads_framed_utf8() {
    let framed = frame_text_payload("{\"HeartBeat\":null}".as_bytes());
    assert_eq!(text_payload(&framed).unwrap(), "{\"HeartBeat\":null}");
    let bad = frame_text_payload(&[0xff, 0xfe]);
    assert_eq!(text_payload(&bad), Err(ProtocolError::InvalidUtf8));
    assert_eq!(text_payload(&[0, 0]), Err(ProtocolError::MessageTooShort));
    assert_eq!(text_payload(&[0, 0, 0, 5, b'a']), Err(ProtocolError::LengthMismatch));
}
