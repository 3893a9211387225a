use tcpserver::optimized::OptimizedGameMessage;
use tcpserver::protocol::{frame_text_payload, text_payload, unframe_text_payload, GameMessage, ProtocolError};

#[test]
fn test_heartbeat_serialization() {
    let msg = OptimizedGameMessage::HeartBeat;
    let bytes = msg.to_bytes().expect("Test assertion failed");
    let decoded = OptimizedGameMessage::from_bytes(&bytes).expect("Test assertion failed");

    assert_eq!(msg, decoded);
    assert_eq!(bytes.len(), 1);
}

#[test]
fn test_chat_message_serialization() {
    let msg = OptimizedGameMessage::ChatMessage {
        user_id: 123,
        room_id: 456,
        message: "안녕하세요!".to_string(),
    };

    let bytes = msg.to_bytes().expect("Test assertion failed");
    let decoded = OptimizedGameMessage::from_bytes(&bytes).expect("Test assertion failed");

    assert_eq!(msg, decoded);
}

#[test]
fn chat_message_bytes_are_exact() {
    let msg = OptimizedGameMessage::ChatMessage { user_id: 1, room_id: 2, message: "hi".to_string() };
    let bytes = msg.to_bytes().unwrap();
    assert_eq!(bytes, vec![0x10, 1, 0, 0, 0, 2, 0, 0, 0, 2, 0, b'h', b'i']);
}

#[test]
fn every_variant_roundtrips() {
    let msgs = vec![
        OptimizedGameMessage::HeartBeat,
        OptimizedGameMessage::UserInfo { user_id: 9, nickname: "n".to_string() },
        OptimizedGameMessage::ChatMessage { user_id: 1, room_id: 2, message: "m".to_string() },
        OptimizedGameMessage::ChatResponse { success: true, error: None },
        OptimizedGameMessage::ChatResponse { success: false, error: Some("e".to_string()) },
        OptimizedGameMessage::RoomJoin { user_id: 1, room_id: 2, nickname: "a".to_string() },
        OptimizedGameMessage::RoomLeave { user_id: 1, room_id: 2 },
        OptimizedGameMessage::RoomJoinSuccess { room_id: 3, user_count: 4 },
        OptimizedGameMessage::RoomLeaveSuccess { room_id: 3, user_count: 4 },
        OptimizedGameMessage::UserJoinedRoom { room_id: 1, user_id: 2, nickname: "x".to_string(), user_count: 3 },
        OptimizedGameMessage::UserLeftRoom { room_id: 1, user_id: 2, nickname: "y".to_string(), user_count: 3 },
        OptimizedGameMessage::SystemMessage { message: "sys".to_string() },
        OptimizedGameMessage::Error { code: 500, message: "err".to_string() },
    ];
    for m in msgs {
        let bytes = m.to_bytes().unwrap();
        assert_eq!(OptimizedGameMessage::from_bytes(&bytes).unwrap(), m);
        let mut extended = bytes.clone();
        extended.push(0xAA);
        assert_eq!(OptimizedGameMessage::from_bytes(&extended).unwrap(), m);
    }
}

#[test]
fn malformed_binary_messages_are_refused() {
    assert_eq!(OptimizedGameMessage::from_bytes(&[]), Err(ProtocolError::EmptyData));
    assert_eq!(OptimizedGameMessage::from_bytes(&[0x77]), Err(ProtocolError::UnknownMessageType(0x77)));
    assert_eq!(OptimizedGameMessage::from_bytes(&[0x02, 1, 0]), Err(ProtocolError::UnexpectedEof));
    assert_eq!(
        OptimizedGameMessage::from_bytes(&[0x40, 2, 0, 0xff, 0xfe]),
        Err(ProtocolError::InvalidUtf8)
    );
}

#[test]
fn message_type_names() {
    assert_eq!(OptimizedGameMessage::HeartBeat.message_type(), "HeartBeat");
    assert_eq!(
        OptimizedGameMessage::RoomLeave { user_id: 1, room_id: 1 }.message_type(),
        "RoomLeave"
    );
}

#[test]
fn stream_frames_carry_a_little_endian_length() {
    let msg = OptimizedGameMessage::RoomLeave { user_id: 1, room_id: 2 };
    let frame = msg.to_stream_frame().unwrap();
    assert_eq!(&frame[..4], &[9, 0, 0, 0]);
    assert_eq!(OptimizedGameMessage::stream_frame_length(&frame[..4]), Ok(9));
    assert_eq!(OptimizedGameMessage::from_bytes(&frame[4..]).unwrap(), msg);
}

#[test]
fn conversion_to_and_from_game_messages() {
    let g = GameMessage::RoomJoin { user_id: 5, room_id: 6, nickname: "neo".to_string() };
    let o = OptimizedGameMessage::from_game_message(&g);
    assert_eq!(o, OptimizedGameMessage::RoomJoin { user_id: 5, room_id: 6, nickname: "neo".to_string() });
    assert_eq!(o.to_game_message(), g);
    let hb = GameMessage::HeartBeatResponse { timestamp: 42 };
    match OptimizedGameMessage::from_game_message(&hb) {
        OptimizedGameMessage::SystemMessage { message } => assert!(message.contains("42")),
        other => panic!("unexpected {:?}", other),
    }
}

#[test]
fn text_frames_roundtrip() {
    let payload = b"{\"HeartBeat\":null}".to_vec();
    let framed = frame_text_payload(&payload);
    assert_eq!(&framed[..4], &[0, 0, 0, payload.len() as u8]);
    assert_eq!(unframe_text_payload(&framed), Ok(payload));
    assert_eq!(unframe_text_payload(&[0, 0]), Err(ProtocolError::MessageTooShort));
    assert_eq!(unframe_text_payload(&[0, 0, 0, 5, 1]), Err(ProtocolError::LengthMismatch));
}

#[test]
fn test_invalid_data_handling() {
    // Too short for a header.
    let invalid_data = vec![0, 0];
    assert!(text_payload(&invalid_data).is_err());
    // The header announces 10 bytes; only 3 follow.
    let invalid_data = vec![0, 0, 0, 10, 1, 2, 3];
    assert!(text_payload(&invalid_data).is_err());
}
