//! The compact binary protocol: one type byte, then the fields in order,
//! integers little-endian, strings as a little-endian `u16` byte length
//! followed by their UTF-8 bytes.

use vstd::prelude::*;
use vstd::string::*;
use vstd::utf8::*;
use crate::wire::{
    ByteCursor, le_u16_bytes, le_u32_bytes, take_u8, take_u16, take_u32, push_u16_le, push_u32_le,
    push_bytes, lemma_le_u16_roundtrip, lemma_le_u32_roundtrip, u32_from_le,
};
use crate::text::{
    string_bytes, string_from_utf8, lemma_utf8_roundtrip, u64_to_decimal, i64_to_decimal,
    decimal, signed_decimal, debug_quoted, str_debug,
};
use crate::protocol::{GameMessage, ProtocolError};

verus! {

/// A binary-protocol message.
#[derive(Debug, Clone, PartialEq)]
pub enum OptimizedGameMessage {
    HeartBeat,
    UserInfo { user_id: u32, nickname: String },
    ChatMessage { user_id: u32, room_id: u32, message: String },
    ChatResponse { success: bool, error: Option<String> },
    RoomJoin { user_id: u32, room_id: u32, nickname: String },
    RoomLeave { user_id: u32, room_id: u32 },
    RoomJoinSuccess { room_id: u32, user_count: u32 },
    RoomLeaveSuccess { room_id: u32, user_count: u32 },
    UserJoinedRoom { room_id: u32, user_id: u32, nickname: String, user_count: u32 },
    UserLeftRoom { room_id: u32, user_id: u32, nickname: String, user_count: u32 },
    SystemMessage { message: String },
    Error { code: u16, message: String },
}

/// The mathematical content of a binary-protocol message: strings as
/// character sequences.
pub enum MessageView {
    HeartBeat,
    UserInfo { user_id: u32, nickname: Seq<char> },
    ChatMessage { user_id: u32, room_id: u32, message: Seq<char> },
    ChatResponse { success: bool, error: Option<Seq<char>> },
    RoomJoin { user_id: u32, room_id: u32, nickname: Seq<char> },
    RoomLeave { user_id: u32, room_id: u32 },
    RoomJoinSuccess { room_id: u32, user_count: u32 },
    RoomLeaveSuccess { room_id: u32, user_count: u32 },
    UserJoinedRoom { room_id: u32, user_id: u32, nickname: Seq<char>, user_count: u32 },
    UserLeftRoom { room_id: u32, user_id: u32, nickname: Seq<char>, user_count: u32 },
    SystemMessage { message: Seq<char> },
    Error { code: u16, message: Seq<char> },
}

pub open spec fn opt_str_view(o: Option<String>) -> Option<Seq<char>> {
    match o {
        Some(s) => Some(s@),
        None => None,
    }
}

impl View for OptimizedGameMessage {
    type V = MessageView;

    open spec fn view(&self) -> MessageView {
        match self {
            OptimizedGameMessage::HeartBeat => MessageView::HeartBeat,
            OptimizedGameMessage::UserInfo { user_id, nickname } => MessageView::UserInfo {
                user_id: *user_id,
                nickname: nickname@,
            },
            OptimizedGameMessage::ChatMessage { user_id, room_id, message } =>
                MessageView::ChatMessage { user_id: *user_id, room_id: *room_id, message: message@ },
            OptimizedGameMessage::ChatResponse { success, error } => MessageView::ChatResponse {
                success: *success,
                error: opt_str_view(*error),
            },
            OptimizedGameMessage::RoomJoin { user_id, room_id, nickname } =>
                MessageView::RoomJoin { user_id: *user_id, room_id: *room_id, nickname: nickname@ },
            OptimizedGameMessage::RoomLeave { user_id, room_id } => MessageView::RoomLeave {
                user_id: *user_id,
                room_id: *room_id,
            },
            OptimizedGameMessage::RoomJoinSuccess { room_id, user_count } =>
                MessageView::RoomJoinSuccess { room_id: *room_id, user_count: *user_count },
            OptimizedGameMessage::RoomLeaveSuccess { room_id, user_count } =>
                MessageView::RoomLeaveSuccess { room_id: *room_id, user_count: *user_count },
            OptimizedGameMessage::UserJoinedRoom { room_id, user_id, nickname, user_count } =>
                MessageView::UserJoinedRoom {
                    room_id: *room_id,
                    user_id: *user_id,
                    nickname: nickname@,
                    user_count: *user_count,
                },
            OptimizedGameMessage::UserLeftRoom { room_id, user_id, nickname, user_count } =>
                MessageView::UserLeftRoom {
                    room_id: *room_id,
                    user_id: *user_id,
                    nickname: nickname@,
                    user_count: *user_count,
                },
            OptimizedGameMessage::SystemMessage { message } => MessageView::SystemMessage {
                message: message@,
            },
            OptimizedGameMessage::Error { code, message } => MessageView::Error {
                code: *code,
                message: message@,
            },
        }
    }
}

/// A string field: its UTF-8 byte length as a `u16` (modulo 2^16, as the
/// cast gives it), then the bytes.
pub open spec fn str_field(s: Seq<char>) -> Seq<u8> {
    le_u16_bytes((encode_utf8(s).len() % 0x10000) as u16) + encode_utf8(s)
}

/// The binary encoding of a message.
pub open spec fn encode_message(m: MessageView) -> Seq<u8> {
    match m {
        MessageView::HeartBeat => seq![0x01u8],
        MessageView::UserInfo { user_id, nickname } => seq![0x02u8] + (le_u32_bytes(user_id)
            + str_field(nickname)),
        MessageView::ChatMessage { user_id, room_id, message } => seq![0x10u8] + (le_u32_bytes(
            user_id,
        ) + (le_u32_bytes(room_id) + str_field(message))),
        MessageView::ChatResponse { success, error } => seq![0x11u8] + (seq![
            if success {
                1u8
            } else {
                0u8
            },
        ] + match error {
            Some(e) => seq![1u8] + str_field(e),
            None => seq![0u8],
        }),
        MessageView::RoomJoin { user_id, room_id, nickname } => seq![0x20u8] + (le_u32_bytes(
            user_id,
        ) + (le_u32_bytes(room_id) + str_field(nickname))),
        MessageView::RoomLeave { user_id, room_id } => seq![0x21u8] + (le_u32_bytes(user_id)
            + le_u32_bytes(room_id)),
        MessageView::RoomJoinSuccess { room_id, user_count } => seq![0x22u8] + (le_u32_bytes(
            room_id,
        ) + le_u32_bytes(user_count)),
        MessageView::RoomLeaveSuccess { room_id, user_count } => seq![0x23u8] + (le_u32_bytes(
            room_id,
        ) + le_u32_bytes(user_count)),
        MessageView::UserJoinedRoom { room_id, user_id, nickname, user_count } => seq![0x30u8]
            + (le_u32_bytes(room_id) + (le_u32_bytes(user_id) + (str_field(nickname)
            + le_u32_bytes(user_count)))),
        MessageView::UserLeftRoom { room_id, user_id, nickname, user_count } => seq![0x31u8]
            + (le_u32_bytes(room_id) + (le_u32_bytes(user_id) + (str_field(nickname)
            + le_u32_bytes(user_count)))),
        MessageView::SystemMessage { message } => seq![0x40u8] + str_field(message),
        MessageView::Error { code, message } => seq![0x41u8] + (le_u16_bytes(code) + str_field(
            message,
        )),
    }
}

/// Reads a string field from the front of `d`: the string and what follows,
/// or the error the reader reports.
pub open spec fn take_str(d: Seq<u8>) -> Result<(Seq<char>, Seq<u8>), ProtocolError> {
    match take_u16(d) {
        None => Err(ProtocolError::UnexpectedEof),
        Some((n, r)) => if r.len() < n {
            Err(ProtocolError::UnexpectedEof)
        } else if valid_utf8(r.take(n as int)) {
            Ok((decode_utf8(r.take(n as int)), r.skip(n as int)))
        } else {
            Err(ProtocolError::InvalidUtf8)
        },
    }
}

/// Two little-endian `u32`s at the front of `d`.
pub open spec fn take_u32_pair(d: Seq<u8>) -> Option<(u32, u32, Seq<u8>)> {
    match take_u32(d) {
        None => None,
        Some((a, r)) => match take_u32(r) {
            None => None,
            Some((b, r2)) => Some((a, b, r2)),
        },
    }
}

/// Two `u32`s then a string field at the front of `d`.
pub open spec fn take_u32_pair_str(d: Seq<u8>) -> Result<(u32, u32, Seq<char>), ProtocolError> {
    match take_u32_pair(d) {
        None => Err(ProtocolError::UnexpectedEof),
        Some((a, b, r)) => match take_str(r) {
            Err(e) => Err(e),
            Ok((s, _)) => Ok((a, b, s)),
        },
    }
}

/// Two `u32`s, a string field, then a `u32` at the front of `d`.
pub open spec fn take_member_notice(d: Seq<u8>) -> Result<(u32, u32, Seq<char>, u32), ProtocolError> {
    match take_u32_pair(d) {
        None => Err(ProtocolError::UnexpectedEof),
        Some((a, b, r)) => match take_str(r) {
            Err(e) => Err(e),
            Ok((s, r2)) => match take_u32(r2) {
                None => Err(ProtocolError::UnexpectedEof),
                Some((c, _)) => Ok((a, b, s, c)),
            },
        },
    }
}

/// What decoding the body of a message of type `tag` gives.
#[verifier::opaque]
pub open spec fn decode_body(tag: u8, r: Seq<u8>) -> Result<MessageView, ProtocolError> {
    if tag == 0x01 {
        Ok(MessageView::HeartBeat)
    } else if tag == 0x02 {
        match take_u32(r) {
            None => Err(ProtocolError::UnexpectedEof),
            Some((user_id, r2)) => match take_str(r2) {
                Err(e) => Err(e),
                Ok((nickname, _)) => Ok(MessageView::UserInfo { user_id, nickname }),
            },
        }
    } else if tag == 0x10 {
        match take_u32_pair_str(r) {
            Err(e) => Err(e),
            Ok((user_id, room_id, message)) => Ok(
                MessageView::ChatMessage { user_id, room_id, message },
            ),
        }
    } else if tag == 0x11 {
        match take_u8(r) {
            None => Err(ProtocolError::UnexpectedEof),
            Some((s, r2)) => match take_u8(r2) {
                None => Err(ProtocolError::UnexpectedEof),
                Some((h, r3)) => if h != 0 {
                    match take_str(r3) {
                        Err(e) => Err(e),
                        Ok((err, _)) => Ok(
                            MessageView::ChatResponse { success: s != 0, error: Some(err) },
                        ),
                    }
                } else {
                    Ok(MessageView::ChatResponse { success: s != 0, error: None })
                },
            },
        }
    } else if tag == 0x20 {
        match take_u32_pair_str(r) {
            Err(e) => Err(e),
            Ok((user_id, room_id, nickname)) => Ok(
                MessageView::RoomJoin { user_id, room_id, nickname },
            ),
        }
    } else if tag == 0x21 {
        match take_u32_pair(r) {
            None => Err(ProtocolError::UnexpectedEof),
            Some((user_id, room_id, _)) => Ok(MessageView::RoomLeave { user_id, room_id }),
        }
    } else if tag == 0x22 {
        match take_u32_pair(r) {
            None => Err(ProtocolError::UnexpectedEof),
            Some((room_id, user_count, _)) => Ok(
                MessageView::RoomJoinSuccess { room_id, user_count },
            ),
        }
    } else if tag == 0x23 {
        match take_u32_pair(r) {
            None => Err(ProtocolError::UnexpectedEof),
            Some((room_id, user_count, _)) => Ok(
                MessageView::RoomLeaveSuccess { room_id, user_count },
            ),
        }
    } else if tag == 0x30 {
        match take_member_notice(r) {
            Err(e) => Err(e),
            Ok((room_id, user_id, nickname, user_count)) => Ok(
                MessageView::UserJoinedRoom { room_id, user_id, nickname, user_count },
            ),
        }
    } else if tag == 0x31 {
        match take_member_notice(r) {
            Err(e) => Err(e),
            Ok((room_id, user_id, nickname, user_count)) => Ok(
                MessageView::UserLeftRoom { room_id, user_id, nickname, user_count },
            ),
        }
    } else if tag == 0x40 {
        match take_str(r) {
            Err(e) => Err(e),
            Ok((message, _)) => Ok(MessageView::SystemMessage { message }),
        }
    } else if tag == 0x41 {
        match take_u16(r) {
            None => Err(ProtocolError::UnexpectedEof),
            Some((code, r2)) => match take_str(r2) {
                Err(e) => Err(e),
                Ok((message, _)) => Ok(MessageView::Error { code, message }),
            },
        }
    } else {
        Err(ProtocolError::UnknownMessageType(tag))
    }
}

/// What decoding `data` gives: the message, or the error reported.
/// Bytes after the message are ignored.
pub open spec fn decode_message(data: Seq<u8>) -> Result<MessageView, ProtocolError> {
    if data.len() == 0 {
        Err(ProtocolError::EmptyData)
    } else {
        decode_body(data[0], data.skip(1))
    }
}

/// Every string of the message fits the 16-bit length field.
pub open spec fn strings_fit(m: MessageView) -> bool {
    match m {
        MessageView::HeartBeat => true,
        MessageView::UserInfo { nickname, .. } => encode_utf8(nickname).len() <= 0xffff,
        MessageView::ChatMessage { message, .. } => encode_utf8(message).len() <= 0xffff,
        MessageView::ChatResponse { error, .. } => match error {
            Some(e) => encode_utf8(e).len() <= 0xffff,
            None => true,
        },
        MessageView::RoomJoin { nickname, .. } => encode_utf8(nickname).len() <= 0xffff,
        MessageView::RoomLeave { .. } => true,
        MessageView::RoomJoinSuccess { .. } => true,
        MessageView::RoomLeaveSuccess { .. } => true,
        MessageView::UserJoinedRoom { nickname, .. } => encode_utf8(nickname).len() <= 0xffff,
        MessageView::UserLeftRoom { nickname, .. } => encode_utf8(nickname).len() <= 0xffff,
        MessageView::SystemMessage { message } => encode_utf8(message).len() <= 0xffff,
        MessageView::Error { message, .. } => encode_utf8(message).len() <= 0xffff,
    }
}

} // verus!

verus! {

proof fn lemma_take_u8_front(b: u8, rest: Seq<u8>)
    ensures
        take_u8(seq![b] + rest) == Some((b, rest)),
{
    assert((seq![b] + rest).skip(1) =~= rest);
}

proof fn lemma_take_u16_front(v: u16, rest: Seq<u8>)
    ensures
        take_u16(le_u16_bytes(v) + rest) == Some((v, rest)),
{
    lemma_le_u16_roundtrip(v);
    assert((le_u16_bytes(v) + rest).skip(2) =~= rest);
}

proof fn lemma_take_u32_front(v: u32, rest: Seq<u8>)
    ensures
        take_u32(le_u32_bytes(v) + rest) == Some((v, rest)),
{
    lemma_le_u32_roundtrip(v);
    assert((le_u32_bytes(v) + rest).skip(4) =~= rest);
}

proof fn lemma_take_str_front(s: Seq<char>, rest: Seq<u8>)
    requires
        encode_utf8(s).len() <= 0xffff,
    ensures
        take_str(str_field(s) + rest) == Ok::<(Seq<char>, Seq<u8>), ProtocolError>((s, rest)),
{
    let b = encode_utf8(s);
    let n = (b.len() % 0x10000) as u16;
    assert(n == b.len());
    assert(str_field(s) + rest =~= le_u16_bytes(n) + (b + rest));
    lemma_take_u16_front(n, b + rest);
    assert((b + rest).take(n as int) =~= b);
    assert((b + rest).skip(n as int) =~= rest);
    lemma_utf8_roundtrip(s);
}

proof fn lemma_take_u32_pair_front(a: u32, b: u32, rest: Seq<u8>)
    ensures
        take_u32_pair(le_u32_bytes(a) + (le_u32_bytes(b) + rest)) == Some((a, b, rest)),
{
    lemma_take_u32_front(a, le_u32_bytes(b) + rest);
    lemma_take_u32_front(b, rest);
}

proof fn lemma_decode_user_info(user_id: u32, nickname: Seq<char>, rest: Seq<u8>)
    requires
        encode_utf8(nickname).len() <= 0xffff,
    ensures
        decode_body(0x02, le_u32_bytes(user_id) + (str_field(nickname) + rest)) == Ok::<
            MessageView,
            ProtocolError,
        >(MessageView::UserInfo { user_id, nickname }),
{
    reveal(decode_body);
    lemma_take_u32_front(user_id, str_field(nickname) + rest);
    lemma_take_str_front(nickname, rest);
}

proof fn lemma_decode_pair_str(tag: u8, a: u32, b: u32, s: Seq<char>, rest: Seq<u8>)
    requires
        encode_utf8(s).len() <= 0xffff,
    ensures
        take_u32_pair_str(le_u32_bytes(a) + (le_u32_bytes(b) + (str_field(s) + rest))) == Ok::<
            (u32, u32, Seq<char>),
            ProtocolError,
        >((a, b, s)),
{
    lemma_take_u32_pair_front(a, b, str_field(s) + rest);
    lemma_take_str_front(s, rest);
}

proof fn lemma_decode_member_notice(a: u32, b: u32, s: Seq<char>, c: u32, rest: Seq<u8>)
    requires
        encode_utf8(s).len() <= 0xffff,
    ensures
        take_member_notice(
            le_u32_bytes(a) + (le_u32_bytes(b) + (str_field(s) + (le_u32_bytes(c) + rest))),
        ) == Ok::<(u32, u32, Seq<char>, u32), ProtocolError>((a, b, s, c)),
{
    lemma_take_u32_pair_front(a, b, str_field(s) + (le_u32_bytes(c) + rest));
    lemma_take_str_front(s, le_u32_bytes(c) + rest);
    lemma_take_u32_front(c, rest);
}

proof fn lemma_decode_chat_response(success: bool, error: Option<Seq<char>>, rest: Seq<u8>)
    requires
        error matches Some(e) ==> encode_utf8(e).len() <= 0xffff,
    ensures
        decode_body(
            0x11,
            seq![
                if success {
                    1u8
                } else {
                    0u8
                },
            ] + (match error {
                Some(e) => seq![1u8] + str_field(e),
                None => seq![0u8],
            } + rest),
        ) == Ok::<MessageView, ProtocolError>(MessageView::ChatResponse { success, error }),
{
    reveal(decode_body);
    let sb: u8 = if success {
        1u8
    } else {
        0u8
    };
    match error {
        Some(er) => {
            assert((seq![1u8] + str_field(er)) + rest =~= seq![1u8] + (str_field(er) + rest));
            lemma_take_u8_front(sb, seq![1u8] + (str_field(er) + rest));
            lemma_take_u8_front(1u8, str_field(er) + rest);
            lemma_take_str_front(er, rest);
        },
        None => {
            lemma_take_u8_front(sb, seq![0u8] + rest);
            lemma_take_u8_front(0u8, rest);
        },
    }
}

proof fn lemma_roundtrip_heartbeat(trailing: Seq<u8>)
    ensures
        decode_message(encode_message(MessageView::HeartBeat) + trailing) == Ok::<MessageView, ProtocolError>(MessageView::HeartBeat),
{
    reveal(decode_body);
    let d = encode_message(MessageView::HeartBeat) + trailing;
    assert(d[0] == 0x01u8);
}

proof fn lemma_roundtrip_user_info(user_id: u32, nickname: Seq<char>, trailing: Seq<u8>)
    requires
        encode_utf8(nickname).len() <= 0xffff,
    ensures
        decode_message(encode_message(MessageView::UserInfo { user_id, nickname }) + trailing) == Ok::<MessageView, ProtocolError>(MessageView::UserInfo { user_id, nickname }),
{
    let d = encode_message(MessageView::UserInfo { user_id, nickname }) + trailing;
    assert(d[0] == 0x02u8);
    assert(d.skip(1) =~= le_u32_bytes(user_id) + (str_field(nickname) + trailing));
    lemma_decode_user_info(user_id, nickname, trailing);
}

proof fn lemma_roundtrip_chat_message(user_id: u32, room_id: u32, message: Seq<char>, trailing: Seq<u8>)
    requires
        encode_utf8(message).len() <= 0xffff,
    ensures
        decode_message(encode_message(MessageView::ChatMessage { user_id, room_id, message }) + trailing) == Ok::<MessageView, ProtocolError>(MessageView::ChatMessage { user_id, room_id, message }),
{
    reveal(decode_body);
    let d = encode_message(MessageView::ChatMessage { user_id, room_id, message }) + trailing;
    assert(d[0] == 0x10u8);
    assert(d.skip(1) =~= le_u32_bytes(user_id) + (le_u32_bytes(room_id) + (str_field(message) + trailing)));
    lemma_decode_pair_str(0x10, user_id, room_id, message, trailing);
}

proof fn lemma_roundtrip_chat_response(success: bool, error: Option<Seq<char>>, trailing: Seq<u8>)
    requires
        error matches Some(e) ==> encode_utf8(e).len() <= 0xffff,
    ensures
        decode_message(encode_message(MessageView::ChatResponse { success, error }) + trailing) == Ok::<MessageView, ProtocolError>(MessageView::ChatResponse { success, error }),
{
    let d = encode_message(MessageView::ChatResponse { success, error }) + trailing;
    assert(d[0] == 0x11u8);
    let sb: u8 = if success { 1u8 } else { 0u8 };
    let tail = match error {
        Some(er) => seq![1u8] + str_field(er),
        None => seq![0u8],
    };
    assert(d.skip(1) =~= seq![sb] + (tail + trailing));
    lemma_decode_chat_response(success, error, trailing);
}

proof fn lemma_roundtrip_room_join(user_id: u32, room_id: u32, nickname: Seq<char>, trailing: Seq<u8>)
    requires
        encode_utf8(nickname).len() <= 0xffff,
    ensures
        decode_message(encode_message(MessageView::RoomJoin { user_id, room_id, nickname }) + trailing) == Ok::<MessageView, ProtocolError>(MessageView::RoomJoin { user_id, room_id, nickname }),
{
    reveal(decode_body);
    let d = encode_message(MessageView::RoomJoin { user_id, room_id, nickname }) + trailing;
    assert(d[0] == 0x20u8);
    assert(d.skip(1) =~= le_u32_bytes(user_id) + (le_u32_bytes(room_id) + (str_field(nickname) + trailing)));
    lemma_decode_pair_str(0x20, user_id, room_id, nickname, trailing);
}

#[verifier::spinoff_prover]
proof fn lemma_roundtrip_pair(tag: u8, m: MessageView, a: u32, b: u32, trailing: Seq<u8>)
    requires
        (tag == 0x21 && m == MessageView::RoomLeave { user_id: a, room_id: b })
        || (tag == 0x22 && m == MessageView::RoomJoinSuccess { room_id: a, user_count: b })
        || (tag == 0x23 && m == MessageView::RoomLeaveSuccess { room_id: a, user_count: b }),
    ensures
        decode_message(encode_message(m) + trailing) == Ok::<MessageView, ProtocolError>(m),
{
    reveal(decode_body);
    let d = encode_message(m) + trailing;
    assert(d[0] == tag);
    assert(d.skip(1) =~= le_u32_bytes(a) + (le_u32_bytes(b) + trailing));
    lemma_take_u32_pair_front(a, b, trailing);
}

proof fn lemma_body_member_notice(room_id: u32, user_id: u32, nickname: Seq<char>, user_count: u32, rest: Seq<u8>)
    requires
        encode_utf8(nickname).len() <= 0xffff,
    ensures
        decode_body(0x30, le_u32_bytes(room_id) + (le_u32_bytes(user_id) + (str_field(nickname) + (le_u32_bytes(user_count) + rest)))) == Ok::<MessageView, ProtocolError>(MessageView::UserJoinedRoom { room_id, user_id, nickname, user_count }),
        decode_body(0x31, le_u32_bytes(room_id) + (le_u32_bytes(user_id) + (str_field(nickname) + (le_u32_bytes(user_count) + rest)))) == Ok::<MessageView, ProtocolError>(MessageView::UserLeftRoom { room_id, user_id, nickname, user_count }),
{
    reveal(decode_body);
    lemma_decode_member_notice(room_id, user_id, nickname, user_count, rest);
}

proof fn lemma_roundtrip_member_notice(tag: u8, m: MessageView, room_id: u32, user_id: u32, nickname: Seq<char>, user_count: u32, trailing: Seq<u8>)
    requires
        encode_utf8(nickname).len() <= 0xffff,
        (tag == 0x30 && m == MessageView::UserJoinedRoom { room_id, user_id, nickname, user_count })
        || (tag == 0x31 && m == MessageView::UserLeftRoom { room_id, user_id, nickname, user_count }),
    ensures
        decode_message(encode_message(m) + trailing) == Ok::<MessageView, ProtocolError>(m),
{
    let d = encode_message(m) + trailing;
    assert(d[0] == tag);
    assert(d.skip(1) =~= le_u32_bytes(room_id) + (le_u32_bytes(user_id) + (str_field(nickname) + (le_u32_bytes(user_count) + trailing))));
    lemma_body_member_notice(room_id, user_id, nickname, user_count, trailing);
}

proof fn lemma_roundtrip_system(message: Seq<char>, trailing: Seq<u8>)
    requires
        encode_utf8(message).len() <= 0xffff,
    ensures
        decode_message(encode_message(MessageView::SystemMessage { message }) + trailing) == Ok::<MessageView, ProtocolError>(MessageView::SystemMessage { message }),
{
    reveal(decode_body);
    let d = encode_message(MessageView::SystemMessage { message }) + trailing;
    assert(d[0] == 0x40u8);
    assert(d.skip(1) =~= str_field(message) + trailing);
    lemma_take_str_front(message, trailing);
}

proof fn lemma_roundtrip_error(code: u16, message: Seq<char>, trailing: Seq<u8>)
    requires
        encode_utf8(message).len() <= 0xffff,
    ensures
        decode_message(encode_message(MessageView::Error { code, message }) + trailing) == Ok::<MessageView, ProtocolError>(MessageView::Error { code, message }),
{
    reveal(decode_body);
    let d = encode_message(MessageView::Error { code, message }) + trailing;
    assert(d[0] == 0x41u8);
    assert(d.skip(1) =~= le_u16_bytes(code) + (str_field(message) + trailing));
    lemma_take_u16_front(code, str_field(message) + trailing);
    lemma_take_str_front(message, trailing);
}

/// Decoding the encoding of a message gives the message back, whatever bytes
/// follow it, provided every string fits the 16-bit length field.
pub proof fn lemma_binary_roundtrip(m: MessageView, trailing: Seq<u8>)
    requires
        strings_fit(m),
    ensures
        decode_message(encode_message(m) + trailing) == Ok::<MessageView, ProtocolError>(m),
{
    match m {
        MessageView::HeartBeat => lemma_roundtrip_heartbeat(trailing),
        MessageView::UserInfo { user_id, nickname } => lemma_roundtrip_user_info(user_id, nickname, trailing),
        MessageView::ChatMessage { user_id, room_id, message } => lemma_roundtrip_chat_message(user_id, room_id, message, trailing),
        MessageView::ChatResponse { success, error } => lemma_roundtrip_chat_response(success, error, trailing),
        MessageView::RoomJoin { user_id, room_id, nickname } => lemma_roundtrip_room_join(user_id, room_id, nickname, trailing),
        MessageView::RoomLeave { user_id, room_id } => lemma_roundtrip_pair(0x21, m, user_id, room_id, trailing),
        MessageView::RoomJoinSuccess { room_id, user_count } => lemma_roundtrip_pair(0x22, m, room_id, user_count, trailing),
        MessageView::RoomLeaveSuccess { room_id, user_count } => lemma_roundtrip_pair(0x23, m, room_id, user_count, trailing),
        MessageView::UserJoinedRoom { room_id, user_id, nickname, user_count } => lemma_roundtrip_member_notice(0x30, m, room_id, user_id, nickname, user_count, trailing),
        MessageView::UserLeftRoom { room_id, user_id, nickname, user_count } => lemma_roundtrip_member_notice(0x31, m, room_id, user_id, nickname, user_count, trailing),
        MessageView::SystemMessage { message } => lemma_roundtrip_system(message, trailing),
        MessageView::Error { code, message } => lemma_roundtrip_error(code, message, trailing),
    }
}

} // verus!

verus! {

/// The result of `from_bytes` agrees with the decoding `expected`.
pub open spec fn decoded_as(
    r: Result<OptimizedGameMessage, ProtocolError>,
    expected: Result<MessageView, ProtocolError>,
) -> bool {
    match expected {
        Ok(v) => r matches Ok(m) && m@ == v,
        Err(e) => r == Err::<OptimizedGameMessage, ProtocolError>(e),
    }
}

impl OptimizedGameMessage {
    /// Appends a string field: the UTF-8 byte length as a `u16` (the cast
    /// keeps the low 16 bits), then the bytes. Never fails.
    pub fn write_string(buffer: &mut Vec<u8>, s: &str) -> (r: Result<(), ProtocolError>)
        ensures
            r is Ok,
            final(buffer)@ == old(buffer)@ + str_field(s@),
    {
        let bytes = s.as_bytes();
        #[verifier::truncate]
        let len: u16 = (bytes.len() % 0x10000) as u16;
        push_u16_le(buffer, len);
        push_bytes(buffer, bytes);
        assert(final(buffer)@ =~= old(buffer)@ + str_field(s@));
        Ok(())
    }

    /// Reads one byte.
    pub fn read_u8(cursor: &mut ByteCursor) -> (r: Result<u8, ProtocolError>)
        requires
            old(cursor).wf(),
        ensures
            final(cursor).wf(),
            match take_u8(old(cursor).remaining()) {
                Some((v, rest)) => r == Ok::<u8, ProtocolError>(v) && final(cursor).remaining()
                    == rest,
                None => r == Err::<u8, ProtocolError>(ProtocolError::UnexpectedEof),
            },
    {
        match cursor.next_u8() {
            Some(v) => Ok(v),
            None => Err(ProtocolError::UnexpectedEof),
        }
    }

    /// Reads a little-endian `u16`.
    pub fn read_u16(cursor: &mut ByteCursor) -> (r: Result<u16, ProtocolError>)
        requires
            old(cursor).wf(),
        ensures
            final(cursor).wf(),
            match take_u16(old(cursor).remaining()) {
                Some((v, rest)) => r == Ok::<u16, ProtocolError>(v) && final(cursor).remaining()
                    == rest,
                None => r == Err::<u16, ProtocolError>(ProtocolError::UnexpectedEof),
            },
    {
        match cursor.next_u16_le() {
            Some(v) => Ok(v),
            None => Err(ProtocolError::UnexpectedEof),
        }
    }

    /// Reads a little-endian `u32`.
    pub fn read_u32(cursor: &mut ByteCursor) -> (r: Result<u32, ProtocolError>)
        requires
            old(cursor).wf(),
        ensures
            final(cursor).wf(),
            match take_u32(old(cursor).remaining()) {
                Some((v, rest)) => r == Ok::<u32, ProtocolError>(v) && final(cursor).remaining()
                    == rest,
                None => r == Err::<u32, ProtocolError>(ProtocolError::UnexpectedEof),
            },
    {
        match cursor.next_u32_le() {
            Some(v) => Ok(v),
            None => Err(ProtocolError::UnexpectedEof),
        }
    }

    /// Reads a string field: a `u16` byte length, then that many UTF-8 bytes.
    pub fn read_string(cursor: &mut ByteCursor) -> (r: Result<String, ProtocolError>)
        requires
            old(cursor).wf(),
        ensures
            final(cursor).wf(),
            match take_str(old(cursor).remaining()) {
                Ok((s, rest)) => r matches Ok(x) && x@ == s && final(cursor).remaining() == rest,
                Err(e) => r == Err::<String, ProtocolError>(e),
            },
    {
        let len = match Self::read_u16(cursor) {
            Ok(n) => n,
            Err(e) => return Err(e),
        };
        let bytes = match cursor.next_bytes(len as usize) {
            Some(b) => b,
            None => return Err(ProtocolError::UnexpectedEof),
        };
        match string_from_utf8(bytes) {
            Some(s) => Ok(s),
            None => Err(ProtocolError::InvalidUtf8),
        }
    }
}

} // verus!

verus! {

impl OptimizedGameMessage {
    /// Encodes the message; the bytes are `encode_message(self@)`. Never fails
    /// (a string longer than 65535 bytes gets the low 16 bits of its length).
    pub fn to_bytes(&self) -> (r: Result<Vec<u8>, ProtocolError>)
        ensures
            r matches Ok(b) && b@ == encode_message(self@),
    {
        let mut buffer: Vec<u8> = Vec::with_capacity(256);
        match self {
            OptimizedGameMessage::HeartBeat => {
                buffer.push(0x01);
            },
            OptimizedGameMessage::UserInfo { user_id, nickname } => {
                buffer.push(0x02);
                push_u32_le(&mut buffer, *user_id);
                let _ = Self::write_string(&mut buffer, nickname.as_str());
            },
            OptimizedGameMessage::ChatMessage { user_id, room_id, message } => {
                buffer.push(0x10);
                push_u32_le(&mut buffer, *user_id);
                push_u32_le(&mut buffer, *room_id);
                let _ = Self::write_string(&mut buffer, message.as_str());
            },
            OptimizedGameMessage::ChatResponse { success, error } => {
                buffer.push(0x11);
                buffer.push(
                    if *success {
                        1
                    } else {
                        0
                    },
                );
                match error {
                    Some(err) => {
                        buffer.push(1);
                        let _ = Self::write_string(&mut buffer, err.as_str());
                    },
                    None => {
                        buffer.push(0);
                    },
                }
            },
            OptimizedGameMessage::RoomJoin { user_id, room_id, nickname } => {
                buffer.push(0x20);
                push_u32_le(&mut buffer, *user_id);
                push_u32_le(&mut buffer, *room_id);
                let _ = Self::write_string(&mut buffer, nickname.as_str());
            },
            OptimizedGameMessage::RoomLeave { user_id, room_id } => {
                buffer.push(0x21);
                push_u32_le(&mut buffer, *user_id);
                push_u32_le(&mut buffer, *room_id);
            },
            OptimizedGameMessage::RoomJoinSuccess { room_id, user_count } => {
                buffer.push(0x22);
                push_u32_le(&mut buffer, *room_id);
                push_u32_le(&mut buffer, *user_count);
            },
            OptimizedGameMessage::RoomLeaveSuccess { room_id, user_count } => {
                buffer.push(0x23);
                push_u32_le(&mut buffer, *room_id);
                push_u32_le(&mut buffer, *user_count);
            },
            OptimizedGameMessage::UserJoinedRoom { room_id, user_id, nickname, user_count } => {
                buffer.push(0x30);
                push_u32_le(&mut buffer, *room_id);
                push_u32_le(&mut buffer, *user_id);
                let _ = Self::write_string(&mut buffer, nickname.as_str());
                push_u32_le(&mut buffer, *user_count);
            },
            OptimizedGameMessage::UserLeftRoom { room_id, user_id, nickname, user_count } => {
                buffer.push(0x31);
                push_u32_le(&mut buffer, *room_id);
                push_u32_le(&mut buffer, *user_id);
                let _ = Self::write_string(&mut buffer, nickname.as_str());
                push_u32_le(&mut buffer, *user_count);
            },
            OptimizedGameMessage::SystemMessage { message } => {
                buffer.push(0x40);
                let _ = Self::write_string(&mut buffer, message.as_str());
            },
            OptimizedGameMessage::Error { code, message } => {
                buffer.push(0x41);
                push_u16_le(&mut buffer, *code);
                let _ = Self::write_string(&mut buffer, message.as_str());
            },
        }
        assert(buffer@ =~= encode_message(self@));
        Ok(buffer)
    }
}

} // verus!

verus! {

impl OptimizedGameMessage {
    /// Decodes one message from the front of `data`; what it returns is
    /// exactly `decode_message(data@)`: the message, `EmptyData` for no bytes,
    /// `UnknownMessageType` for an unknown first byte, `UnexpectedEof` when a
    /// field runs past the end, `InvalidUtf8` for a string that is not UTF-8.
    #[verifier::spinoff_prover]
    #[verifier::rlimit(40)]
    pub fn from_bytes(data: &[u8]) -> (r: Result<OptimizedGameMessage, ProtocolError>)
        ensures
            decoded_as(r, decode_message(data@)),
    {
        reveal(decode_body);
        if data.len() == 0 {
            return Err(ProtocolError::EmptyData);
        }
        let mut cursor = ByteCursor::new(data);
        let msg_type = match Self::read_u8(&mut cursor) {
            Ok(t) => t,
            Err(e) => return Err(e),
        };
        if msg_type == 0x01 {
            Ok(OptimizedGameMessage::HeartBeat)
        } else if msg_type == 0x02 {
            let user_id = match Self::read_u32(&mut cursor) {
                Ok(v) => v,
                Err(e) => return Err(e),
            };
            let nickname = match Self::read_string(&mut cursor) {
                Ok(v) => v,
                Err(e) => return Err(e),
            };
            Ok(OptimizedGameMessage::UserInfo { user_id, nickname })
        } else if msg_type == 0x10 {
            let user_id = match Self::read_u32(&mut cursor) {
                Ok(v) => v,
                Err(e) => return Err(e),
            };
            let room_id = match Self::read_u32(&mut cursor) {
                Ok(v) => v,
                Err(e) => return Err(e),
            };
            let message = match Self::read_string(&mut cursor) {
                Ok(v) => v,
                Err(e) => return Err(e),
            };
            Ok(OptimizedGameMessage::ChatMessage { user_id, room_id, message })
        } else if msg_type == 0x11 {
            let success = match Self::read_u8(&mut cursor) {
                Ok(v) => v != 0,
                Err(e) => return Err(e),
            };
            let has_error = match Self::read_u8(&mut cursor) {
                Ok(v) => v != 0,
                Err(e) => return Err(e),
            };
            let error = if has_error {
                match Self::read_string(&mut cursor) {
                    Ok(v) => Some(v),
                    Err(e) => return Err(e),
                }
            } else {
                None
            };
            Ok(OptimizedGameMessage::ChatResponse { success, error })
        } else if msg_type == 0x20 {
            let user_id = match Self::read_u32(&mut cursor) {
                Ok(v) => v,
                Err(e) => return Err(e),
            };
            let room_id = match Self::read_u32(&mut cursor) {
                Ok(v) => v,
                Err(e) => return Err(e),
            };
            let nickname = match Self::read_string(&mut cursor) {
                Ok(v) => v,
                Err(e) => return Err(e),
            };
            Ok(OptimizedGameMessage::RoomJoin { user_id, room_id, nickname })
        } else if msg_type == 0x21 || msg_type == 0x22 || msg_type == 0x23 {
            let first = match Self::read_u32(&mut cursor) {
                Ok(v) => v,
                Err(e) => return Err(e),
            };
            let second = match Self::read_u32(&mut cursor) {
                Ok(v) => v,
                Err(e) => return Err(e),
            };
            if msg_type == 0x21 {
                Ok(OptimizedGameMessage::RoomLeave { user_id: first, room_id: second })
            } else if msg_type == 0x22 {
                Ok(OptimizedGameMessage::RoomJoinSuccess { room_id: first, user_count: second })
            } else {
                Ok(OptimizedGameMessage::RoomLeaveSuccess { room_id: first, user_count: second })
            }
        } else if msg_type == 0x30 || msg_type == 0x31 {
            let room_id = match Self::read_u32(&mut cursor) {
                Ok(v) => v,
                Err(e) => return Err(e),
            };
            let user_id = match Self::read_u32(&mut cursor) {
                Ok(v) => v,
                Err(e) => return Err(e),
            };
            let nickname = match Self::read_string(&mut cursor) {
                Ok(v) => v,
                Err(e) => return Err(e),
            };
            let user_count = match Self::read_u32(&mut cursor) {
                Ok(v) => v,
                Err(e) => return Err(e),
            };
            if msg_type == 0x30 {
                Ok(OptimizedGameMessage::UserJoinedRoom { room_id, user_id, nickname, user_count })
            } else {
                Ok(OptimizedGameMessage::UserLeftRoom { room_id, user_id, nickname, user_count })
            }
        } else if msg_type == 0x40 {
            let message = match Self::read_string(&mut cursor) {
                Ok(v) => v,
                Err(e) => return Err(e),
            };
            Ok(OptimizedGameMessage::SystemMessage { message })
        } else if msg_type == 0x41 {
            let code = match Self::read_u16(&mut cursor) {
                Ok(v) => v,
                Err(e) => return Err(e),
            };
            let message = match Self::read_string(&mut cursor) {
                Ok(v) => v,
                Err(e) => return Err(e),
            };
            Ok(OptimizedGameMessage::Error { code, message })
        } else {
            Err(ProtocolError::UnknownMessageType(msg_type))
        }
    }
}

} // verus!

verus! {

/// The name of a message's type.
pub open spec fn message_type_name(m: MessageView) -> Seq<char> {
    match m {
        MessageView::HeartBeat => "HeartBeat"@,
        MessageView::UserInfo { .. } => "UserInfo"@,
        MessageView::ChatMessage { .. } => "ChatMessage"@,
        MessageView::ChatResponse { .. } => "ChatResponse"@,
        MessageView::RoomJoin { .. } => "RoomJoin"@,
        MessageView::RoomLeave { .. } => "RoomLeave"@,
        MessageView::RoomJoinSuccess { .. } => "RoomJoinSuccess"@,
        MessageView::RoomLeaveSuccess { .. } => "RoomLeaveSuccess"@,
        MessageView::UserJoinedRoom { .. } => "UserJoinedRoom"@,
        MessageView::UserLeftRoom { .. } => "UserLeftRoom"@,
        MessageView::SystemMessage { .. } => "SystemMessage"@,
        MessageView::Error { .. } => "Error"@,
    }
}

/// The largest payload a stream frame may announce (1 MiB).
pub const MAX_STREAM_FRAME: u32 = 1048576;

/// A stream frame: the payload length in four little-endian bytes, then the payload.
pub open spec fn stream_frame(payload: Seq<u8>) -> Seq<u8> {
    le_u32_bytes((payload.len() % 0x1_0000_0000) as u32) + payload
}

/// What checking an announced stream-frame length gives.
pub open spec fn stream_length_check(len: u32) -> Result<u32, ProtocolError> {
    if len == 0 {
        Err(ProtocolError::ZeroLength)
    } else if len > MAX_STREAM_FRAME {
        Err(ProtocolError::MessageTooLarge(len))
    } else {
        Ok(len)
    }
}

impl OptimizedGameMessage {
    /// The name of this message's type.
    pub fn message_type(&self) -> (r: &'static str)
        ensures
            r@ == message_type_name(self@),
    {
        match self {
            OptimizedGameMessage::HeartBeat => "HeartBeat",
            OptimizedGameMessage::UserInfo { .. } => "UserInfo",
            OptimizedGameMessage::ChatMessage { .. } => "ChatMessage",
            OptimizedGameMessage::ChatResponse { .. } => "ChatResponse",
            OptimizedGameMessage::RoomJoin { .. } => "RoomJoin",
            OptimizedGameMessage::RoomLeave { .. } => "RoomLeave",
            OptimizedGameMessage::RoomJoinSuccess { .. } => "RoomJoinSuccess",
            OptimizedGameMessage::RoomLeaveSuccess { .. } => "RoomLeaveSuccess",
            OptimizedGameMessage::UserJoinedRoom { .. } => "UserJoinedRoom",
            OptimizedGameMessage::UserLeftRoom { .. } => "UserLeftRoom",
            OptimizedGameMessage::SystemMessage { .. } => "SystemMessage",
            OptimizedGameMessage::Error { .. } => "Error",
        }
    }

    /// The bytes a stream writer sends for this message: the encoding's
    /// length as four little-endian bytes, then the encoding.
    pub fn to_stream_frame(&self) -> (r: Result<Vec<u8>, ProtocolError>)
        ensures
            r matches Ok(b) && b@ == stream_frame(encode_message(self@)),
    {
        let data = match self.to_bytes() {
            Ok(d) => d,
            Err(e) => return Err(e),
        };
        #[verifier::truncate]
        let len: u32 = (data.len() as u64 % 0x1_0000_0000u64) as u32;
        let mut out: Vec<u8> = Vec::with_capacity(4);
        push_u32_le(&mut out, len);
        push_bytes(&mut out, data.as_slice());
        Ok(out)
    }

    /// Reads the length header of a stream frame and checks it: zero and
    /// more than 1 MiB are refused.
    pub fn stream_frame_length(header: &[u8]) -> (r: Result<u32, ProtocolError>)
        requires
            header@.len() == 4,
        ensures
            r == stream_length_check(u32_from_le(header@[0], header@[1], header@[2], header@[3])),
    {
        let len: u32 = ((header[0] as u32) | ((header[1] as u32) << 8u32) | ((header[2] as u32)
            << 16u32) | ((header[3] as u32) << 24u32)) as u32;
        if len == 0 {
            Err(ProtocolError::ZeroLength)
        } else if len > MAX_STREAM_FRAME {
            Err(ProtocolError::MessageTooLarge(len))
        } else {
            Ok(len)
        }
    }
}

/// A stream frame's header announces the length of the message that follows;
/// every message of at most 1 MiB passes the reader's length check.
pub proof fn lemma_stream_frame_header(payload: Seq<u8>)
    requires
        0 < payload.len() <= MAX_STREAM_FRAME,
    ensures
        stream_length_check(
            u32_from_le(
                stream_frame(payload)[0],
                stream_frame(payload)[1],
                stream_frame(payload)[2],
                stream_frame(payload)[3],
            ),
        ) == Ok::<u32, ProtocolError>(payload.len() as u32),
        stream_frame(payload).skip(4) == payload,
{
    lemma_le_u32_roundtrip(payload.len() as u32);
    assert(stream_frame(payload).skip(4) =~= payload);
}

} // verus!

verus! {

/// The binary-protocol counterpart of a text-protocol message, for the
/// variants that both protocols share; `None` for the others.
pub open spec fn shared_view(g: GameMessage) -> Option<MessageView> {
    match g {
        GameMessage::HeartBeat => Some(MessageView::HeartBeat),
        GameMessage::UserInfo { user_id, nickname } => Some(
            MessageView::UserInfo { user_id, nickname: nickname@ },
        ),
        GameMessage::ChatMessage { user_id, room_id, message } => Some(
            MessageView::ChatMessage { user_id, room_id, message: message@ },
        ),
        GameMessage::ChatResponse { success, error } => Some(
            MessageView::ChatResponse { success, error: opt_str_view(error) },
        ),
        GameMessage::RoomJoin { user_id, room_id, nickname } => Some(
            MessageView::RoomJoin { user_id, room_id, nickname: nickname@ },
        ),
        GameMessage::RoomLeave { user_id, room_id } => Some(
            MessageView::RoomLeave { user_id, room_id },
        ),
        GameMessage::RoomJoinSuccess { room_id, user_count } => Some(
            MessageView::RoomJoinSuccess { room_id, user_count },
        ),
        GameMessage::RoomLeaveSuccess { room_id, user_count } => Some(
            MessageView::RoomLeaveSuccess { room_id, user_count },
        ),
        GameMessage::UserJoinedRoom { room_id, user_id, nickname, user_count } => Some(
            MessageView::UserJoinedRoom { room_id, user_id, nickname: nickname@, user_count },
        ),
        GameMessage::UserLeftRoom { room_id, user_id, nickname, user_count } => Some(
            MessageView::UserLeftRoom { room_id, user_id, nickname: nickname@, user_count },
        ),
        GameMessage::SystemMessage { message } => Some(
            MessageView::SystemMessage { message: message@ },
        ),
        GameMessage::Error { code, message } => Some(MessageView::Error { code, message: message@ }),
        _ => None,
    }
}

/// The `{:?}` rendering of the text-protocol messages that the binary
/// protocol does not carry.
pub open spec fn unsupported_debug(g: GameMessage) -> Seq<char> {
    match g {
        GameMessage::HeartBeatResponse { timestamp } => "HeartBeatResponse { timestamp: "@
            + signed_decimal(timestamp as int) + " }"@,
        GameMessage::Connect { room_id, user_id } => "Connect { room_id: "@ + decimal(
            room_id as nat,
        ) + ", user_id: "@ + decimal(user_id as nat) + " }"@,
        GameMessage::ConnectionAck { user_id } => "ConnectionAck { user_id: "@ + decimal(
            user_id as nat,
        ) + " }"@,
        GameMessage::FriendAdd { user_id, friend_user_id, nickname } => "FriendAdd { user_id: "@
            + decimal(user_id as nat) + ", friend_user_id: "@ + decimal(friend_user_id as nat)
            + ", nickname: "@ + str_debug(nickname@) + " }"@,
        GameMessage::FriendRemove { user_id, friend_user_id } => "FriendRemove { user_id: "@
            + decimal(user_id as nat) + ", friend_user_id: "@ + decimal(friend_user_id as nat)
            + " }"@,
        _ => Seq::empty(),
    }
}

/// The binary message `from_game_message` makes of `g`: the same message where
/// the binary protocol has it, else a system notice naming the message.
pub open spec fn converted_view(g: GameMessage) -> MessageView {
    match shared_view(g) {
        Some(v) => v,
        None => MessageView::SystemMessage {
            message: "Unsupported message type: "@ + unsupported_debug(g),
        },
    }
}

/// Converting a text message to the binary protocol keeps its kind and its
/// fields: each message the binary protocol carries becomes the binary
/// message of the same name with the same values.
pub proof fn lemma_conversion_keeps_kind(g: GameMessage)
    ensures
        g is HeartBeat ==> converted_view(g) == MessageView::HeartBeat,
        g matches GameMessage::UserInfo { user_id, nickname } ==> converted_view(g)
            == (MessageView::UserInfo { user_id, nickname: nickname@ }),
        g matches GameMessage::ChatMessage { user_id, room_id, message } ==> converted_view(g)
            == (MessageView::ChatMessage { user_id, room_id, message: message@ }),
        g matches GameMessage::ChatResponse { success, error } ==> converted_view(g)
            == (MessageView::ChatResponse { success, error: opt_str_view(error) }),
        g matches GameMessage::RoomJoin { user_id, room_id, nickname } ==> converted_view(g)
            == (MessageView::RoomJoin { user_id, room_id, nickname: nickname@ }),
        g matches GameMessage::RoomLeave { user_id, room_id } ==> converted_view(g)
            == (MessageView::RoomLeave { user_id, room_id }),
        g matches GameMessage::RoomJoinSuccess { room_id, user_count } ==> converted_view(g)
            == (MessageView::RoomJoinSuccess { room_id, user_count }),
        g matches GameMessage::RoomLeaveSuccess { room_id, user_count } ==> converted_view(g)
            == (MessageView::RoomLeaveSuccess { room_id, user_count }),
        g matches GameMessage::UserJoinedRoom { room_id, user_id, nickname, user_count } ==> converted_view(g)
            == (MessageView::UserJoinedRoom { room_id, user_id, nickname: nickname@, user_count }),
        g matches GameMessage::UserLeftRoom { room_id, user_id, nickname, user_count } ==> converted_view(g)
            == (MessageView::UserLeftRoom { room_id, user_id, nickname: nickname@, user_count }),
        g matches GameMessage::SystemMessage { message } ==> converted_view(g)
            == (MessageView::SystemMessage { message: message@ }),
        g matches GameMessage::Error { code, message } ==> converted_view(g)
            == (MessageView::Error { code, message: message@ }),
{
}

/// Converting a binary message back to the text protocol keeps its kind
/// and its fields: a text message whose binary counterpart is `v` is the
/// text message of the same name with the same values.
pub proof fn lemma_back_conversion_keeps_kind(g: GameMessage, v: MessageView)
    requires
        shared_view(g) == Some(v),
    ensures
        v is HeartBeat ==> g is HeartBeat,
        v matches MessageView::UserInfo { user_id, nickname } ==> (g matches GameMessage::UserInfo {
            user_id: u,
            nickname: n,
        } && u == user_id && n@ == nickname),
        v matches MessageView::ChatMessage { user_id, room_id, message } ==> (
        g matches GameMessage::ChatMessage { user_id: u, room_id: r, message: m } && u == user_id && r
            == room_id && m@ == message),
        v matches MessageView::ChatResponse { success, error } ==> (g matches GameMessage::ChatResponse {
            success: ok,
            error: e,
        } && ok == success && opt_str_view(e) == error),
        v matches MessageView::RoomJoin { user_id, room_id, nickname } ==> (
        g matches GameMessage::RoomJoin { user_id: u, room_id: r, nickname: n } && u == user_id && r
            == room_id && n@ == nickname),
        v matches MessageView::RoomLeave { user_id, room_id } ==> g == (GameMessage::RoomLeave {
            user_id,
            room_id,
        }),
        v matches MessageView::RoomJoinSuccess { room_id, user_count } ==> g == (
        GameMessage::RoomJoinSuccess { room_id, user_count }),
        v matches MessageView::RoomLeaveSuccess { room_id, user_count } ==> g == (
        GameMessage::RoomLeaveSuccess { room_id, user_count }),
        v matches MessageView::UserJoinedRoom { room_id, user_id, nickname, user_count } ==> (
        g matches GameMessage::UserJoinedRoom { room_id: r, user_id: u, nickname: n, user_count: c } && r
            == room_id && u == user_id && n@ == nickname && c == user_count),
        v matches MessageView::UserLeftRoom { room_id, user_id, nickname, user_count } ==> (
        g matches GameMessage::UserLeftRoom { room_id: r, user_id: u, nickname: n, user_count: c } && r
            == room_id && u == user_id && n@ == nickname && c == user_count),
        v matches MessageView::SystemMessage { message } ==> (g matches GameMessage::SystemMessage {
            message: m,
        } && m@ == message),
        v matches MessageView::Error { code, message } ==> (g matches GameMessage::Error {
            code: c,
            message: m,
        } && c == code && m@ == message),
{
}

fn append_decimal(s: &mut String, n: u64)
    ensures
        final(s)@ == old(s)@ + decimal(n as nat),
{
    let d = u64_to_decimal(n);
    s.append(d.as_str());
}

/// The `{:?}` text of a message the binary protocol does not carry.
fn unsupported_text(msg: &GameMessage) -> (r: String)
    requires
        shared_view(*msg) is None,
    ensures
        r@ == "Unsupported message type: "@ + unsupported_debug(*msg),
{
    let mut s = <String as StringExecFns>::from_str("Unsupported message type: ");
    match msg {
        GameMessage::HeartBeatResponse { timestamp } => {
            s.append("HeartBeatResponse { timestamp: ");
            let t = i64_to_decimal(*timestamp);
            s.append(t.as_str());
            s.append(" }");
        },
        GameMessage::Connect { room_id, user_id } => {
            s.append("Connect { room_id: ");
            append_decimal(&mut s, *room_id as u64);
            s.append(", user_id: ");
            append_decimal(&mut s, *user_id as u64);
            s.append(" }");
        },
        GameMessage::ConnectionAck { user_id } => {
            s.append("ConnectionAck { user_id: ");
            append_decimal(&mut s, *user_id as u64);
            s.append(" }");
        },
        GameMessage::FriendAdd { user_id, friend_user_id, nickname } => {
            s.append("FriendAdd { user_id: ");
            append_decimal(&mut s, *user_id as u64);
            s.append(", friend_user_id: ");
            append_decimal(&mut s, *friend_user_id as u64);
            s.append(", nickname: ");
            let q = debug_quoted(nickname.as_str());
            s.append(q.as_str());
            s.append(" }");
        },
        GameMessage::FriendRemove { user_id, friend_user_id } => {
            s.append("FriendRemove { user_id: ");
            append_decimal(&mut s, *user_id as u64);
            s.append(", friend_user_id: ");
            append_decimal(&mut s, *friend_user_id as u64);
            s.append(" }");
        },
        _ => {},
    }
    assert(s@ =~= "Unsupported message type: "@ + unsupported_debug(*msg));
    s
}

impl OptimizedGameMessage {
    /// Converts a text-protocol message: the shared variants keep their
    /// fields; the others become a `SystemMessage` that names them.
    pub fn from_game_message(msg: &GameMessage) -> (r: OptimizedGameMessage)
        ensures
            r@ == converted_view(*msg),
    {
        match msg {
            GameMessage::HeartBeat => OptimizedGameMessage::HeartBeat,
            GameMessage::UserInfo { user_id, nickname } => OptimizedGameMessage::UserInfo {
                user_id: *user_id,
                nickname: nickname.clone(),
            },
            GameMessage::ChatMessage { user_id, room_id, message } =>
                OptimizedGameMessage::ChatMessage {
                    user_id: *user_id,
                    room_id: *room_id,
                    message: message.clone(),
                },
            GameMessage::ChatResponse { success, error } => {
                let e = match error {
                    Some(x) => Some(x.clone()),
                    None => None,
                };
                OptimizedGameMessage::ChatResponse { success: *success, error: e }
            },
            GameMessage::RoomJoin { user_id, room_id, nickname } => OptimizedGameMessage::RoomJoin {
                user_id: *user_id,
                room_id: *room_id,
                nickname: nickname.clone(),
            },
            GameMessage::RoomLeave { user_id, room_id } => OptimizedGameMessage::RoomLeave {
                user_id: *user_id,
                room_id: *room_id,
            },
            GameMessage::RoomJoinSuccess { room_id, user_count } =>
                OptimizedGameMessage::RoomJoinSuccess { room_id: *room_id, user_count: *user_count },
            GameMessage::RoomLeaveSuccess { room_id, user_count } =>
                OptimizedGameMessage::RoomLeaveSuccess {
                    room_id: *room_id,
                    user_count: *user_count,
                },
            GameMessage::UserJoinedRoom { room_id, user_id, nickname, user_count } =>
                OptimizedGameMessage::UserJoinedRoom {
                    room_id: *room_id,
                    user_id: *user_id,
                    nickname: nickname.clone(),
                    user_count: *user_count,
                },
            GameMessage::UserLeftRoom { room_id, user_id, nickname, user_count } =>
                OptimizedGameMessage::UserLeftRoom {
                    room_id: *room_id,
                    user_id: *user_id,
                    nickname: nickname.clone(),
                    user_count: *user_count,
                },
            GameMessage::SystemMessage { message } => OptimizedGameMessage::SystemMessage {
                message: message.clone(),
            },
            GameMessage::Error { code, message } => OptimizedGameMessage::Error {
                code: *code,
                message: message.clone(),
            },
            _ => OptimizedGameMessage::SystemMessage { message: unsupported_text(msg) },
        }
    }

    /// Converts to the text-protocol message with the same variant and fields.
    pub fn to_game_message(&self) -> (r: GameMessage)
        ensures
            shared_view(r) == Some(self@),
    {
        match self {
            OptimizedGameMessage::HeartBeat => GameMessage::HeartBeat,
            OptimizedGameMessage::UserInfo { user_id, nickname } => GameMessage::UserInfo {
                user_id: *user_id,
                nickname: nickname.clone(),
            },
            OptimizedGameMessage::ChatMessage { user_id, room_id, message } =>
                GameMessage::ChatMessage {
                    user_id: *user_id,
                    room_id: *room_id,
                    message: message.clone(),
                },
            OptimizedGameMessage::ChatResponse { success, error } => {
                let e = match error {
                    Some(x) => Some(x.clone()),
                    None => None,
                };
                GameMessage::ChatResponse { success: *success, error: e }
            },
            OptimizedGameMessage::RoomJoin { user_id, room_id, nickname } => GameMessage::RoomJoin {
                user_id: *user_id,
                room_id: *room_id,
                nickname: nickname.clone(),
            },
            OptimizedGameMessage::RoomLeave { user_id, room_id } => GameMessage::RoomLeave {
                user_id: *user_id,
                room_id: *room_id,
            },
            OptimizedGameMessage::RoomJoinSuccess { room_id, user_count } =>
                GameMessage::RoomJoinSuccess { room_id: *room_id, user_count: *user_count },
            OptimizedGameMessage::RoomLeaveSuccess { room_id, user_count } =>
                GameMessage::RoomLeaveSuccess { room_id: *room_id, user_count: *user_count },
            OptimizedGameMessage::UserJoinedRoom { room_id, user_id, nickname, user_count } =>
                GameMessage::UserJoinedRoom {
                    room_id: *room_id,
                    user_id: *user_id,
                    nickname: nickname.clone(),
                    user_count: *user_count,
                },
            OptimizedGameMessage::UserLeftRoom { room_id, user_id, nickname, user_count } =>
                GameMessage::UserLeftRoom {
                    room_id: *room_id,
                    user_id: *user_id,
                    nickname: nickname.clone(),
                    user_count: *user_count,
                },
            OptimizedGameMessage::SystemMessage { message } => GameMessage::SystemMessage {
                message: message.clone(),
            },
            OptimizedGameMessage::Error { code, message } => GameMessage::Error {
                code: *code,
                message: message.clone(),
            },
        }
    }
}

/// Converting a binary message to the text protocol and back gives the same
/// message; converting a shared text message to binary keeps its content.
pub proof fn lemma_conversion_roundtrip(g: GameMessage)
    requires
        shared_view(g) is Some,
    ensures
        converted_view(g) == shared_view(g).unwrap(),
{
}

} // verus!
