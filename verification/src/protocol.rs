//! The game message set and the length-prefixed framing of the text
//! protocol: a 4-byte big-endian length header followed by the payload.

use vstd::prelude::*;
use vstd::utf8::*;
use crate::text::string_from_utf8;
use crate::wire::{be_u32_bytes, u32_from_be, push_u32_be, push_bytes, lemma_be_u32_roundtrip};

verus! {

/// Every message that client and server exchange.
#[derive(Debug, Clone, PartialEq)]
pub enum GameMessage {
    /// Liveness probe from a client.
    HeartBeat,
    /// Answer to a heartbeat, with the server's Unix time in seconds.
    HeartBeatResponse { timestamp: i64 },
    /// Connection request for a room.
    Connect { room_id: u32, user_id: u32 },
    /// Acknowledges a new connection.
    ConnectionAck { user_id: u32 },
    /// An error reported to the client.
    Error { code: u16, message: String },
    /// Request to enter a room.
    RoomJoin { user_id: u32, room_id: u32, nickname: String },
    /// Request to leave a room.
    RoomLeave { user_id: u32, room_id: u32 },
    /// A room was entered.
    RoomJoinSuccess { room_id: u32, user_count: u32 },
    /// A room was left.
    RoomLeaveSuccess { room_id: u32, user_count: u32 },
    /// Another user entered the room.
    UserJoinedRoom { room_id: u32, user_id: u32, nickname: String, user_count: u32 },
    /// Another user left the room.
    UserLeftRoom { room_id: u32, user_id: u32, nickname: String, user_count: u32 },
    /// A chat line.
    ChatMessage { user_id: u32, room_id: u32, message: String },
    /// Outcome of a chat line.
    ChatResponse { success: bool, error: Option<String> },
    /// User details.
    UserInfo { user_id: u32, nickname: String },
    /// A notice from the server.
    SystemMessage { message: String },
    /// Request to befriend a user.
    FriendAdd { user_id: u32, friend_user_id: u32, nickname: String },
    /// Request to drop a friend.
    FriendRemove { user_id: u32, friend_user_id: u32 },
}

/// Why a frame or a binary message could not be read.
#[derive(Debug, Clone, Copy, PartialEq, Eq)]
pub enum ProtocolError {
    /// Fewer than the four header bytes.
    MessageTooShort,
    /// The header announces more payload than there is.
    LengthMismatch,
    /// A binary message with no bytes at all.
    EmptyData,
    /// A field runs past the end of the data.
    UnexpectedEof,
    /// A string field is not valid UTF-8.
    InvalidUtf8,
    /// The first byte names no message type.
    UnknownMessageType(u8),
    /// A stream frame announced zero bytes.
    ZeroLength,
    /// A stream frame announced more than the limit.
    MessageTooLarge(u32),
}

/// The frame of `payload`: its length (modulo 2^32, as a `u32` cast gives it)
/// in four big-endian bytes, then the payload.
pub open spec fn text_frame(payload: Seq<u8>) -> Seq<u8> {
    be_u32_bytes((payload.len() % 0x1_0000_0000) as u32) + payload
}

/// What reading a text frame gives: the announced number of payload bytes,
/// or the error the reader reports.
pub open spec fn text_unframe(data: Seq<u8>) -> Result<Seq<u8>, ProtocolError> {
    if data.len() < 4 {
        Err(ProtocolError::MessageTooShort)
    } else {
        let n = u32_from_be(data[0], data[1], data[2], data[3]);
        if data.len() < 4 + n {
            Err(ProtocolError::LengthMismatch)
        } else {
            Ok(data.subrange(4, 4 + n))
        }
    }
}

/// Frames an encoded message: 4-byte big-endian length, then the bytes.
pub fn frame_text_payload(payload: &[u8]) -> (out: Vec<u8>)
    ensures
        out@ == text_frame(payload@),
{
    let len = payload.len();
    #[verifier::truncate]
    let n: u32 = (len as u64 % 0x1_0000_0000u64) as u32;
    let mut out: Vec<u8> = Vec::with_capacity(4);
    push_u32_be(&mut out, n);
    push_bytes(&mut out, payload);
    out
}

/// Checks the header of a text frame and returns the payload it announces;
/// bytes after the payload are ignored.
pub fn unframe_text_payload(data: &[u8]) -> (r: Result<Vec<u8>, ProtocolError>)
    ensures
        match text_unframe(data@) {
            Ok(p) => r matches Ok(v) && v@ == p,
            Err(e) => r == Err::<Vec<u8>, ProtocolError>(e),
        },
{
    if data.len() < 4 {
        return Err(ProtocolError::MessageTooShort);
    }
    let n: u32 = ((data[3] as u32) | ((data[2] as u32) << 8u32) | ((data[1] as u32) << 16u32)
        | ((data[0] as u32) << 24u32)) as u32;
    if data.len() - 4 < n as usize {
        return Err(ProtocolError::LengthMismatch);
    }
    let mut out: Vec<u8> = Vec::with_capacity(n as usize);
    let mut i: usize = 0;
    while i < n as usize
        invariant
            4 + n <= data.len(),
            i <= n,
            out@ == data@.subrange(4, 4 + i),
        decreases n - i,
    {
        out.push(data[4 + i]);
        i = i + 1;
        assert(out@ =~= data@.subrange(4, 4 + i));
    }
    Ok(out)
}

/// The text of a framed message: the payload behind the length header,
/// read as UTF-8 (the message itself is JSON, parsed by the caller).
pub fn text_payload(data: &[u8]) -> (r: Result<String, ProtocolError>)
    ensures
        match text_unframe(data@) {
            Err(e) => r == Err::<String, ProtocolError>(e),
            Ok(p) => if valid_utf8(p) {
                r matches Ok(s) && s@ == decode_utf8(p)
            } else {
                r == Err::<String, ProtocolError>(ProtocolError::InvalidUtf8)
            },
        },
{
    let payload = unframe_text_payload(data)?;
    match string_from_utf8(payload) {
        Some(s) => Ok(s),
        None => Err(ProtocolError::InvalidUtf8),
    }
}

/// Reading a frame back gives the payload that was framed, for every payload
/// shorter than 2^32 bytes; bytes after the frame do not matter.
pub proof fn lemma_text_frame_roundtrip(payload: Seq<u8>, trailing: Seq<u8>)
    requires
        payload.len() < 0x1_0000_0000,
    ensures
        text_unframe(text_frame(payload) + trailing) == Ok::<Seq<u8>, ProtocolError>(payload),
{
    let n = payload.len() as u32;
    lemma_be_u32_roundtrip(n);
    let d = text_frame(payload) + trailing;
    assert(d.subrange(4, 4 + payload.len() as int) =~= payload);
}

} // verus!
