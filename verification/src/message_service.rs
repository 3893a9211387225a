//! Routing of incoming messages and the message counters. Handlers that
//! users register are closures kept by the caller; this module knows
//! which message types have one and decides what each message calls for.

use vstd::prelude::*;
use vstd::string::*;
use crate::protocol::GameMessage;

verus! {

/// The type name under which a message is routed and counted.
pub open spec fn message_type_name(m: GameMessage) -> Seq<char> {
    match m {
        GameMessage::HeartBeat => "heartbeat"@,
        GameMessage::HeartBeatResponse { .. } => "heartbeat_response"@,
        GameMessage::ConnectionAck { .. } => "connection_ack"@,
        GameMessage::Error { .. } => "error"@,
        GameMessage::RoomJoin { .. } => "room_join"@,
        GameMessage::RoomLeave { .. } => "room_leave"@,
        GameMessage::RoomJoinSuccess { .. } => "room_join_success"@,
        GameMessage::RoomLeaveSuccess { .. } => "room_leave_success"@,
        GameMessage::UserJoinedRoom { .. } => "user_joined_room"@,
        GameMessage::UserLeftRoom { .. } => "user_left_room"@,
        GameMessage::ChatMessage { .. } => "chat"@,
        GameMessage::FriendAdd { .. } => "friend_add"@,
        GameMessage::FriendRemove { .. } => "friend_remove"@,
        GameMessage::Connect { .. } => "connect"@,
        GameMessage::ChatResponse { .. } => "chat_response"@,
        GameMessage::UserInfo { .. } => "user_info"@,
        GameMessage::SystemMessage { .. } => "system_message"@,
    }
}

/// Message counters; each wraps at 2^64.
#[derive(Debug, Clone, Copy, PartialEq, Eq)]
pub struct MessageStats {
    pub total_messages: u64,
    pub heartbeat_messages: u64,
    pub chat_messages: u64,
    pub error_messages: u64,
    pub broadcast_messages: u64,
    pub failed_messages: u64,
}

/// `a + 1`, wrapping at 2^64.
pub open spec fn bump(a: u64) -> u64 {
    if a == u64::MAX { 0 } else { (a + 1) as u64 }
}

fn bump_exec(a: u64) -> (r: u64)
    ensures
        r == bump(a),
{
    if a == u64::MAX { 0 } else { a + 1 }
}

/// The counters after a message of type `t` was processed, successfully
/// or not. Only heartbeat, chat and error messages have counters of their
/// own.
pub open spec fn stats_after(s: MessageStats, t: Seq<char>, success: bool) -> MessageStats {
    MessageStats {
        total_messages: bump(s.total_messages),
        heartbeat_messages: if t == "heartbeat"@ { bump(s.heartbeat_messages) } else { s.heartbeat_messages },
        chat_messages: if t == "chat"@ { bump(s.chat_messages) } else { s.chat_messages },
        error_messages: if t == "error"@ { bump(s.error_messages) } else { s.error_messages },
        failed_messages: if success { s.failed_messages } else { bump(s.failed_messages) },
        ..s
    }
}

/// What an incoming message calls for.
#[derive(Debug, Clone, PartialEq)]
pub enum Dispatch {
    /// Run the handler registered for the message's type, for this client;
    /// a response it returns goes back to the client.
    Handler(u32),
    /// Send this message to this client.
    Reply(u32, GameMessage),
    /// An error reported by a client: log it.
    LogError,
    /// Nothing to do.
    Ignore,
}

/// Why message processing could not start.
#[derive(Debug, Clone, Copy, PartialEq, Eq)]
pub enum MessageServiceError {
    /// The broadcast receiver was taken by an earlier start.
    ReceiverInUse,
}

/// The decision for `m` from `client` when a handler is (or is not)
/// registered for its type, with the server clock at `now_secs`.
pub open spec fn dispatch_of(has_handler: bool, client: Option<u32>, m: GameMessage, now_secs: i64) -> Dispatch {
    if has_handler {
        match client {
            Some(c) => Dispatch::Handler(c),
            None => Dispatch::Ignore,
        }
    } else {
        match m {
            GameMessage::HeartBeat => match client {
                Some(c) => Dispatch::Reply(c, GameMessage::HeartBeatResponse { timestamp: now_secs }),
                None => Dispatch::Ignore,
            },
            GameMessage::Error { .. } => Dispatch::LogError,
            _ => Dispatch::Ignore,
        }
    }
}

/// Routes messages and counts them.
pub struct MessageService {
    handler_types: Vec<String>,
    message_stats: MessageStats,
    receiver_available: bool,
    is_processing: bool,
}

impl MessageService {
    /// The message types with a registered handler.
    pub closed spec fn handlers(&self) -> Set<Seq<char>> {
        Set::new(|t: Seq<char>| exists|i: int| 0 <= i < self.handler_types@.len() && self.handler_types@[i]@ == t)
    }

    pub closed spec fn stats_of(&self) -> MessageStats {
        self.message_stats
    }

    pub closed spec fn processing(&self) -> bool {
        self.is_processing
    }

    /// Whether the broadcast receiver is still there to be taken.
    pub closed spec fn receiver_free(&self) -> bool {
        self.receiver_available
    }

    /// A stopped service with no handler, zero counters and its receiver.
    pub fn new() -> (s: Self)
        ensures
            s.handlers() == Set::<Seq<char>>::empty(),
            s.stats_of() == (MessageStats {
                total_messages: 0,
                heartbeat_messages: 0,
                chat_messages: 0,
                error_messages: 0,
                broadcast_messages: 0,
                failed_messages: 0,
            }),
            !s.processing(),
            s.receiver_free(),
    {
        let s = MessageService {
            handler_types: Vec::new(),
            message_stats: MessageStats {
                total_messages: 0,
                heartbeat_messages: 0,
                chat_messages: 0,
                error_messages: 0,
                broadcast_messages: 0,
                failed_messages: 0,
            },
            receiver_available: true,
            is_processing: false,
        };
        proof {
            assert(s.handlers() =~= Set::<Seq<char>>::empty());
        }
        s
    }

    /// The type name of a message.
    pub fn get_message_type(message: &GameMessage) -> (t: String)
        ensures
            t@ == message_type_name(*message),
    {
        match message {
            GameMessage::HeartBeat => <String as StringExecFns>::from_str("heartbeat"),
            GameMessage::HeartBeatResponse { .. } => <String as StringExecFns>::from_str("heartbeat_response"),
            GameMessage::ConnectionAck { .. } => <String as StringExecFns>::from_str("connection_ack"),
            GameMessage::Error { .. } => <String as StringExecFns>::from_str("error"),
            GameMessage::RoomJoin { .. } => <String as StringExecFns>::from_str("room_join"),
            GameMessage::RoomLeave { .. } => <String as StringExecFns>::from_str("room_leave"),
            GameMessage::RoomJoinSuccess { .. } => <String as StringExecFns>::from_str("room_join_success"),
            GameMessage::RoomLeaveSuccess { .. } => <String as StringExecFns>::from_str("room_leave_success"),
            GameMessage::UserJoinedRoom { .. } => <String as StringExecFns>::from_str("user_joined_room"),
            GameMessage::UserLeftRoom { .. } => <String as StringExecFns>::from_str("user_left_room"),
            GameMessage::ChatMessage { .. } => <String as StringExecFns>::from_str("chat"),
            GameMessage::FriendAdd { .. } => <String as StringExecFns>::from_str("friend_add"),
            GameMessage::FriendRemove { .. } => <String as StringExecFns>::from_str("friend_remove"),
            GameMessage::Connect { .. } => <String as StringExecFns>::from_str("connect"),
            GameMessage::ChatResponse { .. } => <String as StringExecFns>::from_str("chat_response"),
            GameMessage::UserInfo { .. } => <String as StringExecFns>::from_str("user_info"),
            GameMessage::SystemMessage { .. } => <String as StringExecFns>::from_str("system_message"),
        }
    }

    /// Notes that a handler for `message_type` is registered (a later one
    /// replaces an earlier one for the same type).
    pub fn register_handler(&mut self, message_type: &str)
        ensures
            final(self).handlers() == old(self).handlers().insert(message_type@),
            final(self).stats_of() == old(self).stats_of(),
            final(self).processing() == old(self).processing(),
            final(self).receiver_free() == old(self).receiver_free(),
    {
        let name: String = message_type.to_owned();
        if !self.has_handler(&name) {
            self.handler_types.push(name);
            proof {
                assert forall|t: Seq<char>| final(self).handlers().contains(t) <==> old(self).handlers().insert(message_type@).contains(t) by {
                    if old(self).handlers().contains(t) {
                        let i = choose|i: int| 0 <= i < old(self).handler_types@.len() && old(self).handler_types@[i]@ == t;
                        assert(self.handler_types@[i] == old(self).handler_types@[i]);
                    }
                    if t == message_type@ {
                        assert(self.handler_types@[self.handler_types@.len() - 1]@ == t);
                    }
                    if final(self).handlers().contains(t) {
                        let i = choose|i: int| 0 <= i < self.handler_types@.len() && self.handler_types@[i]@ == t;
                        if i < old(self).handler_types@.len() {
                            assert(old(self).handler_types@[i] == self.handler_types@[i]);
                        }
                    }
                }
                assert(final(self).handlers() =~= old(self).handlers().insert(message_type@));
            }
        } else {
            proof {
                assert(self.handlers() =~= old(self).handlers().insert(message_type@));
            }
        }
    }

    /// Whether a handler is registered for `message_type`.
    pub fn has_handler(&self, message_type: &String) -> (b: bool)
        ensures
            b == self.handlers().contains(message_type@),
    {
        let mut i: usize = 0;
        while i < self.handler_types.len()
            invariant
                i <= self.handler_types@.len(),
                forall|k: int| 0 <= k < i ==> self.handler_types@[k]@ != message_type@,
            decreases self.handler_types@.len() - i,
        {
            if self.handler_types[i] == *message_type {
                return true;
            }
            i = i + 1;
        }
        false
    }

    /// What message `message` from `client_id` calls for at `now_secs`: a
    /// client's message goes to the handler registered for its type;
    /// without one, a heartbeat is answered with the server time, a
    /// client's error is logged, and anything else is left alone.
    pub fn route_message(&self, client_id: Option<u32>, message: &GameMessage, now_secs: i64) -> (d: Dispatch)
        ensures
            d == dispatch_of(
                self.handlers().contains(message_type_name(*message)),
                client_id,
                *message,
                now_secs,
            ),
    {
        let t = Self::get_message_type(message);
        if self.has_handler(&t) {
            match client_id {
                Some(c) => Dispatch::Handler(c),
                None => Dispatch::Ignore,
            }
        } else {
            match message {
                GameMessage::HeartBeat => match client_id {
                    Some(c) => Dispatch::Reply(c, GameMessage::HeartBeatResponse { timestamp: now_secs }),
                    None => Dispatch::Ignore,
                },
                GameMessage::Error { .. } => Dispatch::LogError,
                _ => Dispatch::Ignore,
            }
        }
    }

    /// Counts a processed message of type `message_type`.
    pub fn update_message_stats(&mut self, message_type: &str, success: bool)
        ensures
            final(self).stats_of() == stats_after(old(self).stats_of(), message_type@, success),
            final(self).handlers() == old(self).handlers(),
            final(self).processing() == old(self).processing(),
            final(self).receiver_free() == old(self).receiver_free(),
    {
        proof {
            reveal_strlit("heartbeat");
            reveal_strlit("chat");
            reveal_strlit("error");
        }
        proof {
            assert("heartbeat"@.len() == 9 && "chat"@.len() == 4 && "error"@.len() == 5);
            assert("heartbeat"@ != "chat"@ && "heartbeat"@ != "error"@ && "chat"@ != "error"@);
        }
        let t: String = message_type.to_owned();
        self.message_stats.total_messages = bump_exec(self.message_stats.total_messages);
        if t == <String as StringExecFns>::from_str("heartbeat") {
            self.message_stats.heartbeat_messages = bump_exec(self.message_stats.heartbeat_messages);
        } else if t == <String as StringExecFns>::from_str("chat") {
            self.message_stats.chat_messages = bump_exec(self.message_stats.chat_messages);
        } else if t == <String as StringExecFns>::from_str("error") {
            self.message_stats.error_messages = bump_exec(self.message_stats.error_messages);
        }
        if !success {
            self.message_stats.failed_messages = bump_exec(self.message_stats.failed_messages);
        }
    }

    /// The error message for `client_id`, counted as an error message.
    pub fn send_error(&mut self, error_code: u16, error_message: &str) -> (m: GameMessage)
        ensures
            m matches GameMessage::Error { code, message } && code == error_code && message@ == error_message@,
            final(self).stats_of() == stats_after(old(self).stats_of(), "error"@, true),
            final(self).handlers() == old(self).handlers(),
            final(self).processing() == old(self).processing(),
            final(self).receiver_free() == old(self).receiver_free(),
    {
        self.update_message_stats("error", true);
        GameMessage::Error { code: error_code, message: error_message.to_owned() }
    }

    /// Counts a broadcast.
    pub fn record_broadcast(&mut self)
        ensures
            final(self).stats_of() == stats_after(old(self).stats_of(), "broadcast"@, true),
            final(self).handlers() == old(self).handlers(),
            final(self).processing() == old(self).processing(),
            final(self).receiver_free() == old(self).receiver_free(),
    {
        self.update_message_stats("broadcast", true);
    }

    /// Starts processing: already running is no error (and returns false);
    /// otherwise the service is marked running and takes the receiver,
    /// which fails when an earlier start took it.
    pub fn start_processing(&mut self) -> (r: Result<bool, MessageServiceError>)
        ensures
            old(self).processing() ==> r == Ok::<bool, MessageServiceError>(false) && final(self).receiver_free()
                == old(self).receiver_free(),
            !old(self).processing() && old(self).receiver_free() ==> r == Ok::<bool, MessageServiceError>(true)
                && !final(self).receiver_free(),
            !old(self).processing() && !old(self).receiver_free() ==> r == Err::<bool, MessageServiceError>(
                MessageServiceError::ReceiverInUse,
            ) && !final(self).receiver_free(),
            final(self).processing(),
            final(self).handlers() == old(self).handlers(),
            final(self).stats_of() == old(self).stats_of(),
    {
        if self.is_processing {
            return Ok(false);
        }
        self.is_processing = true;
        if !self.receiver_available {
            return Err(MessageServiceError::ReceiverInUse);
        }
        self.receiver_available = false;
        Ok(true)
    }

    /// Stops processing; returns false when it was not running.
    pub fn stop_processing(&mut self) -> (was_running: bool)
        ensures
            was_running == old(self).processing(),
            !final(self).processing(),
            final(self).receiver_free() == old(self).receiver_free(),
            final(self).handlers() == old(self).handlers(),
            final(self).stats_of() == old(self).stats_of(),
    {
        let was = self.is_processing;
        self.is_processing = false;
        was
    }

    /// Whether messages are being processed.
    pub fn is_processing(&self) -> (b: bool)
        ensures
            b == self.processing(),
    {
        self.is_processing
    }

    /// The message counters.
    pub fn get_message_stats(&self) -> (s: MessageStats)
        ensures
            s == self.stats_of(),
    {
        self.message_stats
    }
}

} // verus!
