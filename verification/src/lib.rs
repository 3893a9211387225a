//! Core logic of the real-time game TCP server: the wire protocols, the
//! message batching codec, the I/O ring buffer, byte utilities, error
//! reporting, the in-memory social/room state and the police-and-thief
//! game rooms, each with a contract.

pub mod wire;
pub mod text;
pub mod protocol;
pub mod optimized;
pub mod simple_utils;
pub mod ring_buffer;
pub mod simd;
pub mod compression;
pub mod error;
pub mod network_utils;
pub mod config;
pub mod friends;
pub mod compression_cache;
pub mod compression_service;
pub mod connection_service;
pub mod heartbeat_service;
pub mod simple_services;
pub mod clock;
pub mod room_tables;
pub mod room_connection_service;
pub mod async_io;
pub mod connection_pool;
pub mod connection_handler;
pub mod performance_monitor;
pub mod message_service;
pub mod parallel_broadcast;
pub mod tcp_service;
pub mod chat_room;
pub mod game;
pub mod room_handler;
pub mod message_handler;
pub mod performance_manager;
pub mod optimized_connection;
pub mod enhanced_tcp_service;
