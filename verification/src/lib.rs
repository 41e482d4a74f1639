//! Core of a multi-process game server: the length-prefixed binary protocol
//! codec, the incremental frame codec that sits between a socket and the
//! message dispatch, and the routing fabric that connects connections to the
//! single-threaded service loop.

pub mod channel;
pub mod conf;
pub mod connection;
pub mod engine;
pub mod errors;
pub mod http;
pub mod listener;
pub mod llog;
pub mod messages;
pub mod reader;
pub mod rpc_sender;
pub mod service;
pub mod sizeofs;
pub mod strutil;
pub mod varint;
pub mod writer;
