//! An in-memory key-value server core: the RESP wire codec, the RDB snapshot
//! decoder, a key-value store with per-key expiry, the command pipeline and
//! the follower's handshake.
pub mod commands;
pub mod consts;
pub mod db;
pub mod parser;
pub mod replica;
pub mod utils;
