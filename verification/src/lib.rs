//! A small stateful service core: one shared collection of named records,
//! mutated through commands that arrive over three channels - browser
//! requests, browser push frames, and typed peer messages.
//!
//! The crate holds the verified heart of that service: the record store with
//! its index-addressed operations, the wire codec that reads every payload
//! shape and writes every reply, event and snapshot, and the router that
//! applies each normalized command exactly once and says what every channel
//! is owed afterwards. The runtime around it performs the I/O the effects
//! describe.

pub mod codec;
pub mod parse;
pub mod recipe;
pub mod router;
pub mod store;
pub mod text;
pub mod wire;
