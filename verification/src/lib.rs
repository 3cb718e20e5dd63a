//! A fixed-capacity, single-producer/single-consumer ring buffer with a
//! batched reserve/commit/consume protocol and a close/drain termination
//! handshake.

pub mod ring;
pub mod laws;
