//! One-to-many PCM audio streaming: the wire format of audio messages,
//! length-prefixed framing, the broadcast server's peer bookkeeping, the
//! producer's pacing and the client's sink state machine.

pub mod message;
pub mod frame;
pub mod server;
pub mod pacer;
pub mod client;
pub mod cli;
pub mod speaker;
