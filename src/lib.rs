//! Camera capture core: format model, capability negotiation, frame decoding,
//! and the streaming state machine with its frame channel.

pub mod decode;
pub mod format;
pub mod negotiate;
pub mod pipeline;
pub mod session;
