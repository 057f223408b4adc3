//! Client-side core of a chat view: the wire codec, the connection channel,
//! the event bus, and the session that folds inbound frames into a roster and
//! a message log.

pub mod bus;
pub mod channel;
pub mod chat;
pub mod codec;
pub mod json;
pub mod laws;
pub mod wire;
