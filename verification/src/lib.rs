//! A verified model of a session multiplexer over a single authenticated
//! IRC-style connection: one inbound message stream and one outbound command
//! sink are turned into independent per-conversation handles, each with its
//! own lossy fan-out of matched chat events and its own serialized sends.

pub mod channel;
pub mod client;
pub mod error;
pub mod fanout;
pub mod message;
pub mod private_message;
