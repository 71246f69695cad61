//! A single node of a small message-passing protocol: the message model,
//! the envelope codec over JSON values, and the request handler.

pub mod codec;
pub mod json;
pub mod message;
pub mod node;
