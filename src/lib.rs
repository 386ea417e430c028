//! Test synthesis through a hosted code-generation model: the session state of
//! the conversational and completion backends, the framing of their requests,
//! the choice of connection route, and the recovery of one fenced code block
//! from the model's free-text reply.
pub mod chat;
pub mod completion;
pub mod error;
pub mod extract;
pub mod json;
pub mod transport;
