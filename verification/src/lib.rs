//! A sans-I/O client core for a chat-completion service: the session-token
//! lifecycle and the reduction of a server-sent event stream to one answer.
//!
//! The library performs no network I/O. It says which request to send,
//! decides what a reply means, and keeps the state between the two; the
//! caller moves the bytes.

pub mod body;
pub mod client;
pub mod error;
pub mod http;
pub mod json;
pub mod lines;
pub mod request;
pub mod response;
pub mod sse;
pub mod stream;
pub mod text;

pub use client::{EvilcorpSecondPilotClient, SessionToken, TokenStep};
pub use error::ClientError;
pub use request::{CompletionRequest, CompletionRequestBuilder, Message};
pub use response::{Choice, CompletionResponse, Delta, TokenResponse};
pub use stream::CompletionStream;
