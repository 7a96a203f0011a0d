//! The adapter for the Codex flavour of the Responses protocol.
pub mod errors;
pub mod event_laws;
pub mod events;
pub mod grammar;
pub mod headers;
pub mod ids;
pub mod options;
pub mod output;
pub mod replay;
pub mod replay_laws;
pub mod request;
pub mod retry;
pub mod run;
pub mod sessions;
pub mod signature;
pub mod sse;
pub mod token;
pub mod urls;
pub mod websocket;
