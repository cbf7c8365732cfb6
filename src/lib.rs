//! Request-handling core of an OpenAI-compatible proxy in front of a
//! Gemini-family backend.
//!
//! - [`json`]: a JSON value held as plain data, its view and its text.
//! - [`normalize`]: the Chat, Responses, Codex and Legacy dialects collapsed
//!   into one canonical chat request; the signature-recovery note.
//! - [`retry`]: upstream failures classified into retry strategies.
//! - [`routing`]: model routing, request types and the model list.
//! - [`session`]: the sticky-session fingerprint.
//! - [`peek`]: the heartbeat filter and first-chunk peek over a stream.
//! - [`collector`]: a chat event stream folded into one completion; the
//!   Legacy projection.
//! - [`orchestrator`]: the per-request retry loop as a state machine.
//! - [`images`]: image configuration, request bodies and fan-out results.
//! - [`text`]: sequence searches shared by the others.

pub mod text;
pub mod json;
pub mod retry;
pub mod normalize;
pub mod routing;
pub mod session;
pub mod peek;
pub mod collector;
pub mod orchestrator;
pub mod images;
