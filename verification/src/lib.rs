//! Verified core of an LLM-aware gateway.
//!
//! The crate models the per-request orchestration of a chat-completions
//! gateway: request ingress, the two-phase agent flow (function-calling
//! phase, tool-invocation phase, final-LLM phase), the path/body templater
//! for tool calls, the router-model protocol, and the response mux.
//! Transport plumbing (sockets, timers, TLS) lives outside this crate and
//! exchanges plain values with it.

pub mod chat;
pub mod config;
pub mod dispatch;
pub mod errors;
pub mod jsontext;
pub mod jsonval;
pub mod mux;
pub mod omni;
pub mod openai;
pub mod orchestrate;
pub mod parse;
pub mod providers;
pub mod router;
pub mod sse;
pub mod strkit;
pub mod tools;
pub mod templater;
pub mod urlenc;
