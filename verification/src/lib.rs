//! Core of an LLM-agent orchestration library.
//!
//! The crate models a conversation transcript, encodes it to and decodes it
//! from an OpenAI-style chat-completion wire protocol (including the
//! server-sent-event streaming form), and drives a bounded control loop that
//! resolves model-requested capability ("tool") calls into a final answer.
//! Network transport and capability execution are left to the embedding
//! program; everything that decides, encodes or decodes is verified here.

pub mod agents;
pub mod dtos;
pub mod errors;
pub mod json_decode;
pub mod json_parse;
pub mod json_response;
pub mod json_write;
pub mod orchestrator;
pub mod round_trip;
pub mod session;
pub mod stream;
pub mod text;
pub mod tools_registry;
pub mod wrap;
