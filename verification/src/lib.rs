//! Client-side toolkit for the Qianfan large-language-model platform.
//!
//! The heart of the crate is the streaming response pipeline: decoded JSON
//! reply chunks are wrapped as envelopes, a complete streamed body is parsed
//! into an ordered chunk sequence, and a live event feed is folded through a
//! verified producer state machine.
pub mod chat;
pub mod embedding;
pub mod errors;
pub mod json;
pub mod model;
pub mod reranker;
pub mod sort;
pub mod text2image;
