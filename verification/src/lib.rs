//! Streaming turn-processing pipeline for a conversational backend.
//!
//! The crate verifies the logic of one request lifecycle: a credit gate
//! that approves or denies a turn, a builder for the provider's message
//! context, a decoder for the provider's newline-delimited event frames,
//! a sentence segmenter feeding speech synthesis, and the persistence
//! state machine that commits the finished turn and notifies the billing
//! service, rolling back otherwise. I/O itself (HTTP, storage, synthesis)
//! is left to the surrounding application; the decisions are made here.

pub mod bytes;
pub mod config;
pub mod context;
pub mod conversation;
pub mod credit;
pub mod dto;
pub mod frame;
pub mod notify;
pub mod persist;
pub mod pipeline;
pub mod segment;
