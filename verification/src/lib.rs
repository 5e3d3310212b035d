//! Core of a real-time speech-capture and transcription server: the
//! streaming session layer that turns inbound audio frames into a
//! sequenced pipeline of chunk -> transcription job -> out-of-order
//! response -> ordered transcript, together with the in-process job
//! queue, silence-based segmentation, session persistence and restore.
//!
//! Everything here is plain data and state transitions; sockets, files
//! and threads live with the callers.

pub mod error;
pub mod sample;
pub mod segment;
pub mod text;
pub mod translate;
pub mod queue;
pub mod session;
pub mod store;
pub mod compare;
pub mod metadata;
