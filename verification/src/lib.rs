//! Core logic of a screen-text capture pipeline: a shared-memory segment
//! model with an advisory lock, a datagram rendezvous protocol used to signal
//! "a fresh frame is ready", frame-delivery pacing, and the per-region text
//! stabilizer that turns noisy recognition output into discrete text events.

pub mod config;
pub mod frame;
pub mod message_socket;
pub mod names;
pub mod processor;
pub mod shared_memory;
pub mod similarity;
pub mod text_processor;
pub mod vnc;

