//! Real-time-safe decoding of raw MIDI frames and their reporting through a
//! bounded, non-blocking queue.
pub mod event;
pub mod decoder;
pub mod reporter;
pub mod cli;
pub mod command;
pub mod render;
