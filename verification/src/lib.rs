//! Core of a realtime audio plugin engine.
//!
//! The engine arranges plugin instances in a directed graph of audio, note
//! and automation connections, compiles that graph into a linear schedule of
//! tasks with delay compensation and channel summation, and runs the schedule
//! one block at a time.  A plugin host state machine coordinates the
//! main-thread lifecycle of each instance with the audio-thread processor,
//! and reducing queues carry parameter changes between the two sides.
//!
//! Everything here is plain, single-owner data: the operating-system audio
//! driver, real threads, ring buffers and the plugin binary format live in
//! the surrounding application, which hands plain values in and out.

pub mod bridge;
pub mod buffer;
pub mod compiler;
pub mod engine;
pub mod events;
pub mod executor;
pub mod graph;
pub mod params;
pub mod plugin_host;
pub mod port;
pub mod proc_events;
pub mod state;
