//! The real-time audio core of the Koto workstation.
//!
//! The crate holds what runs on the audio thread and what the control
//! thread needs to steer it: sample-accurate and musical time, the audio
//! buffer and the pool that lends buffers out, MIDI decoding, the graph of
//! processing nodes with its schedule and its drive, the metronome, and the
//! commands and events that cross between the two threads, together with
//! the bookkeeping of the arrangement around them.
//!
//! The logic of the crate is verified. What it takes on trust is little and
//! is marked where it stands: the ring buffer of `rtrb` in `queue`, the
//! mutex of `parking_lot` in `recording`, the in-place access to a hash
//! map's value in `graph`, and the wording of an operating system error in
//! `error`. Of what a queue or a lock hands out nothing is assumed. Numbers
//! that are floating point on the outside (samples, gains, tempi) are held
//! as their IEEE 754 encodings and are stored, ordered and compared, but
//! never rounded, in this crate.
pub mod ieee;
pub mod time;
pub mod audio;
pub mod buffer_pool;
pub mod midi;
pub mod midi_engine;
mod call;
pub mod processor;
pub mod node;
pub mod graph;
pub mod schedule;
pub mod drive;
pub mod stage;
pub mod meter;
pub mod metronome;
pub mod command;
pub mod queue;
pub mod recording;
pub mod callback;
pub mod engine;
pub mod error;
pub mod device;
pub mod transport;
pub mod timeline;
pub mod mixer;
pub mod undo;
pub mod project;
pub mod views;
