//! Supervision of a fleet of worker processes, one per session.
//!
//! The crate holds the decisions of the supervision subsystem and none of its
//! I/O. Its caller spawns the processes, owns the sockets and talks to the
//! store and to the cache; it asks the types here what to do next and tells
//! them what came of it.
//!
//! - [`events`] and [`wire`]: the events a worker reports, and how they are
//!   read from the bytes of a Protocol Buffers message.
//! - [`frame`]: the length-prefixed frames that carry the events over the
//!   callback connection.
//! - [`registry`]: the last known runtime state of every session.
//! - [`control`]: the commands that pause, resume and stop a session, and the
//!   bus that carries them.
//! - [`supervisor`]: the supervision of one session, as a state machine.
//! - [`manager`]: the face of the subsystem, which starts, pauses, resumes and
//!   resets sessions and sees to it that no session is supervised twice.
//! - [`teardown`]: the full reset of a session, step by step.
//! - [`text`]: helpers on text.

pub mod control;
pub mod events;
pub mod frame;
pub mod manager;
pub mod registry;
pub mod supervisor;
pub mod teardown;
pub mod text;
pub mod wire;
