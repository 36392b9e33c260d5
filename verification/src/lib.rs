//! Timed replay of MIDI track events as OSC messages.
//!
//! The crate decides, event by event, what a player has to do: which
//! three-byte message to hand to the transport and how long to wait
//! afterwards. Reading files, sending datagrams and sleeping are left to the
//! caller.

pub mod tempo;
pub mod event;
pub mod replay;
pub mod driver;
pub mod decode;
pub mod osc;
