//! A small library of verified components, centred on an emulator for an
//! 8-bit virtual machine: an instruction decoder, an execution engine over a
//! pluggable hardware capability interface, a reference backend, and a
//! real-time scheduler, together with a handful of verified data structures
//! and utilities.

pub mod arrayvec;
pub mod chip8;
pub mod flatmap;
pub mod fswalk;
pub mod graph;
pub mod ini;
pub mod mpsc;
pub mod orm;
pub mod perc;
pub mod pstack;
pub mod search;
pub mod trust;
