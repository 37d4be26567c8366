//! An emulator for an 8-bit virtual machine with a 16-bit instruction set:
//! validated data types, an instruction decoder, the execution engine, the
//! hardware capability interface with a reference backend, and a real-time
//! scheduler.

pub mod backend;
pub mod data;
pub mod error;
pub mod ops;
pub mod image;
pub mod managed_interpreter;
pub mod interpreter;
pub mod laws;
pub mod platform;
