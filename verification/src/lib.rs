//! Low-level storage and call-stack primitives of a register-based virtual
//! machine.
//!
//! * [`chunk`]: a fixed number of slots that start out empty, read and
//!   written by offset. This is the backing store for register files and
//!   similar arrays whose size is known when they are made.
//! * [`call_frame`]: one activation of a routine, owning the frame of its
//!   caller, and the walk from a frame through all of its ancestors.
//!
//! Every function is verified against its contract. Where a contract demands
//! an offset within a chunk, the caller proves that it is; `Chunk::get` and
//! `Chunk::set` take any offset and test it themselves.

pub mod call_frame;
pub mod chunk;
