//! Deferred actions: buffers of actions recorded now and run later with
//! mutable access to the world.

pub mod buffer;

pub use self::buffer::{ActionBuffer, ActionBufferSliceExt, LocalActionBuffer};
