//! A verified binary encoding and decoding library built around move-based
//! byte buffers.
//!
//! Every operation consumes its buffer and returns either a remainder buffer
//! or an error that carries the original buffer back, so a failed operation
//! never corrupts or leaks the bytes it was working on.

pub mod buffer;
pub mod bytes;
pub mod cursor;
pub mod decode;
pub mod encode;
pub mod endian;
pub mod estimator;
pub mod len;
pub mod prim;
pub mod slice;
pub mod tlv;
pub mod wire;
pub mod zerocopy;
