//! Open Sound Control messages: typed arguments inferred from text tokens,
//! and the byte layout of a message on the wire.
//!
//! A token becomes an argument by [`arg::OscArg::from_str`]: a decimal
//! integer of 32 bits if it is one, else a single-precision number if it
//! reads as one, else text. An address and its arguments make an
//! [`message::OscMessage`], and [`encoder::encode`] gives the bytes of the
//! datagram that carries it. What those bytes are is stated in [`wire`].
//!
//! Floating-point numbers are held by their bit pattern throughout: the
//! caller reads a token as a number, and the library decides and encodes.

pub mod arg;
pub mod decimal;
pub mod encoder;
pub mod message;
pub mod wire;
