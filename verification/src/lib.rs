//! Core of an interactive TLS terminal client: the outbound line-ending
//! normalizer, the duplex relay's termination rule, the preamble that is sent
//! ahead of interactive input, and the decoding of extra trust anchors.
//!
//! Everything here works on plain bytes and small state machines; sockets,
//! files and the terminal belong to the program that drives this library.

pub mod line_endings;
pub mod normalizer;
pub mod relay;
pub mod preamble;
pub mod trust;
