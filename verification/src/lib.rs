//! Integer-exact core of the KRAIN AIVM MNIST host operations.
//!
//! Tensors cross the host boundary as little-endian IEEE-754 binary32
//! words.  Everything here works on those words as `u32` bit patterns, so
//! every decision the host makes about them is stated and proved exactly.
pub mod codec;
pub mod host;
pub mod ieee;
pub mod laws;
pub mod layers;
pub mod ops;
pub mod weights;
