//! Time-ordered 64-bit identifiers.
//!
//! An identifier packs a millisecond timestamp into its upper 48 bits and a
//! sequence number into its lower 16 bits. A single shared word remembers the
//! most recently issued identifier and is only ever replaced by
//! compare-and-swap, so any number of threads can draw identifiers from one
//! [`allocator::Allocator`] without blocking each other.
pub mod constants;
pub mod ident;
pub mod random;
pub mod clock;
pub mod step;
pub mod errors;
pub mod allocator;
pub mod laws;
