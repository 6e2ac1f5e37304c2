//! Widths and limits shared by the whole crate.
use vstd::prelude::*;

verus! {

/// Largest sequence number: a slot holds the 65536 sequence numbers up to it.
pub const MAX_SEQUENCE: u16 = 0xffff;

/// First timestamp that no longer fits into the 48 bits an identifier keeps.
pub const TIME_LIMIT: u64 = 0x1_0000_0000_0000;

/// Largest number of identifiers one batch may hold: every sequence number of
/// one slot.
pub const MAX_ZIDS_AT_ONCE: usize = 65536;

/// Size in bytes of a thread's store of random bytes.
pub const RAND_BUFFER_SIZE: usize = 8 * 1024;

} // verus!
