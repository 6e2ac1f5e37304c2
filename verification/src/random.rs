//! A thread's own store of random bytes, served two at a time.
use vstd::prelude::*;
use rand::RngCore;
use crate::constants::RAND_BUFFER_SIZE;
use crate::constants::MAX_SEQUENCE;

verus! {

/// The 16-bit number whose big-endian bytes are `hi`, `lo`.
pub open spec fn spec_be_u16(hi: u8, lo: u8) -> u16 {
    (hi * 256 + lo) as u16
}

/// The start that a raw 16-bit draw is reduced to when starts up to
/// `max_start` are allowed: the draw itself when every value is allowed, its
/// remainder modulo `max_start + 1` otherwise.
pub open spec fn spec_random_start(raw: u16, max_start: u16) -> u16 {
    if max_start == MAX_SEQUENCE {
        raw
    } else {
        ((raw as int) % (max_start + 1)) as u16
    }
}

/// Random bytes bought in bulk and handed out as 16-bit numbers.
///
/// The cursor never passes the end of the store. A store with fewer than two
/// unread bytes is refilled whole before the next number is served.
pub struct RandBuffer {
    buffer: [u8; RAND_BUFFER_SIZE],
    pos: usize,
}

/// Overwrites every byte of the store: `fill_bytes` of `rand::RngCore`, on the
/// thread's generator `rand::rng()`.
///
/// Nothing is claimed of the bytes written; the cursor is left alone. The
/// generator is seeded, and from time to time reseeded, by the operating
/// system; should the system refuse, the generator panics, whatever the store
/// holds.
#[verifier::external_body]
fn refill(rng: &mut RandBuffer)
    ensures
        final(rng).cursor() == old(rng).cursor(),
{
    rand::rng().fill_bytes(&mut rng.buffer);
}

/// Reads two bytes as a big-endian number.
pub fn be_u16(hi: u8, lo: u8) -> (value: u16)
    ensures
        value == spec_be_u16(hi, lo),
{
    let h: u16 = hi as u16;
    let l: u16 = lo as u16;
    assert(((h << 8) | l) == h * 256 + l) by (bit_vector)
        requires
            h < 256u16,
            l < 256u16,
    ;
    (h << 8) | l
}

/// Reduces a raw draw to a start in `0..=max_start`.
pub fn reduce_start(raw: u16, max_start: u16) -> (start: u16)
    ensures
        start == spec_random_start(raw, max_start),
        start <= max_start,
{
    if max_start == MAX_SEQUENCE {
        raw
    } else {
        let range: u32 = max_start as u32 + 1;
        ((raw as u32) % range) as u16
    }
}

impl RandBuffer {
    #[verifier::type_invariant]
    spec fn cursor_in_store(&self) -> bool {
        self.pos <= RAND_BUFFER_SIZE
    }

    /// The bytes in the store.
    pub closed spec fn bytes(&self) -> Seq<u8> {
        self.buffer@
    }

    /// Index of the first unread byte.
    pub closed spec fn cursor(&self) -> nat {
        self.pos as nat
    }

    /// Fewer than two unread bytes are left.
    pub open spec fn exhausted(&self) -> bool {
        self.cursor() + 2 > RAND_BUFFER_SIZE
    }

    /// Where the next number will be read: at the cursor, or at the front of
    /// a fresh store.
    pub open spec fn serving_at(&self) -> int {
        if self.exhausted() {
            0
        } else {
            self.cursor() as int
        }
    }

    /// The number made of the two bytes just before the cursor.
    pub open spec fn served(&self) -> u16 {
        spec_be_u16(self.bytes()[self.cursor() - 2], self.bytes()[self.cursor() - 1])
    }

    /// `self` is what `before` becomes by serving one number: the cursor
    /// stands two bytes past where `before` would serve, and the bytes are
    /// those of `before` unless it had to be refilled.
    pub open spec fn follows(&self, before: &RandBuffer) -> bool {
        &&& self.bytes().len() == RAND_BUFFER_SIZE
        &&& self.cursor() == before.serving_at() + 2
        &&& self.cursor() <= RAND_BUFFER_SIZE
        &&& !before.exhausted() ==> self.bytes() == before.bytes()
    }

    /// An empty store: the first draw fills it.
    pub fn new() -> (rng: Self)
        ensures
            rng.cursor() == RAND_BUFFER_SIZE,
            rng.exhausted(),
            rng.bytes() == Seq::new(RAND_BUFFER_SIZE as nat, |i: int| 0u8),
    {
        let rng = Self { buffer: [0; RAND_BUFFER_SIZE], pos: RAND_BUFFER_SIZE };
        assert(rng.buffer@ =~= Seq::new(RAND_BUFFER_SIZE as nat, |i: int| 0u8));
        rng
    }

    /// A store that serves the numbers in `bytes` from the front before it
    /// turns to the generator.
    pub fn from_bytes(bytes: [u8; RAND_BUFFER_SIZE]) -> (rng: Self)
        ensures
            rng.cursor() == 0,
            rng.bytes() == bytes@,
    {
        Self { buffer: bytes, pos: 0 }
    }

    /// The next 16-bit number: the two bytes at the cursor, big-endian, after
    /// refilling the store if fewer than two were left.
    pub fn next_u16(&mut self) -> (value: u16)
        ensures
            final(self).follows(old(self)),
            value == final(self).served(),
    {
        proof {
            use_type_invariant(&*self);
        }
        if self.pos + 2 > RAND_BUFFER_SIZE {
            refill(self);
            self.pos = 0;
        }
        let value: u16 = be_u16(self.buffer[self.pos], self.buffer[self.pos + 1]);
        self.pos += 2;
        value
    }
}

/// A fresh start in `0..=max_start`, from one draw of `rng`.
pub fn random_start_seq(rng: &mut RandBuffer, max_start: u16) -> (start: u16)
    ensures
        final(rng).follows(old(rng)),
        start == spec_random_start(final(rng).served(), max_start),
        start <= max_start,
{
    let raw: u16 = rng.next_u16();
    reduce_start(raw, max_start)
}

} // verus!
