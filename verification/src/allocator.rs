//! The shared state and the lock-free reservation of sequence numbers.
use vstd::prelude::*;
use std::sync::atomic::AtomicU64;
use std::sync::atomic::Ordering;
use crate::clock::time;
use crate::constants::MAX_SEQUENCE;
use crate::constants::MAX_ZIDS_AT_ONCE;
use crate::errors::Error;
use crate::ident::make_zid;
use crate::ident::spec_batch;
use crate::ident::spec_make_zid;
use crate::ident::zid_batch;
use crate::random::RandBuffer;
use crate::step::propose;
use crate::step::spec_claim;
use crate::step::spec_claim_start;
use crate::step::spec_claim_time;
use crate::step::spec_plan;
use crate::step::lemma_claim_fits;
use crate::step::Claim;

verus! {

/// How often [`reserve_sequences`] tries the exchange itself before it leaves
/// the retrying to the standard library.
pub const RETRY_LIMIT: u64 = 0xffff_ffff;

/// The most recently issued identifier, shared by every thread that draws
/// from it. Once made, it is replaced only by compare-and-swap.
pub struct Allocator {
    last: AtomicU64,
}

/// `std::hint::spin_loop`: tells the processor that the thread is waiting in
/// a retry loop. It has no result.
pub assume_specification[ std::hint::spin_loop ]();

/// `(time, start)` is a reservation of `additional + 1` sequence numbers
/// made with the draw `raw`: the one that some state and some reading of the
/// clock lead to, its start being the reduction of `raw` wherever it opens a
/// fresh slot.
pub open spec fn spec_reserved_by(time: u64, start: u16, additional: u16, raw: u16) -> bool {
    exists|last: u64, now: u64|
        #![trigger spec_claim_start(last, now, additional, raw)]
        time == spec_claim_time(last, now, additional) && start == spec_claim_start(
            last,
            now,
            additional,
            raw,
        )
}

/// `claim` is what some reading of the clock makes of `last`, and `after` is
/// what the store `before` became on the way: the same store if the claim
/// stays in the slot of `last`, the store one draw later if it opens a fresh
/// slot, and then the number just served is the one the start was reduced
/// from.
pub open spec fn spec_claimed(
    claim: Claim,
    last: u64,
    additional: u16,
    before: RandBuffer,
    after: RandBuffer,
) -> bool {
    exists|now: u64|
        #![trigger spec_plan(last, now, additional)]
        {
            &&& claim == spec_claim(last, now, additional, after.served())
            &&& spec_plan(last, now, additional) is Next ==> after == before
            &&& spec_plan(last, now, additional) is Fresh ==> after.follows(&before)
        }
}

/// A reservation never leaves its slot.
pub proof fn lemma_reserved_fits(time: u64, start: u16, additional: u16, raw: u16)
    requires
        spec_reserved_by(time, start, additional, raw),
    ensures
        start + additional <= MAX_SEQUENCE,
{
    let (last, now) = choose|last: u64, now: u64|
        #![trigger spec_claim_start(last, now, additional, raw)]
        time == spec_claim_time(last, now, additional) && start == spec_claim_start(
            last,
            now,
            additional,
            raw,
        );
    lemma_claim_fits(last, now, additional, raw);
}

/// What a claim reserves is a reservation made with the number that the
/// store served last.
pub proof fn lemma_claim_is_reservation(
    claim: Claim,
    last: u64,
    additional: u16,
    before: RandBuffer,
    after: RandBuffer,
)
    requires
        spec_claimed(claim, last, additional, before, after),
    ensures
        spec_reserved_by(claim.time, claim.start, additional, after.served()),
        claim.start + additional <= MAX_SEQUENCE,
{
    let now = choose|now: u64|
        #![trigger spec_plan(last, now, additional)]
        {
            &&& claim == spec_claim(last, now, additional, after.served())
            &&& spec_plan(last, now, additional) is Next ==> after == before
            &&& spec_plan(last, now, additional) is Fresh ==> after.follows(&before)
        };
    assert(claim.start == spec_claim_start(last, now, additional, after.served()));
    lemma_claim_fits(last, now, additional, after.served());
}

impl Allocator {
    /// An allocator that has issued nothing yet: its state is zero.
    pub fn new() -> Self {
        Allocator { last: AtomicU64::new(0) }
    }

    /// An allocator that goes on after the identifier `last`.
    pub fn resuming(last: u64) -> Self {
        Allocator { last: AtomicU64::new(last) }
    }

    /// The state as this thread sees it now.
    fn load(&self) -> u64 {
        self.last.load(Ordering::Relaxed)
    }

    /// Puts `next` in place of `current` if `current` is still the state;
    /// says whether it did. It may fail even then.
    fn exchange(&self, current: u64, next: u64) -> bool {
        self.last.compare_exchange_weak(
            current,
            next,
            Ordering::Relaxed,
            Ordering::Relaxed,
        ).is_ok()
    }
}

/// Reads the clock and makes the claim for state `last`, drawing from `rng`
/// only when the claim opens a fresh slot.
pub fn attempt(last: u64, additional: u16, rng: &mut RandBuffer) -> (claim: Claim)
    ensures
        spec_claimed(claim, last, additional, *old(rng), *final(rng)),
{
    let now: u64 = time();
    let claim: Claim = propose(last, now, additional, rng);
    assert(spec_plan(last, now, additional) is Next || spec_plan(last, now, additional) is Fresh);
    claim
}

/// Makes the claim for state `last`, notes its reservation in `held`, and
/// hands back the state to put in place of `last`.
fn reattempt(
    last: u64,
    additional: u16,
    rng: &mut RandBuffer,
    held: &mut (u64, u16),
) -> (next: Option<u64>)
    ensures
        next is Some,
        spec_reserved_by(final(held).0, final(held).1, additional, final(rng).served()),
{
    let ghost before = *rng;
    let claim: Claim = attempt(last, additional, rng);
    proof {
        lemma_claim_is_reservation(claim, last, additional, before, *rng);
    }
    *held = (claim.time, claim.start);
    Some(claim.next)
}

/// `AtomicU64::fetch_update`: the standard library reads the state, asks the
/// closure for its successor, and tries to exchange the two, again and again
/// until an exchange succeeds.
///
/// The result is the reservation that the closure noted on its last call,
/// the one whose state was stored, and `rng` is as that call left it. Each
/// call of the closure is a call of [`reattempt`], which leaves in `held` a
/// reservation made with the number that `rng` served last, and the closure
/// is called at least once.
#[verifier::external_body]
fn settle(alloc: &Allocator, rng: &mut RandBuffer, additional: u16) -> (reservation: (u64, u16))
    ensures
        spec_reserved_by(reservation.0, reservation.1, additional, final(rng).served()),
{
    let mut held: (u64, u16) = (0, 0);
    let _ = alloc.last.fetch_update(
        Ordering::Relaxed,
        Ordering::Relaxed,
        |last| reattempt(last, additional, rng, &mut held),
    );
    held
}

/// Reserves `additional + 1` consecutive sequence numbers of one slot, trying
/// the exchange up to `attempts` times itself.
///
/// Each try reads the state and the clock, makes the claim, and offers it in
/// exchange for the state it read; a try that loses to another thread starts
/// over, after a hint to the processor that it is spinning. A caller that
/// has used up its tries leaves the same step to `AtomicU64::fetch_update`,
/// which repeats it until an exchange succeeds. The result is the timestamp and the first
/// sequence number reserved. A reservation that opens a fresh slot starts at
/// the reduction of the last number that `rng` served.
pub fn reserve_within(
    alloc: &Allocator,
    rng: &mut RandBuffer,
    additional: u16,
    attempts: u64,
) -> (reservation: (u64, u16))
    ensures
        spec_reserved_by(reservation.0, reservation.1, additional, final(rng).served()),
        reservation.1 + additional <= MAX_SEQUENCE,
{
    let mut left: u64 = attempts;
    while left > 0
        decreases left,
    {
        let last: u64 = alloc.load();
        let ghost before = *rng;
        let claim: Claim = attempt(last, additional, rng);
        if alloc.exchange(last, claim.next) {
            proof {
                lemma_claim_is_reservation(claim, last, additional, before, *rng);
            }
            return (claim.time, claim.start);
        }
        std::hint::spin_loop();
        left -= 1;
    }
    let reservation: (u64, u16) = settle(alloc, rng, additional);
    proof {
        lemma_reserved_fits(reservation.0, reservation.1, additional, rng.served());
    }
    reservation
}

/// Reserves `additional + 1` consecutive sequence numbers of one slot and
/// returns their timestamp and the first of them. A reservation that opens a
/// fresh slot starts at the reduction of the last number that `rng` served.
pub fn reserve_sequences(
    alloc: &Allocator,
    rng: &mut RandBuffer,
    additional: u16,
) -> (reservation: (u64, u16))
    ensures
        spec_reserved_by(reservation.0, reservation.1, additional, final(rng).served()),
        reservation.1 + additional <= MAX_SEQUENCE,
{
    reserve_within(alloc, rng, additional, RETRY_LIMIT)
}

/// The next identifier: the first of a reservation of one.
pub fn zid(alloc: &Allocator, rng: &mut RandBuffer) -> (id: u64)
    ensures
        exists|time: u64, start: u16|
            spec_reserved_by(time, start, 0, final(rng).served()) && id == #[trigger] spec_make_zid(
                time,
                start,
            ),
{
    let (time, start): (u64, u16) = reserve_sequences(alloc, rng, 0);
    make_zid(time, start)
}

/// The next `n` identifiers, reserved in one step: they share a timestamp and
/// their sequence numbers follow each other.
///
/// More than [`MAX_ZIDS_AT_ONCE`] are refused. None at all is an empty batch;
/// neither case touches the allocator or `rng`.
pub fn zids(alloc: &Allocator, rng: &mut RandBuffer, n: usize) -> (batch: Result<Vec<u64>, Error>)
    ensures
        n > MAX_ZIDS_AT_ONCE ==> batch == Err::<Vec<u64>, Error>(
            Error::TooManyZidsAtOnce { attempted: n },
        ) && *final(rng) == *old(rng),
        n == 0 ==> batch is Ok && batch->Ok_0@ == Seq::<u64>::empty() && *final(rng) == *old(rng),
        0 < n <= MAX_ZIDS_AT_ONCE ==> batch is Ok && batch->Ok_0@.len() == n && exists|
            time: u64,
            start: u16,
        |
            spec_reserved_by(time, start, (n - 1) as u16, final(rng).served()) && start + n - 1
                <= MAX_SEQUENCE && batch->Ok_0@ == #[trigger] spec_batch(time, start, n as nat),
{
    if n == 0 {
        return Ok(Vec::new());
    }
    if n > MAX_ZIDS_AT_ONCE {
        return Err(Error::TooManyZidsAtOnce { attempted: n });
    }
    let (time, start): (u64, u16) = reserve_sequences(alloc, rng, (n - 1) as u16);
    Ok(zid_batch(time, start, n))
}

} // verus!
