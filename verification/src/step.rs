//! One step of the allocator: from the last identifier issued and the clock
//! to the next reservation.
use vstd::prelude::*;
use crate::constants::MAX_SEQUENCE;
use crate::ident::make_zid;
use crate::ident::spec_make_zid;
use crate::ident::spec_sequence;
use crate::ident::spec_timestamp;
use crate::ident::lemma_parts_are_positional;
use crate::random::random_start_seq;
use crate::random::spec_random_start;
use crate::random::RandBuffer;

verus! {

/// Where a reservation of `additional + 1` sequence numbers goes.
#[derive(Clone, Copy, Debug, PartialEq, Eq)]
pub enum Step {
    /// The slot of the last identifier has room: go on counting in it.
    Next { time: u64, start: u16 },
    /// A slot that nothing was issued in yet: start at a random place in it.
    Fresh { time: u64 },
}

/// A reservation together with the state that records it.
#[derive(Clone, Copy, Debug, PartialEq, Eq)]
pub struct Claim {
    /// Timestamp of every identifier reserved.
    pub time: u64,
    /// Sequence number of the first identifier reserved.
    pub start: u16,
    /// The last identifier reserved: the allocator's state once the claim is
    /// granted.
    pub next: u64,
}

/// The highest start that leaves room for `additional` more sequence numbers
/// in the same slot.
pub open spec fn spec_max_start(additional: u16) -> u16 {
    (MAX_SEQUENCE - additional) as u16
}

/// The step from state `last` when the clock reads `now`.
///
/// Time never runs backwards: the slot is that of the clock only if the clock
/// is ahead of `last`. Otherwise the reservation follows the last sequence
/// number where it fits, and opens the slot after that of `last` where it
/// does not.
pub open spec fn spec_plan(last: u64, now: u64, additional: u16) -> Step {
    let last_time = spec_timestamp(last);
    let last_seq = spec_sequence(last);
    if now > last_time {
        Step::Fresh { time: now }
    } else if last_seq + 1 <= spec_max_start(additional) {
        Step::Next { time: last_time, start: (last_seq + 1) as u16 }
    } else {
        Step::Fresh { time: (last_time + 1) as u64 }
    }
}

/// The timestamp of the reservation made from `last` at `now`.
pub open spec fn spec_claim_time(last: u64, now: u64, additional: u16) -> u64 {
    match spec_plan(last, now, additional) {
        Step::Next { time, start } => time,
        Step::Fresh { time } => time,
    }
}

/// The first sequence number of the reservation made from `last` at `now`,
/// where `raw` is the number drawn should the step open a fresh slot.
pub open spec fn spec_claim_start(last: u64, now: u64, additional: u16, raw: u16) -> u16 {
    match spec_plan(last, now, additional) {
        Step::Next { time, start } => start,
        Step::Fresh { time } => spec_random_start(raw, spec_max_start(additional)),
    }
}

/// The last sequence number of a reservation that starts at `start`.
pub open spec fn spec_end_seq(start: u16, additional: u16) -> u16 {
    ((start + additional) % 0x1_0000) as u16
}

/// The claim made from `last` at `now` with the draw `raw`.
pub open spec fn spec_claim(last: u64, now: u64, additional: u16, raw: u16) -> Claim {
    let time = spec_claim_time(last, now, additional);
    let start = spec_claim_start(last, now, additional, raw);
    Claim { time, start, next: spec_make_zid(time, spec_end_seq(start, additional)) }
}

/// Every reservation lies within one slot: its start leaves room for the
/// `additional` sequence numbers after it, so its end is `start + additional`
/// with nothing wrapped.
pub proof fn lemma_claim_fits(last: u64, now: u64, additional: u16, raw: u16)
    ensures
        spec_claim_start(last, now, additional, raw) + additional <= MAX_SEQUENCE,
        spec_end_seq(spec_claim_start(last, now, additional, raw), additional)
            == spec_claim_start(last, now, additional, raw) + additional,
{
}

/// Decides the step from state `last` when the clock reads `now`.
pub fn plan(last: u64, now: u64, additional: u16) -> (step: Step)
    ensures
        step == spec_plan(last, now, additional),
{
    let max_start: u16 = MAX_SEQUENCE - additional;
    let last_time: u64 = last >> 16;
    let last_seq: u16 = (last & 0xffff) as u16;
    proof {
        lemma_parts_are_positional(last);
    }
    if now > last_time {
        Step::Fresh { time: now }
    } else if last_seq < max_start {
        Step::Next { time: last_time, start: last_seq + 1 }
    } else {
        Step::Fresh { time: last_time + 1 }
    }
}

/// Makes the claim for state `last` at `now`, drawing from `rng` only when
/// the step opens a fresh slot.
pub fn propose(last: u64, now: u64, additional: u16, rng: &mut RandBuffer) -> (claim: Claim)
    ensures
        spec_plan(last, now, additional) is Next ==> *final(rng) == *old(rng) && claim
            == spec_claim(last, now, additional, 0),
        spec_plan(last, now, additional) is Fresh ==> final(rng).follows(old(rng)) && claim
            == spec_claim(last, now, additional, final(rng).served()),
{
    let max_start: u16 = MAX_SEQUENCE - additional;
    let (time, start): (u64, u16) = match plan(last, now, additional) {
        Step::Next { time, start } => (time, start),
        Step::Fresh { time } => (time, random_start_seq(rng, max_start)),
    };
    let end: u16 = start + additional;
    Claim { time, start, next: make_zid(time, end) }
}

} // verus!
