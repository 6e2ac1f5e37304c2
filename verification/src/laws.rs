//! What holds of the identifiers, whatever the clock and the generator do.
//!
//! The shared state changes only by granted claims, one after the other. A
//! history of the allocator is therefore a first state and the sequence of
//! grants that followed, each with the clock reading and the draw it was made
//! with. The laws below speak of every such history.
use vstd::prelude::*;
use crate::constants::MAX_SEQUENCE;
use crate::constants::TIME_LIMIT;
use crate::ident::lemma_parts_are_positional;
use crate::ident::lemma_zid_is_positional;
use crate::ident::spec_batch;
use crate::ident::spec_make_zid;
use crate::ident::spec_seq_at;
use crate::ident::spec_sequence;
use crate::ident::spec_timestamp;
use crate::step::lemma_claim_fits;
use crate::step::spec_claim;
use crate::step::spec_claim_start;
use crate::step::spec_claim_time;
use crate::step::spec_max_start;
use crate::step::spec_plan;
use crate::random::spec_random_start;
use crate::step::Claim;

verus! {

/// One granted claim: what the clock read, how many sequence numbers beyond
/// the first were reserved, and what was drawn.
pub struct Grant {
    pub now: u64,
    pub additional: u16,
    pub raw: u16,
}

/// The state after the grants in `grants`, in order, from state `first`.
pub open spec fn spec_state_after(first: u64, grants: Seq<Grant>) -> u64
    decreases grants.len(),
{
    if grants.len() == 0 {
        first
    } else {
        let g = grants.last();
        spec_claim(spec_state_after(first, grants.drop_last()), g.now, g.additional, g.raw).next
    }
}

/// The claim that grant number `call` was.
pub open spec fn spec_granted(first: u64, grants: Seq<Grant>, call: int) -> Claim {
    let g = grants[call];
    spec_claim(spec_state_after(first, grants.take(call)), g.now, g.additional, g.raw)
}

/// The identifier at place `offset` of the batch of grant number `call`.
pub open spec fn spec_issued(first: u64, grants: Seq<Grant>, call: int, offset: int) -> u64 {
    let claim = spec_granted(first, grants, call);
    spec_make_zid(claim.time, spec_seq_at(claim.start, offset as nat))
}

/// `(call, offset)` names an identifier of the history.
pub open spec fn spec_issued_at(grants: Seq<Grant>, call: int, offset: int) -> bool {
    0 <= call < grants.len() && 0 <= offset <= grants[call].additional
}

/// No grant of the history has a timestamp too large for 48 bits.
pub open spec fn spec_in_time(first: u64, grants: Seq<Grant>) -> bool {
    forall|call: int|
        0 <= call < grants.len() ==> (#[trigger] spec_granted(first, grants, call)).time
            < TIME_LIMIT
}

/// For a raw identifier `(time << 16) | sequence` whose timestamp fits into
/// 48 bits, the timestamp read back is exactly `time`.
pub proof fn law_timestamp_round_trip(time: u64, sequence: u16)
    requires
        time < TIME_LIMIT,
    ensures
        spec_timestamp(spec_make_zid(time, sequence)) == time,
        spec_sequence(spec_make_zid(time, sequence)) == sequence,
{
    lemma_zid_is_positional(time, sequence);
}

/// Identifiers are ordered as their pairs of timestamp and sequence number
/// are, timestamp first.
pub proof fn law_order_is_lexicographic(time_a: u64, seq_a: u16, time_b: u64, seq_b: u16)
    requires
        time_a < TIME_LIMIT,
        time_b < TIME_LIMIT,
    ensures
        spec_make_zid(time_a, seq_a) < spec_make_zid(time_b, seq_b) <==> (time_a < time_b || (
        time_a == time_b && seq_a < seq_b)),
        spec_make_zid(time_a, seq_a) == spec_make_zid(time_b, seq_b) <==> (time_a == time_b
            && seq_a == seq_b),
{
    lemma_zid_is_positional(time_a, seq_a);
    lemma_zid_is_positional(time_b, seq_b);
}

/// The timestamp of a claim is never behind the clock and never behind the
/// state it was made from, whatever the clock reads: a clock that stands
/// still or runs backwards does not take the allocator back in time.
pub proof fn law_time_never_regresses(last: u64, now: u64, additional: u16, raw: u16)
    ensures
        spec_claim_time(last, now, additional) >= spec_timestamp(last),
        spec_claim_time(last, now, additional) >= now,
        spec_claim_time(last, now, additional) < TIME_LIMIT ==> spec_timestamp(
            spec_claim(last, now, additional, raw).next,
        ) == spec_claim_time(last, now, additional),
{
    lemma_parts_are_positional(last);
    lemma_claim_fits(last, now, additional, raw);
    let claim = spec_claim(last, now, additional, raw);
    if claim.time < TIME_LIMIT {
        lemma_zid_is_positional(claim.time, (claim.start + additional) as u16);
    }
}

/// A granted claim moves the state strictly forward, and every identifier of
/// its batch lies after the old state and not after the new one.
pub proof fn law_claim_advances(last: u64, now: u64, additional: u16, raw: u16, offset: int)
    requires
        spec_claim_time(last, now, additional) < TIME_LIMIT,
        0 <= offset <= additional,
    ensures
        last < spec_make_zid(
            spec_claim_time(last, now, additional),
            spec_claim_start(last, now, additional, raw),
        ),
        spec_make_zid(
            spec_claim_time(last, now, additional),
            spec_seq_at(spec_claim_start(last, now, additional, raw), offset as nat),
        ) == spec_make_zid(
            spec_claim_time(last, now, additional),
            spec_claim_start(last, now, additional, raw),
        ) + offset,
        spec_claim(last, now, additional, raw).next == spec_make_zid(
            spec_claim_time(last, now, additional),
            spec_claim_start(last, now, additional, raw),
        ) + additional,
{
    lemma_parts_are_positional(last);
    lemma_claim_fits(last, now, additional, raw);
    let claim = spec_claim(last, now, additional, raw);
    lemma_zid_is_positional(claim.time, claim.start);
    lemma_zid_is_positional(claim.time, (claim.start + additional) as u16);
    lemma_zid_is_positional(claim.time, spec_seq_at(claim.start, offset as nat));
}

/// The identifiers of a batch that stays within its slot share the batch's
/// timestamp and count up by one from the first.
pub proof fn law_batch_is_contiguous(time: u64, start: u16, n: nat, i: int)
    requires
        time < TIME_LIMIT,
        start + n <= MAX_SEQUENCE + 1,
        0 <= i < n,
    ensures
        spec_batch(time, start, n).len() == n,
        spec_batch(time, start, n)[i] == spec_make_zid(time, start) + i,
        spec_timestamp(spec_batch(time, start, n)[i]) == time,
        spec_sequence(spec_batch(time, start, n)[i]) == start + i,
{
    lemma_zid_is_positional(time, start);
    lemma_zid_is_positional(time, spec_seq_at(start, i as nat));
}

/// A step under a clock that is not ahead of the state, be it stalled, set
/// back or unreadable: the reservation follows the last sequence number in
/// the slot of the state where it fits there, whatever is drawn, and opens
/// the very next slot at the reduction of the draw where it does not. Either
/// way the new state is the last identifier reserved.
pub proof fn law_step_without_the_clock(last: u64, now: u64, additional: u16, raw: u16)
    requires
        now <= spec_timestamp(last),
    ensures
        spec_sequence(last) + 1 + additional <= MAX_SEQUENCE ==> spec_plan(last, now, additional)
            is Next && spec_claim(last, now, additional, raw) == (Claim {
            time: spec_timestamp(last),
            start: (spec_sequence(last) + 1) as u16,
            next: spec_make_zid(
                spec_timestamp(last),
                (spec_sequence(last) + 1 + additional) as u16,
            ),
        }),
        spec_sequence(last) + 1 + additional > MAX_SEQUENCE ==> spec_plan(last, now, additional)
            is Fresh && spec_claim(last, now, additional, raw) == (Claim {
            time: (spec_timestamp(last) + 1) as u64,
            start: spec_random_start(raw, spec_max_start(additional)),
            next: spec_make_zid(
                (spec_timestamp(last) + 1) as u64,
                (spec_random_start(raw, spec_max_start(additional)) + additional) as u16,
            ),
        }),
{
    lemma_parts_are_positional(last);
    lemma_claim_fits(last, now, additional, raw);
}

proof fn lemma_state_unfolds(first: u64, grants: Seq<Grant>, call: int)
    requires
        0 <= call < grants.len(),
    ensures
        spec_state_after(first, grants.take(call + 1)) == spec_granted(first, grants, call).next,
{
    let upto = grants.take(call + 1);
    assert(upto.drop_last() =~= grants.take(call));
    assert(upto.last() == grants[call]);
}

/// The state never decreases: after more grants it is at least what it was
/// after fewer, and strictly more once a grant lies between.
pub proof fn law_state_never_decreases(first: u64, grants: Seq<Grant>, earlier: int, later: int)
    requires
        spec_in_time(first, grants),
        0 <= earlier <= later <= grants.len(),
    ensures
        spec_state_after(first, grants.take(earlier)) <= spec_state_after(
            first,
            grants.take(later),
        ),
        earlier < later ==> spec_state_after(first, grants.take(earlier)) < spec_state_after(
            first,
            grants.take(later),
        ),
    decreases later - earlier,
{
    if earlier < later {
        law_state_never_decreases(first, grants, earlier, later - 1);
        lemma_state_unfolds(first, grants, later - 1);
        let g = grants[later - 1];
        let claim = spec_granted(first, grants, later - 1);
        assert(claim.time < TIME_LIMIT);
        let before = spec_state_after(first, grants.take(later - 1));
        law_claim_advances(before, g.now, g.additional, g.raw, 0);
    }
}

/// Monotonicity: of two identifiers of one history, the one issued later is
/// the larger. Later means by a later grant, or further on in the same batch.
pub proof fn law_later_is_larger(
    first: u64,
    grants: Seq<Grant>,
    call_a: int,
    offset_a: int,
    call_b: int,
    offset_b: int,
)
    requires
        spec_in_time(first, grants),
        spec_issued_at(grants, call_a, offset_a),
        spec_issued_at(grants, call_b, offset_b),
        call_a < call_b || (call_a == call_b && offset_a < offset_b),
    ensures
        spec_issued(first, grants, call_a, offset_a) < spec_issued(
            first,
            grants,
            call_b,
            offset_b,
        ),
{
    let a = grants[call_a];
    let b = grants[call_b];
    let before_a = spec_state_after(first, grants.take(call_a));
    let before_b = spec_state_after(first, grants.take(call_b));
    assert(spec_granted(first, grants, call_a).time < TIME_LIMIT);
    assert(spec_granted(first, grants, call_b).time < TIME_LIMIT);
    law_claim_advances(before_a, a.now, a.additional, a.raw, offset_a);
    law_claim_advances(before_b, b.now, b.additional, b.raw, offset_b);
    if call_a < call_b {
        lemma_state_unfolds(first, grants, call_a);
        law_state_never_decreases(first, grants, call_a + 1, call_b);
    }
}

/// Uniqueness: two identifiers of one history that were issued at different
/// places are different.
pub proof fn law_identifiers_are_distinct(
    first: u64,
    grants: Seq<Grant>,
    call_a: int,
    offset_a: int,
    call_b: int,
    offset_b: int,
)
    requires
        spec_in_time(first, grants),
        spec_issued_at(grants, call_a, offset_a),
        spec_issued_at(grants, call_b, offset_b),
        call_a != call_b || offset_a != offset_b,
    ensures
        spec_issued(first, grants, call_a, offset_a) != spec_issued(
            first,
            grants,
            call_b,
            offset_b,
        ),
{
    if call_a < call_b || (call_a == call_b && offset_a < offset_b) {
        law_later_is_larger(first, grants, call_a, offset_a, call_b, offset_b);
    } else {
        law_later_is_larger(first, grants, call_b, offset_b, call_a, offset_a);
    }
}

/// Two reservations of one history share no pair of timestamp and sequence
/// number: they lie in different slots, or one ends before the other starts.
pub proof fn law_reservations_are_disjoint(
    first: u64,
    grants: Seq<Grant>,
    call_a: int,
    call_b: int,
)
    requires
        spec_in_time(first, grants),
        0 <= call_a < grants.len(),
        0 <= call_b < grants.len(),
        call_a != call_b,
    ensures
        ({
            let a = spec_granted(first, grants, call_a);
            let b = spec_granted(first, grants, call_b);
            ||| a.time != b.time
            ||| a.start + grants[call_a].additional < b.start
            ||| b.start + grants[call_b].additional < a.start
        }),
{
    let a = spec_granted(first, grants, call_a);
    let b = spec_granted(first, grants, call_b);
    let before_a = spec_state_after(first, grants.take(call_a));
    let before_b = spec_state_after(first, grants.take(call_b));
    let ga = grants[call_a];
    let gb = grants[call_b];
    assert(a.time < TIME_LIMIT);
    assert(b.time < TIME_LIMIT);
    lemma_claim_fits(before_a, ga.now, ga.additional, ga.raw);
    lemma_claim_fits(before_b, gb.now, gb.additional, gb.raw);
    lemma_zid_is_positional(a.time, a.start);
    lemma_zid_is_positional(b.time, b.start);
    if call_a < call_b {
        law_later_is_larger(first, grants, call_a, ga.additional as int, call_b, 0);
        law_claim_advances(before_a, ga.now, ga.additional, ga.raw, ga.additional as int);
        law_claim_advances(before_b, gb.now, gb.additional, gb.raw, 0);
    } else {
        law_later_is_larger(first, grants, call_b, gb.additional as int, call_a, 0);
        law_claim_advances(before_b, gb.now, gb.additional, gb.raw, gb.additional as int);
        law_claim_advances(before_a, ga.now, ga.additional, ga.raw, 0);
    }
}

} // verus!
