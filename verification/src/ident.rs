//! The layout of an identifier: `(timestamp << 16) | sequence`.
use vstd::prelude::*;
use crate::constants::TIME_LIMIT;

verus! {

/// The identifier that packs `time` and `sequence`. Only the low 48 bits of
/// `time` survive the shift.
pub open spec fn spec_make_zid(time: u64, sequence: u16) -> u64 {
    (time << 16) | (sequence as u64)
}

/// The timestamp an identifier carries.
pub open spec fn spec_timestamp(zid: u64) -> u64 {
    zid >> 16
}

/// The sequence number an identifier carries.
pub open spec fn spec_sequence(zid: u64) -> u16 {
    (zid & 0xffff) as u16
}

/// Packing is positional: for a timestamp below [`TIME_LIMIT`] the identifier
/// is `time * 65536 + sequence`, and both parts can be read back.
pub proof fn lemma_zid_is_positional(time: u64, sequence: u16)
    requires
        time < TIME_LIMIT,
    ensures
        spec_make_zid(time, sequence) == time * 65536 + sequence,
        spec_timestamp(spec_make_zid(time, sequence)) == time,
        spec_sequence(spec_make_zid(time, sequence)) == sequence,
{
    let s: u64 = sequence as u64;
    assert(((time << 16) | s) == time * 65536 + s) by (bit_vector)
        requires
            time < 0x1_0000_0000_0000u64,
            s < 0x1_0000u64,
    ;
    assert(((time << 16) | s) >> 16 == time) by (bit_vector)
        requires
            time < 0x1_0000_0000_0000u64,
            s < 0x1_0000u64,
    ;
    assert(((time << 16) | s) & 0xffff == s) by (bit_vector)
        requires
            s < 0x1_0000u64,
    ;
}

/// Unpacking is positional too: the timestamp is the quotient and the
/// sequence number the remainder of a division by 65536, and packing the two
/// again gives the identifier back.
pub proof fn lemma_parts_are_positional(zid: u64)
    ensures
        spec_timestamp(zid) == zid / 65536,
        spec_sequence(zid) == zid % 65536,
        spec_timestamp(zid) < TIME_LIMIT,
        spec_make_zid(spec_timestamp(zid), spec_sequence(zid)) == zid,
{
    assert(zid >> 16 == zid / 65536) by (bit_vector);
    assert(zid & 0xffff == zid % 65536) by (bit_vector);
    assert((zid >> 16) < 0x1_0000_0000_0000u64) by (bit_vector);
    let low: u64 = zid & 0xffff;
    assert(low < 0x1_0000u64) by (bit_vector)
        requires
            low == zid & 0xffff,
    ;
    assert((((zid >> 16) << 16) | low) == zid) by (bit_vector)
        requires
            low == zid & 0xffff,
    ;
}

/// Packs a timestamp and a sequence number into an identifier.
pub fn make_zid(time: u64, sequence: u16) -> (zid: u64)
    ensures
        zid == spec_make_zid(time, sequence),
        spec_sequence(zid) == sequence,
        time < TIME_LIMIT ==> spec_timestamp(zid) == time && zid == time * 65536 + sequence,
{
    proof {
        let s: u64 = sequence as u64;
        assert(((time << 16) | s) & 0xffff == s) by (bit_vector)
            requires
                s < 0x1_0000u64,
        ;
        if time < TIME_LIMIT {
            lemma_zid_is_positional(time, sequence);
        }
    }
    (time << 16) | (sequence as u64)
}

/// The identifier for a known timestamp and sequence number.
pub fn zid_from_time_and_sequence(time: u64, sequence: u16) -> (zid: u64)
    ensures
        zid == spec_make_zid(time, sequence),
        spec_sequence(zid) == sequence,
        time < TIME_LIMIT ==> spec_timestamp(zid) == time && zid == time * 65536 + sequence,
{
    make_zid(time, sequence)
}

/// The millisecond timestamp an identifier was issued under.
pub fn parse_zid_timestamp(zid: u64) -> (time: u64)
    ensures
        time == spec_timestamp(zid),
        time == zid / 65536,
        time < TIME_LIMIT,
{
    proof {
        lemma_parts_are_positional(zid);
    }
    zid >> 16
}

/// The sequence number `offset` places after `start`, wrapping at the end of
/// the slot.
pub open spec fn spec_seq_at(start: u16, offset: nat) -> u16 {
    ((start + offset) % 0x1_0000) as u16
}

/// The `n` identifiers of slot `time` whose sequence numbers follow each
/// other from `start`.
pub open spec fn spec_batch(time: u64, start: u16, n: nat) -> Seq<u64> {
    Seq::new(n, |i: int| spec_make_zid(time, spec_seq_at(start, i as nat)))
}

/// Writes out the `n` identifiers of slot `time` that begin at `start`.
pub fn zid_batch(time: u64, start: u16, n: usize) -> (ids: Vec<u64>)
    ensures
        ids@ == spec_batch(time, start, n as nat),
{
    let mut ids: Vec<u64> = Vec::new();
    let mut i: usize = 0;
    while i < n
        invariant
            i <= n,
            ids@ == spec_batch(time, start, i as nat),
        decreases n - i,
    {
        let offset: u32 = (i % 0x1_0000) as u32;
        let sequence: u16 = ((start as u32 + offset) % 0x1_0000) as u16;
        assert(sequence == spec_seq_at(start, i as nat));
        ids.push(make_zid(time, sequence));
        i += 1;
        assert(ids@ =~= spec_batch(time, start, i as nat));
    }
    ids
}

} // verus!
