use std::collections::HashSet;
use zid::allocator::attempt;
use zid::allocator::reserve_sequences;
use zid::allocator::reserve_within;
use zid::allocator::zid;
use zid::allocator::zids;
use zid::allocator::Allocator;
use zid::clock::time;
use zid::constants::MAX_ZIDS_AT_ONCE;
use zid::constants::RAND_BUFFER_SIZE;
use zid::errors::Error;
use zid::ident::make_zid;
use zid::ident::parse_zid_timestamp;
use zid::random::RandBuffer;

/// A timestamp far ahead of any clock this runs under.
const T: u64 = 1 << 47;

fn sequence_of(id: u64) -> u64 {
    id & 0xffff
}

#[test]
fn new_allocator_starts_at_the_clock() {
    let alloc = Allocator::new();
    let mut rng = RandBuffer::new();
    let before = time();
    let first = zid(&alloc, &mut rng);
    assert!(parse_zid_timestamp(first) >= before);
    assert!(first > 0);
}

#[test]
fn resumed_allocator_goes_on_after_its_last() {
    let alloc = Allocator::resuming(make_zid(T, 9));
    let mut rng = RandBuffer::new();
    assert_eq!(zid(&alloc, &mut rng), make_zid(T, 10));
    assert_eq!(zid(&alloc, &mut rng), make_zid(T, 11));
}

#[test]
fn zid_carries_the_time_it_was_made() {
    let alloc = Allocator::new();
    let mut rng = RandBuffer::new();
    let before = time();
    let id = zid(&alloc, &mut rng);
    let after = time();
    assert!(before <= parse_zid_timestamp(id));
    assert!(parse_zid_timestamp(id) <= after);
}

#[test]
fn sequential_zids_increase() {
    let alloc = Allocator::new();
    let mut rng = RandBuffer::new();
    let mut previous = zid(&alloc, &mut rng);
    for _ in 0..20_000 {
        let next = zid(&alloc, &mut rng);
        assert!(previous < next);
        previous = next;
    }
}

#[test]
fn sequential_zids_in_one_slot_count_up() {
    let alloc = Allocator::resuming(make_zid(T, 100));
    let mut rng = RandBuffer::new();
    for expected in 101..=2000u16 {
        assert_eq!(zid(&alloc, &mut rng), make_zid(T, expected));
    }
}

#[test]
fn thousands_of_zids_are_distinct() {
    let alloc = Allocator::new();
    let mut rng = RandBuffer::new();
    let mut seen = HashSet::new();
    for _ in 0..5000 {
        assert!(seen.insert(zid(&alloc, &mut rng)));
    }
    for _ in 0..50 {
        for id in zids(&alloc, &mut rng, 100).unwrap() {
            assert!(seen.insert(id));
        }
    }
    assert_eq!(seen.len(), 10_000);
}

#[test]
fn eight_callers_share_one_allocator() {
    let alloc = Allocator::new();
    let mut callers: Vec<(RandBuffer, Vec<u64>)> =
        (0..8).map(|_| (RandBuffer::new(), Vec::new())).collect();
    for round in 0..1500 {
        for (caller, (rng, ids)) in callers.iter_mut().enumerate() {
            if (round + caller) % 3 == 0 {
                ids.extend(zids(&alloc, rng, 4).unwrap());
            } else {
                ids.push(zid(&alloc, rng));
            }
        }
    }
    let mut all = HashSet::new();
    let mut count = 0;
    for (_, ids) in &callers {
        for pair in ids.windows(2) {
            assert!(pair[0] < pair[1]);
        }
        for &id in ids {
            all.insert(id);
            count += 1;
        }
    }
    assert_eq!(count, 8 * (500 * 4 + 1000));
    assert_eq!(all.len(), count);
}

#[test]
fn batch_of_five_after_65530_is_contiguous() {
    let alloc = Allocator::resuming(make_zid(T, 65530));
    let mut rng = RandBuffer::new();
    let ids = zids(&alloc, &mut rng, 5).unwrap();
    assert_eq!(
        ids,
        vec![
            make_zid(T, 65531),
            make_zid(T, 65532),
            make_zid(T, 65533),
            make_zid(T, 65534),
            make_zid(T, 65535),
        ]
    );
    assert_eq!(parse_zid_timestamp(zid(&alloc, &mut rng)), T + 1);
}

#[test]
fn batch_of_four_after_65534_rolls_over() {
    let alloc = Allocator::resuming(make_zid(T, 65534));
    let mut rng = RandBuffer::new();
    let ids = zids(&alloc, &mut rng, 4).unwrap();
    assert_eq!(ids.len(), 4);
    for &id in &ids {
        assert_eq!(parse_zid_timestamp(id), T + 1);
    }
    assert!(sequence_of(ids[0]) <= 65532);
    for i in 1..4 {
        assert_eq!(ids[i], ids[i - 1] + 1);
    }
    assert!(zid(&alloc, &mut rng) > ids[3]);
}

#[test]
fn zid_after_a_full_slot_rolls_over() {
    let alloc = Allocator::resuming(make_zid(T, 65535));
    let mut rng = RandBuffer::new();
    let id = zid(&alloc, &mut rng);
    assert_eq!(parse_zid_timestamp(id), T + 1);
}

#[test]
fn too_large_a_batch_is_refused() {
    let alloc = Allocator::resuming(make_zid(T, 5));
    let mut rng = RandBuffer::new();
    assert_eq!(zids(&alloc, &mut rng, 65537), Err(Error::TooManyZidsAtOnce { attempted: 65537 }));
    assert_eq!(
        zids(&alloc, &mut rng, usize::MAX),
        Err(Error::TooManyZidsAtOnce { attempted: usize::MAX })
    );
    assert_eq!(zid(&alloc, &mut rng), make_zid(T, 6));
}

#[test]
fn largest_batch_is_a_whole_slot() {
    assert_eq!(MAX_ZIDS_AT_ONCE, 65536);
    let alloc = Allocator::resuming(make_zid(T, 5));
    let mut rng = RandBuffer::new();
    let ids = zids(&alloc, &mut rng, 65536).unwrap();
    assert_eq!(ids.len(), 65536);
    assert_eq!(ids[0], make_zid(T + 1, 0));
    assert_eq!(ids[65535], make_zid(T + 1, 65535));
    for i in 1..ids.len() {
        assert_eq!(ids[i], ids[i - 1] + 1);
    }
    assert_eq!(parse_zid_timestamp(zid(&alloc, &mut rng)), T + 2);
}

#[test]
fn empty_batch_leaves_the_allocator_alone() {
    let alloc = Allocator::resuming(make_zid(T, 5));
    let mut rng = RandBuffer::new();
    let mut bytes = [0u8; RAND_BUFFER_SIZE];
    bytes[0] = 0x12;
    bytes[1] = 0x34;
    let mut rng = RandBuffer::from_bytes(bytes);
    assert_eq!(zids(&alloc, &mut rng, 0), Ok(Vec::new()));
    assert_eq!(zid(&alloc, &mut rng), make_zid(T, 6));
    assert_eq!(rng.next_u16(), 0x1234);
}

#[test]
fn batch_of_one_is_one_zid() {
    let alloc = Allocator::resuming(make_zid(T, 5));
    let mut rng = RandBuffer::new();
    assert_eq!(zids(&alloc, &mut rng, 1), Ok(vec![make_zid(T, 6)]));
}

#[test]
fn stale_clock_never_lowers_the_timestamp() {
    let alloc = Allocator::resuming(make_zid(T, 65000));
    let mut rng = RandBuffer::new();
    let mut previous = make_zid(T, 65000);
    for _ in 0..3000 {
        let id = zid(&alloc, &mut rng);
        assert!(parse_zid_timestamp(id) >= parse_zid_timestamp(previous));
        assert!(parse_zid_timestamp(id) >= T);
        assert!(id > previous);
        previous = id;
    }
    assert!(parse_zid_timestamp(previous) > T);
}

#[test]
fn reservation_is_recorded_in_the_state() {
    let alloc = Allocator::resuming(make_zid(T, 10));
    let mut rng = RandBuffer::new();
    assert_eq!(reserve_sequences(&alloc, &mut rng, 9), (T, 11));
    assert_eq!(reserve_sequences(&alloc, &mut rng, 0), (T, 21));
    let (time, start) = reserve_sequences(&alloc, &mut rng, 65530);
    assert_eq!(time, T + 1);
    assert!(start <= 5);
    let (time, after) = reserve_sequences(&alloc, &mut rng, 65535);
    assert_eq!((time, after), (T + 2, 0));
    assert_eq!(parse_zid_timestamp(zid(&alloc, &mut rng)), T + 3);
}

#[test]
fn reservation_without_own_tries_still_lands() {
    let alloc = Allocator::resuming(make_zid(T, 10));
    let mut rng = RandBuffer::new();
    assert_eq!(reserve_within(&alloc, &mut rng, 9, 0), (T, 11));
    assert_eq!(reserve_within(&alloc, &mut rng, 0, 0), (T, 21));
    assert_eq!(reserve_within(&alloc, &mut rng, 3, 1), (T, 22));
    let (time, start) = reserve_within(&alloc, &mut rng, 65533, 0);
    assert_eq!(time, T + 1);
    assert!(start <= 2);
    assert_eq!(reserve_within(&alloc, &mut rng, 65535, 0), (T + 2, 0));
    let (time, _) = reserve_within(&alloc, &mut rng, 0, 1);
    assert_eq!(time, T + 3);
}

#[test]
fn attempt_leaves_the_state_to_the_caller() {
    let mut rng = RandBuffer::new();
    let claim = attempt(make_zid(T, 10), 4, &mut rng);
    assert_eq!((claim.time, claim.start, claim.next), (T, 11, make_zid(T, 15)));
    let now = time();
    let claim = attempt(0, 0, &mut rng);
    assert!(claim.time >= now);
    assert_eq!(claim.next, make_zid(claim.time, claim.start));
}

#[test]
fn refusal_says_how_many_were_asked_for() {
    let text = Error::TooManyZidsAtOnce { attempted: 65537 }.message();
    assert_eq!(text, "Up to 65536 ZIDs can be generated at once (attempted 65537)");
    let text = Error::TooManyZidsAtOnce { attempted: 0 }.message();
    assert_eq!(text, "Up to 65536 ZIDs can be generated at once (attempted 0)");
    let text = Error::TooManyZidsAtOnce { attempted: 1_000_000_007 }.message();
    assert_eq!(text, "Up to 65536 ZIDs can be generated at once (attempted 1000000007)");
}

fn store_of(front: &[u8]) -> RandBuffer {
    let mut bytes = [0u8; RAND_BUFFER_SIZE];
    bytes[..front.len()].copy_from_slice(front);
    RandBuffer::from_bytes(bytes)
}

#[test]
fn fresh_start_is_the_reduced_draw() {
    let alloc = Allocator::resuming(make_zid(T, 65534));
    let mut rng = store_of(&[0xff, 0xff, 0xab, 0xcd]);
    assert_eq!(reserve_sequences(&alloc, &mut rng, 3), (T + 1, 2));
    assert_eq!(rng.next_u16(), 0xabcd);
}

#[test]
fn reservation_in_the_slot_draws_nothing() {
    let alloc = Allocator::resuming(make_zid(T, 10));
    let mut rng = store_of(&[0x12, 0x34]);
    assert_eq!(reserve_sequences(&alloc, &mut rng, 4), (T, 11));
    assert_eq!(reserve_within(&alloc, &mut rng, 4, 0), (T, 16));
    assert_eq!(rng.next_u16(), 0x1234);
}

#[test]
fn settled_fresh_start_is_the_reduced_draw() {
    let alloc = Allocator::resuming(make_zid(T, 65535));
    let mut rng = store_of(&[0x03, 0xe9, 0xab, 0xcd]);
    assert_eq!(reserve_within(&alloc, &mut rng, 65436, 0), (T + 1, 1));
    assert_eq!(rng.next_u16(), 0xabcd);
}

#[test]
fn rolled_over_batch_starts_at_the_reduced_draw() {
    let alloc = Allocator::resuming(make_zid(T, 65534));
    let mut rng = store_of(&[0xff, 0xff]);
    assert_eq!(
        zids(&alloc, &mut rng, 4),
        Ok(vec![make_zid(T + 1, 2), make_zid(T + 1, 3), make_zid(T + 1, 4), make_zid(T + 1, 5)])
    );
}

#[test]
fn zid_in_a_fresh_slot_carries_the_draw() {
    let alloc = Allocator::resuming(make_zid(T, 65535));
    let mut rng = store_of(&[0xab, 0xcd]);
    assert_eq!(zid(&alloc, &mut rng), make_zid(T + 1, 0xabcd));
}
