use zid::clock::millis_or_zero;
use zid::clock::time;
use zid::constants::RAND_BUFFER_SIZE;
use zid::constants::TIME_LIMIT;
use zid::ident::make_zid;
use zid::ident::parse_zid_timestamp;
use zid::random::RandBuffer;
use zid::step::plan;
use zid::step::propose;
use zid::step::Claim;
use zid::step::Step;

const T: u64 = 1_700_000_000_000;

fn store_of(front: &[u8]) -> RandBuffer {
    let mut bytes = [0u8; RAND_BUFFER_SIZE];
    bytes[..front.len()].copy_from_slice(front);
    RandBuffer::from_bytes(bytes)
}

#[test]
fn clock_ahead_opens_its_own_slot() {
    assert_eq!(plan(make_zid(T, 17), T + 1, 0), Step::Fresh { time: T + 1 });
    assert_eq!(plan(0, T, 0), Step::Fresh { time: T });
    assert_eq!(plan(make_zid(T, 65535), T + 500, 9), Step::Fresh { time: T + 500 });
}

#[test]
fn same_slot_counts_on() {
    assert_eq!(plan(make_zid(T, 17), T, 0), Step::Next { time: T, start: 18 });
    assert_eq!(plan(make_zid(T, 0), T, 65534), Step::Next { time: T, start: 1 });
    assert_eq!(plan(make_zid(T, 65534), T, 0), Step::Next { time: T, start: 65535 });
}

#[test]
fn plan_fits_five_after_65530() {
    assert_eq!(plan(make_zid(T, 65530), T, 4), Step::Next { time: T, start: 65531 });
}

#[test]
fn plan_rolls_over_four_after_65534() {
    assert_eq!(plan(make_zid(T, 65534), T, 3), Step::Fresh { time: T + 1 });
}

#[test]
fn full_slot_rolls_over() {
    assert_eq!(plan(make_zid(T, 65535), T, 0), Step::Fresh { time: T + 1 });
    assert_eq!(plan(make_zid(T, 0), T, 65535), Step::Fresh { time: T + 1 });
    assert_eq!(plan(0, 0, 65535), Step::Fresh { time: 1 });
}

#[test]
fn clock_behind_does_not_turn_time_back() {
    assert_eq!(plan(make_zid(T, 17), T - 1, 0), Step::Next { time: T, start: 18 });
    assert_eq!(plan(make_zid(T, 17), 0, 0), Step::Next { time: T, start: 18 });
    assert_eq!(plan(make_zid(T, 65535), T - 1000, 0), Step::Fresh { time: T + 1 });
}

#[test]
fn clock_standing_still_keeps_counting() {
    let mut rng = RandBuffer::new();
    let mut last = make_zid(T, 65000);
    for _ in 0..2000 {
        let claim = propose(last, T, 0, &mut rng);
        assert!(claim.time >= parse_zid_timestamp(last));
        assert!(claim.next > last);
        last = claim.next;
    }
    assert!(parse_zid_timestamp(last) > T);
}

#[test]
fn last_slot_of_all_steps_to_the_limit() {
    assert_eq!(plan(u64::MAX, 0, 0), Step::Fresh { time: TIME_LIMIT });
}

#[test]
fn propose_in_same_slot_draws_nothing() {
    let mut rng = store_of(&[0xab, 0xcd, 0x01, 0x02]);
    let claim = propose(make_zid(T, 65530), T, 4, &mut rng);
    assert_eq!(claim, Claim { time: T, start: 65531, next: make_zid(T, 65535) });
    assert_eq!(rng.next_u16(), 0xabcd);
}

#[test]
fn propose_in_fresh_slot_uses_one_draw() {
    let mut rng = store_of(&[0xab, 0xcd, 0x01, 0x02]);
    let claim = propose(make_zid(T, 17), T + 3, 0, &mut rng);
    assert_eq!(claim, Claim { time: T + 3, start: 0xabcd, next: make_zid(T + 3, 0xabcd) });
    assert_eq!(rng.next_u16(), 0x0102);
}

#[test]
fn propose_reduces_the_draw_to_leave_room() {
    let mut rng = store_of(&[0xff, 0xff]);
    let claim = propose(make_zid(T, 65534), T, 3, &mut rng);
    assert_eq!(claim, Claim { time: T + 1, start: 2, next: make_zid(T + 1, 5) });
}

#[test]
fn propose_for_a_whole_slot_starts_at_zero() {
    let mut rng = store_of(&[0x12, 0x34]);
    let claim = propose(make_zid(T, 0), T, 65535, &mut rng);
    assert_eq!(claim, Claim { time: T + 1, start: 0, next: make_zid(T + 1, 65535) });
}

#[test]
fn millis_or_zero_caps_and_defaults() {
    assert_eq!(millis_or_zero(None), 0);
    assert_eq!(millis_or_zero(Some(0)), 0);
    assert_eq!(millis_or_zero(Some(1_700_000_000_123)), 1_700_000_000_123);
    assert_eq!(millis_or_zero(Some(u64::MAX as u128)), u64::MAX);
    assert_eq!(millis_or_zero(Some(u64::MAX as u128 + 1)), u64::MAX);
    assert_eq!(millis_or_zero(Some(u128::MAX)), u64::MAX);
}

#[test]
fn time_reads_a_present_day_clock() {
    let first = time();
    let second = time();
    assert!(first > 1_600_000_000_000);
    assert!(second < TIME_LIMIT);
    assert!(second + 60_000 > first);
}
