use doomslug::clock::{DisplayInstant, FakeClock, FakeClockInner, Instant, Utc};
use doomslug::clock::{UTC_MAX_NANOS, UTC_MIN_NANOS};
use doomslug::duration::Duration;

#[test]
fn test_now() {
    let clock = FakeClock::new(Utc::unix_epoch());
    println!("NOW:{}", DisplayInstant(clock.now()).elapsed_at(clock.now()));
}

#[test]
fn elapsed_time_is_exact_and_never_negative() {
    let earlier = Instant::start().checked_add(Duration::milliseconds(250)).unwrap();
    let later = earlier.checked_add(Duration::milliseconds(1_750)).unwrap();
    assert_eq!(DisplayInstant(earlier).elapsed_at(later), 1_750_000_000);
    assert_eq!(DisplayInstant(later).elapsed_at(later), 0);
    assert_eq!(DisplayInstant(later).elapsed_at(earlier), 0);
}

#[test]
fn instants_add_and_compare() {
    let start = Instant::start();
    let later = start.checked_add(Duration::milliseconds(1)).unwrap();
    assert_eq!(start.since_start(), Duration::seconds(0));
    assert_eq!(later.since_start(), Duration::milliseconds(1));
    assert!(later.at_or_after(start));
    assert!(later.at_or_after(later));
    assert!(!start.at_or_after(later));
    let longest = Duration::from_parts(i64::MAX, 999_999_999).unwrap();
    assert_eq!(later.checked_add(longest), None);
    assert_eq!(start.checked_add(longest).unwrap().since_start(), longest);
}

#[test]
fn utc_stays_within_the_years_that_can_be_represented() {
    let epoch = Utc::unix_epoch();
    assert_eq!(epoch.unix_timestamp_nanos(), 0);
    let moved = epoch.checked_add(Duration::milliseconds(-1_500)).unwrap();
    assert_eq!(moved.unix_timestamp_nanos(), -1_500_000_000);
    assert_eq!(Utc::from_unix_timestamp_nanos(-1_500_000_000), Some(moved));

    let one = Duration::from_parts(0, 1).unwrap();
    let minus_one = Duration::from_parts(0, -1).unwrap();
    let last = Utc::from_unix_timestamp_nanos(UTC_MAX_NANOS).unwrap();
    let first = Utc::from_unix_timestamp_nanos(UTC_MIN_NANOS).unwrap();
    assert_eq!(Utc::from_unix_timestamp_nanos(UTC_MAX_NANOS + 1), None);
    assert_eq!(Utc::from_unix_timestamp_nanos(UTC_MIN_NANOS - 1), None);
    assert_eq!(last.checked_add(one), None);
    assert_eq!(first.checked_add(minus_one), None);
    assert_eq!(last.checked_add(minus_one).unwrap().unix_timestamp_nanos(), UTC_MAX_NANOS - 1);
    assert_eq!(first.checked_add(one).unwrap().unix_timestamp_nanos(), UTC_MIN_NANOS + 1);
    let whole_range: i64 = 253_402_300_799 + 377_705_116_800;
    let span = Duration::from_parts(whole_range, 999_999_999).unwrap();
    assert_eq!(first.checked_add(span), Some(last));
    assert_eq!(epoch.checked_add(Duration::seconds(i64::MAX)), None);
}

#[test]
fn utc_limits_are_those_of_dates() {
    let last = time::OffsetDateTime::from_unix_timestamp_nanos(UTC_MAX_NANOS).unwrap();
    assert_eq!(last.year(), 9999);
    assert!(time::OffsetDateTime::from_unix_timestamp_nanos(UTC_MAX_NANOS + 1).is_err());
    let first = time::OffsetDateTime::from_unix_timestamp_nanos(UTC_MIN_NANOS).unwrap();
    assert_eq!(first.year(), -9999);
    assert!(time::OffsetDateTime::from_unix_timestamp_nanos(UTC_MIN_NANOS - 1).is_err());
}

#[test]
fn inner_clock_moves_both_times() {
    let mut clock = FakeClockInner::new(Utc::unix_epoch());
    assert_eq!(clock.now(), Instant::start());
    clock.advance(Duration::seconds(0));
    assert_eq!(clock.now(), Instant::start());
    clock.advance(Duration::milliseconds(1_500));
    assert_eq!(clock.now().since_start(), Duration::milliseconds(1_500));
    assert_eq!(clock.now_utc().unix_timestamp_nanos(), 1_500_000_000);
    assert!(clock.advanced(Duration::milliseconds(-1)).is_none());
    assert!(clock.advanced(Duration::seconds(i64::MAX)).is_none());
    let moved = clock.advanced(Duration::milliseconds(500)).unwrap();
    assert_eq!(moved.now().since_start(), Duration::seconds(2));
    assert_eq!(moved.now_utc().unix_timestamp_nanos(), 2_000_000_000);
}

#[test]
fn handles_and_clones_show_the_same_time() {
    let utc = Utc::from_unix_timestamp_nanos(7).unwrap();
    let clock = FakeClock::new(utc);
    let copy = clock.clone();
    let handle = clock.clock();
    let second_handle = handle.clone();
    assert_eq!(handle.now(), Instant::start());
    assert_eq!(handle.now_utc(), utc);
    assert!(copy.advance(Duration::milliseconds(20)));
    assert!(clock.advance(Duration::milliseconds(3)));
    assert!(clock.advance(Duration::seconds(0)));
    let expected = Instant::start().checked_add(Duration::milliseconds(23)).unwrap();
    assert_eq!(clock.now(), expected);
    assert_eq!(copy.now(), expected);
    assert_eq!(handle.now(), expected);
    assert_eq!(second_handle.now(), expected);
    assert_eq!(clock.now_utc().unix_timestamp_nanos(), 23_000_007);
    assert_eq!(handle.now_utc().unix_timestamp_nanos(), 23_000_007);
}

#[test]
fn clock_that_cannot_move_stays() {
    let clock = FakeClock::new(Utc::from_unix_timestamp_nanos(UTC_MAX_NANOS).unwrap());
    assert!(!clock.advance(Duration::milliseconds(1)));
    assert!(clock.advance(Duration::seconds(0)));
    assert_eq!(clock.now(), Instant::start());
    assert_eq!(clock.now_utc().unix_timestamp_nanos(), UTC_MAX_NANOS);
}
