use doomslug::duration::Duration;

#[test]
fn duration_constructors_give_exact_lengths() {
    assert_eq!(Duration::seconds(3).whole_nanoseconds(), 3_000_000_000);
    assert_eq!(Duration::seconds(-3).parts(), (-3, 0));
    assert_eq!(Duration::milliseconds(1_234).parts(), (1, 234_000_000));
    assert_eq!(Duration::milliseconds(-1_234).parts(), (-1, -234_000_000));
    assert_eq!(Duration::milliseconds(-1_234).whole_nanoseconds(), -1_234_000_000);
    assert_eq!(Duration::milliseconds(3_000), Duration::seconds(3));
    assert_eq!(Duration::seconds(i64::MAX).parts(), (i64::MAX, 0));
    assert_eq!(Duration::seconds(i64::MIN).parts(), (i64::MIN, 0));
}

#[test]
fn duration_parts_are_checked() {
    let d = Duration::from_parts(1, 999_999_999).unwrap();
    assert_eq!(d.whole_nanoseconds(), 1_999_999_999);
    let d = Duration::from_parts(-1, -5).unwrap();
    assert_eq!(d.whole_nanoseconds(), -1_000_000_005);
    assert_eq!(Duration::from_parts(0, -5).unwrap().whole_nanoseconds(), -5);
    assert_eq!(Duration::from_parts(0, 5).unwrap().whole_nanoseconds(), 5);
    assert!(Duration::from_parts(1, -5).is_none());
    assert!(Duration::from_parts(-1, 5).is_none());
    assert!(Duration::from_parts(0, 1_000_000_000).is_none());
    assert!(Duration::from_parts(0, -1_000_000_000).is_none());
}

#[test]
fn duration_addition_carries_and_stops_at_the_limits() {
    let a = Duration::milliseconds(700);
    assert_eq!(a.checked_add(a), Some(Duration::milliseconds(1_400)));
    let b = Duration::seconds(-1);
    assert_eq!(a.checked_add(b), Some(Duration::milliseconds(-300)));
    let longest = Duration::from_parts(i64::MAX, 999_999_999).unwrap();
    let one = Duration::from_parts(0, 1).unwrap();
    assert_eq!(longest.checked_add(one), None);
    assert_eq!(longest.checked_add(Duration::seconds(0)), Some(longest));
    let minus_one = Duration::from_parts(0, -1).unwrap();
    assert_eq!(longest.checked_add(minus_one), Duration::from_parts(i64::MAX, 999_999_998));
    let shortest = Duration::from_parts(i64::MIN, -999_999_999).unwrap();
    assert_eq!(shortest.checked_add(minus_one), None);
    assert_eq!(shortest.checked_add(one), Duration::from_parts(i64::MIN, -999_999_998));
    let sum = longest.checked_add(shortest);
    assert_eq!(sum, Some(Duration::seconds(-1)));
}

#[test]
fn duration_multiplication_reads_the_factor_as_signed() {
    let d = Duration::milliseconds(1_500);
    assert_eq!(d.times(0), Duration::seconds(0));
    assert_eq!(d.times(3), Duration::milliseconds(4_500));
    assert_eq!(d.times(2_147_483_647), Duration::milliseconds(3_221_225_470_500));
    assert_eq!(Duration::seconds(1).times(u32::MAX), Duration::seconds(-1));
    assert_eq!(Duration::seconds(1).times(2_147_483_648), Duration::seconds(-2_147_483_648));
    assert_eq!(Duration::milliseconds(-1_500).times(3), Duration::milliseconds(-4_500));
}

#[test]
fn duration_comparison_and_minimum() {
    let short = Duration::milliseconds(999);
    let long = Duration::seconds(1);
    assert!(long.at_least(short));
    assert!(long.at_least(long));
    assert!(!short.at_least(long));
    assert!(Duration::milliseconds(-999).at_least(Duration::seconds(-1)));
    assert_eq!(short.min(long), short);
    assert_eq!(long.min(short), short);
    assert_eq!(Duration::seconds(-2).min(Duration::milliseconds(-1)), Duration::seconds(-2));
}
