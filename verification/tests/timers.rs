use doomslug::clock::Instant;
use doomslug::duration::Duration;
use doomslug::timer::DoomslugTimer;

fn timer(min_delay: Duration, delay_step: Duration, max_delay: Duration) -> DoomslugTimer {
    DoomslugTimer {
        started: Instant::start(),
        last_endorsement_sent: Instant::start(),
        height: 0,
        endorsement_delay: Duration::milliseconds(400),
        min_delay,
        delay_step,
        max_delay,
    }
}

fn usual_timer() -> DoomslugTimer {
    timer(Duration::milliseconds(1_000), Duration::milliseconds(100), Duration::milliseconds(3_000))
}

#[test]
fn delay_grows_by_one_step_per_height_after_the_second() {
    let t = usual_timer();
    assert_eq!(t.get_delay(0), Duration::milliseconds(1_000));
    assert_eq!(t.get_delay(1), Duration::milliseconds(1_000));
    assert_eq!(t.get_delay(2), Duration::milliseconds(1_000));
    assert_eq!(t.get_delay(3), Duration::milliseconds(1_100));
    assert_eq!(t.get_delay(10), Duration::milliseconds(1_800));
    assert_eq!(t.checked_delay(10), Some(Duration::milliseconds(1_800)));
}

#[test]
fn delay_is_bounded_by_the_maximum() {
    let t = usual_timer();
    assert_eq!(t.get_delay(21), Duration::milliseconds(2_900));
    assert_eq!(t.get_delay(22), Duration::milliseconds(3_000));
    assert_eq!(t.get_delay(23), Duration::milliseconds(3_000));
    assert_eq!(t.get_delay(2_147_483_649), Duration::milliseconds(3_000));
    let low = timer(Duration::seconds(5), Duration::seconds(1), Duration::seconds(3));
    assert_eq!(low.get_delay(0), Duration::seconds(3));
}

#[test]
fn delay_does_not_shrink_with_more_heights() {
    let t = usual_timer();
    for n in 0..40u64 {
        assert!(t.get_delay(n + 1).at_least(t.get_delay(n)));
    }
}

#[test]
fn delay_steps_beyond_the_signed_range_count_as_negative() {
    let t = timer(Duration::seconds(1), Duration::seconds(1), Duration::seconds(i64::MAX));
    assert_eq!(t.get_delay(2_147_483_649), Duration::seconds(2_147_483_648));
    assert_eq!(t.get_delay(2_147_483_650), Duration::seconds(1 - 2_147_483_648));
    assert_eq!(t.get_delay(4_294_967_295), Duration::seconds(1 - 3));
    assert_eq!(t.get_delay(u64::MAX), Duration::seconds(1 - 3));
    assert_eq!(t.checked_delay(u64::MAX), Some(Duration::seconds(-2)));
}

#[test]
fn delay_that_cannot_be_represented_is_none() {
    let longest = Duration::from_parts(i64::MAX, 999_999_999).unwrap();
    let t = timer(Duration::seconds(0), longest, longest);
    assert_eq!(t.checked_delay(2), Some(Duration::seconds(0)));
    assert_eq!(t.checked_delay(3), Some(longest));
    assert_eq!(t.checked_delay(4), None);
    let t = timer(Duration::milliseconds(1), longest, Duration::seconds(1));
    assert_eq!(t.checked_delay(2), Some(Duration::milliseconds(1)));
    assert_eq!(t.checked_delay(3), None);
}
