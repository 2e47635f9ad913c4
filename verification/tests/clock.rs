use ferric::api::{Clock, TimeOfDay};
use ferric::clock::{from_uptime_ns, SECONDS_PER_HOUR, SECONDS_PER_MINUTE};
use ferric::time::NANOS_PER_SEC;

struct TestClock(u64);

impl Clock for TestClock {
    fn local_time(&self) -> TimeOfDay {
        from_uptime_ns(self.0)
    }
}

#[test]
fn rounds_suptime_into_seconds_dropping_fraction() {
    let c = TestClock(1_500_000_000);
    let t = c.local_time();
    assert_eq!(t, TimeOfDay::new(0, 0, 1));
}

#[test]
fn rolls_minutes_and_hours() {
    let c = TestClock(63 * SECONDS_PER_MINUTE * NANOS_PER_SEC);
    assert_eq!(c.local_time(), TimeOfDay::new(1, 3, 0));
}

#[test]
fn wraps_after_24_hours() {
    let c = TestClock(25 * SECONDS_PER_HOUR * NANOS_PER_SEC);
    assert_eq!(c.local_time(), TimeOfDay::new(1, 0, 0));
}

#[test]
fn last_second_of_the_day_is_23_59_59() {
    assert_eq!(from_uptime_ns(86_399 * NANOS_PER_SEC + 999_999_999), TimeOfDay::new(23, 59, 59));
    assert_eq!(from_uptime_ns(86_400 * NANOS_PER_SEC), TimeOfDay::new(0, 0, 0));
    assert_eq!(from_uptime_ns(u64::MAX), TimeOfDay::new(23, 34, 33));
}
