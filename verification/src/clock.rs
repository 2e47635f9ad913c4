//! Local time of day derived from the monotonic uptime, with boot as
//! `00:00:00`: it ticks forward from boot and wraps every 24 hours.
use vstd::prelude::*;
use crate::api::{Clock, TimeOfDay, TimeSource};
use crate::time::NANOS_PER_SEC;

verus! {

pub const SECONDS_PER_MINUTE: u64 = 60;

pub const SECONDS_PER_HOUR: u64 = 3600;

pub const SECONDS_PER_DAY: u64 = 86_400;

/// The time of day `ns` nanoseconds after boot: whole seconds, modulo a day,
/// broken into hours, minutes and seconds.
pub open spec fn time_of_day_spec(ns: u64) -> TimeOfDay {
    let secs = (ns / NANOS_PER_SEC) % SECONDS_PER_DAY;
    TimeOfDay {
        hours: (secs / SECONDS_PER_HOUR) as u8,
        minutes: ((secs % SECONDS_PER_HOUR) / SECONDS_PER_MINUTE) as u8,
        seconds: (secs % SECONDS_PER_MINUTE) as u8,
    }
}

/// Converts monotonic nanoseconds since boot into a 24 h time of day.
pub fn from_uptime_ns(ns: u64) -> (t: TimeOfDay)
    ensures
        t == time_of_day_spec(ns),
        t.hours < 24 && t.minutes < 60 && t.seconds < 60,
{
    let secs = (ns / NANOS_PER_SEC) % SECONDS_PER_DAY;
    TimeOfDay {
        hours: (secs / SECONDS_PER_HOUR) as u8,
        minutes: ((secs % SECONDS_PER_HOUR) / SECONDS_PER_MINUTE) as u8,
        seconds: (secs % SECONDS_PER_MINUTE) as u8,
    }
}

/// A clock reading the time of day off a monotonic time source.
pub struct UptimeClock<S> {
    pub source: S,
}

impl<S: TimeSource> UptimeClock<S> {
    pub fn new(source: S) -> (c: Self)
        ensures
            c.source == source,
    {
        UptimeClock { source }
    }
}

impl<S: TimeSource> Clock for UptimeClock<S> {
    /// The time of day of the source's current uptime reading.
    fn local_time(&self) -> (t: TimeOfDay)
        ensures
            exists|ns: u64| t == time_of_day_spec(ns),
            t.hours < 24 && t.minutes < 60 && t.seconds < 60,
    {
        let ns = self.source.uptime_ns();
        from_uptime_ns(ns)
    }
}

} // verus!
