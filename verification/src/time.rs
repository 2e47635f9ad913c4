//! Monotonic time: a hardware-tick counter bumped by the timer interrupt,
//! the tick-to-nanosecond conversion, and the invariant-TSC time source.
use vstd::prelude::*;

verus! {

pub const NANOS_PER_SEC: u64 = 1_000_000_000;

/// `ticks` of a `freq_hz` counter in nanoseconds, rounded down and
/// truncated to 64 bits.
pub open spec fn ticks_to_ns_spec(ticks: u64, freq_hz: u64) -> u64 {
    ((ticks as int) * (NANOS_PER_SEC as int) / (freq_hz as int)) as u64
}

/// Converts whole `ticks` of a `freq_hz` counter to nanoseconds, with a
/// 128-bit intermediate so no product overflows.
pub fn ticks_to_ns(ticks: u64, freq_hz: u64) -> (ns: u64)
    requires
        freq_hz != 0,
    ensures
        ns == ticks_to_ns_spec(ticks, freq_hz),
{
    assert((ticks as int) * (NANOS_PER_SEC as int) <= 0xffff_ffff_ffff_ffff * 1_000_000_000)
        by (nonlinear_arith)
        requires
            ticks <= 0xffff_ffff_ffff_ffff,
    ;
    ((ticks as u128) * (NANOS_PER_SEC as u128) / (freq_hz as u128)) as u64
}

/// The hardware-tick counter: bumped once per timer interrupt, wrapping.
#[derive(Clone, Copy, Debug, PartialEq, Eq, Structural)]
pub struct TickCounter {
    pub ticks: u64,
}

impl TickCounter {
    pub fn new() -> (c: Self)
        ensures
            c.ticks == 0,
    {
        TickCounter { ticks: 0 }
    }

    /// Records one hardware timer tick.
    pub fn bump_tick(&mut self)
        ensures
            final(self).ticks == (if old(self).ticks == u64::MAX {
                0
            } else {
                old(self).ticks + 1
            }),
    {
        self.ticks = self.ticks.wrapping_add(1);
    }

    /// Total ticks recorded so far.
    pub fn ticks(&self) -> (t: u64)
        ensures
            t == self.ticks,
    {
        self.ticks
    }
}

/// The invariant TSC as a time source: its frequency (0 until calibrated)
/// and its reading at boot.
#[derive(Clone, Copy, Debug, PartialEq, Eq, Structural)]
pub struct Tsc {
    pub freq: u64,
    pub boot_tsc: u64,
}

/// The time source the kernel reads.
#[derive(Clone, Copy, Debug, PartialEq, Eq, Structural)]
pub enum TimeSourceKind {
    /// The invariant TSC, once its frequency is known.
    Tsc,
    /// The PIT tick counter otherwise.
    Pit,
}

impl Tsc {
    /// An uncalibrated TSC.
    pub fn new() -> (t: Self)
        ensures
            t.freq == 0 && t.boot_tsc == 0,
    {
        Tsc { freq: 0, boot_tsc: 0 }
    }

    /// Adopts the loader-calibrated frequency, recording `now` as the boot
    /// reading; without a frequency the TSC stays unused.
    pub fn init_tsc(&mut self, freq_hz: Option<u64>, now: u64)
        ensures
            match freq_hz {
                Some(f) => final(self).freq == f && final(self).boot_tsc == now,
                None => *final(self) == *old(self),
            },
    {
        if let Some(f) = freq_hz {
            self.boot_tsc = now;
            self.freq = f;
        }
    }

    /// Counter ticks since boot at reading `now`, modulo 2^64.
    pub fn uptime_raw(&self, now: u64) -> (t: u64)
        ensures
            t == (if now >= self.boot_tsc {
                now - self.boot_tsc
            } else {
                now + (u64::MAX - self.boot_tsc) + 1
            }),
    {
        now.wrapping_sub(self.boot_tsc)
    }

    /// Nanoseconds since boot at reading `now`; 0 while uncalibrated.
    pub fn uptime_ns(&self, now: u64) -> (ns: u64)
        ensures
            self.freq == 0 ==> ns == 0,
            self.freq != 0 ==> ns == ticks_to_ns_spec(
                (if now >= self.boot_tsc {
                    now - self.boot_tsc
                } else {
                    now + (u64::MAX - self.boot_tsc) + 1
                }) as u64,
                self.freq,
            ),
    {
        let f = self.freq;
        if f == 0 {
            return 0;
        }
        ticks_to_ns(self.uptime_raw(now), f)
    }
}

/// The active time source: the TSC once calibrated, the PIT before.
pub fn time_source(tsc: &Tsc) -> (k: TimeSourceKind)
    ensures
        k == (if tsc.freq != 0 {
            TimeSourceKind::Tsc
        } else {
            TimeSourceKind::Pit
        }),
{
    if tsc.freq != 0 {
        TimeSourceKind::Tsc
    } else {
        TimeSourceKind::Pit
    }
}

} // verus!
