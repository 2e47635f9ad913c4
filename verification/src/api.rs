//! Arch-neutral data types and boundary traits shared by the console model,
//! the drivers and the monitor: colors, keys, time of day, memory regions.
use vstd::prelude::*;

verus! {

/// A destination for kernel text output, implemented per architecture.
/// Line endings arrive as bare `\n`; implementations translate for the device.
pub trait TextSink {
    fn write_str(&mut self, s: &str);
}

/// A monotonic clock measuring time since the kernel's uptime counter
/// started, in whole nanoseconds.
pub trait TimeSource {
    fn uptime_ns(&self) -> u64;
}

/// A source of local wall-clock time.
pub trait Clock {
    fn local_time(&self) -> TimeOfDay;
}

/// A pollable keyboard-like input device.
pub trait InputDevice {
    fn poll(&mut self) -> Option<KeyEvent>;
}

/// A sampler of the machine counters shown by the hardware monitor.
pub trait MonitorSource {
    fn sample(&self) -> MonitorSample;
}

/// An 8-bit-per-channel color, independent of a surface's pixel layout.
#[derive(Clone, Copy, Debug, PartialEq, Eq, Structural)]
pub struct Rgb {
    pub r: u8,
    pub g: u8,
    pub b: u8,
}

impl Rgb {
    pub fn new(r: u8, g: u8, b: u8) -> (c: Self)
        ensures
            c == (Rgb { r, g, b }),
    {
        Rgb { r, g, b }
    }
}

/// A logical key, independent of the device that produced it.
#[derive(Clone, Copy, Debug, PartialEq, Eq, Structural)]
pub enum Key {
    Char(char),
    Enter,
    Backspace,
    Tab,
    Escape,
    LeftShift,
    RightShift,
    LeftControl,
    RightControl,
    LeftAlt,
    RightAlt,
    CapsLock,
    F(u8),
    Home,
    End,
    PageUp,
    PageDown,
    Insert,
    Delete,
    Up,
    Down,
    Left,
    Right,
    Unknown(u8),
}

/// A key going down or coming back up.
#[derive(Clone, Copy, Debug, PartialEq, Eq, Structural)]
pub enum KeyEvent {
    Press(Key),
    Release(Key),
}

/// A broken-down 24 h time of day.
#[derive(Clone, Copy, Debug, PartialEq, Eq, Structural)]
pub struct TimeOfDay {
    pub hours: u8,
    pub minutes: u8,
    pub seconds: u8,
}

impl TimeOfDay {
    pub fn new(hours: u8, minutes: u8, seconds: u8) -> (t: Self)
        ensures
            t == (TimeOfDay { hours, minutes, seconds }),
    {
        TimeOfDay { hours, minutes, seconds }
    }
}

/// Most memory-map regions a monitor sample carries.
pub const MAX_MEMORY_REGIONS: usize = 64;

/// The loader's classification of a memory-map region.
#[derive(Clone, Copy, Debug, PartialEq, Eq, Structural)]
pub enum MemoryRegionKind {
    Usable,
    Reserved,
    AcpiReclaimable,
    AcpiNvs,
    BadMemory,
    BootloaderReclaimable,
    ExecutableAndModules,
    Framebuffer,
    ReservedMapped,
    Unknown(u64),
}

/// One physical memory range and its kind.
#[derive(Clone, Copy, Debug, PartialEq, Eq, Structural)]
pub struct MemoryRegion {
    pub base: u64,
    pub length: u64,
    pub kind: MemoryRegionKind,
}

/// The exclusive end address of a region, clamped at `u64::MAX`.
pub open spec fn region_end(base: u64, length: u64) -> u64 {
    if base + length > u64::MAX { u64::MAX } else { (base + length) as u64 }
}

impl MemoryRegion {
    pub fn new(base: u64, length: u64, kind: MemoryRegionKind) -> (r: Self)
        ensures
            r == (MemoryRegion { base, length, kind }),
    {
        MemoryRegion { base, length, kind }
    }

    /// Exclusive end address (`base + length`, saturating).
    pub fn end(&self) -> (e: u64)
        ensures
            e == region_end(self.base, self.length),
    {
        self.base.saturating_add(self.length)
    }
}

/// One reading of the machine counters plus the memory map.
#[derive(Clone, Copy, Debug)]
pub struct MonitorSample {
    pub uptime_ns: u64,
    pub total_ticks: u64,
    pub idle_ticks: u64,
    pub memory_regions: [MemoryRegion; MAX_MEMORY_REGIONS],
    pub memory_region_count: usize,
}

} // verus!
