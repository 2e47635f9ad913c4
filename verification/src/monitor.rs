//! Pure-logic hardware monitor: turns raw [`MonitorSample`]s into
//! display-ready values (uptime, per-interval deltas, a CPU-load proxy from
//! idle/tick deltas, and a memory-map summary), plus the text renderings the
//! monitor screen shows.
use vstd::prelude::*;
use crate::api::{MemoryRegion, MemoryRegionKind, MonitorSample, MAX_MEMORY_REGIONS, region_end};
use crate::chars::string_from_chars;
use crate::digits::{all_ascii, decimal_spec, fill_ascii, hex_spec, lemma_decimal_len, lemma_hex_len, lemma_u64_below_pow10_20, pow10, push_decimal, push_hex};

verus! {

pub const NANOS_PER_SEC: u64 = 1_000_000_000;
pub const KIB: u64 = 1024;
pub const MIB: u64 = 1024 * 1024;
pub const GIB: u64 = 1024 * 1024 * 1024;

/// A memory-map region flattened for display.
#[derive(Clone, Copy, Debug, PartialEq, Eq, Structural)]
pub struct RegionView {
    pub start: u64,
    pub end: u64,
    pub kind: MemoryRegionKind,
    pub size: u64,
}

/// Totals across the memory map, for the summary line.
#[derive(Clone, Copy, Debug, PartialEq, Eq, Structural)]
pub struct MemorySummary {
    pub usable_bytes: u64,
    pub reserved_bytes: u64,
    pub other_bytes: u64,
}

/// Display-ready values computed from one [`MonitorSample`] against the
/// previous one; the first sample reports all deltas as zero.
#[derive(Clone, Copy, Debug)]
pub struct DisplayInfo {
    pub uptime_seconds: u64,
    pub delta_seconds: u64,
    /// Busy-time share of the last interval, rounded to a whole percent.
    pub cpu_load_percent: u8,
    pub total_ticks: u64,
    pub delta_ticks: u64,
    pub delta_idle_ticks: u64,
    pub memory_summary: MemorySummary,
    pub regions: [RegionView; MAX_MEMORY_REGIONS],
    pub region_count: usize,
}

/// `a - b`, or zero when `b` exceeds `a`.
pub open spec fn sat_sub(a: u64, b: u64) -> u64 {
    if a >= b { (a - b) as u64 } else { 0 }
}

/// `a + b`, clamped at `u64::MAX`.
pub open spec fn sat_add(a: u64, b: u64) -> u64 {
    if a + b > u64::MAX { u64::MAX } else { (a + b) as u64 }
}

/// A memory region as the monitor shows it.
pub open spec fn region_view(r: MemoryRegion) -> RegionView {
    RegionView { start: r.base, end: region_end(r.base, r.length), kind: r.kind, size: r.length }
}

/// The filler of unused region slots.
pub open spec fn empty_view() -> RegionView {
    RegionView { start: 0, end: 0, kind: MemoryRegionKind::Unknown(0), size: 0 }
}

/// `sum` with region `r` added to its class: usable, reserved, or other.
pub open spec fn summary_add(sum: MemorySummary, r: MemoryRegion) -> MemorySummary {
    match r.kind {
        MemoryRegionKind::Usable => MemorySummary { usable_bytes: sat_add(sum.usable_bytes, r.length), ..sum },
        MemoryRegionKind::Reserved => MemorySummary { reserved_bytes: sat_add(sum.reserved_bytes, r.length), ..sum },
        _ => MemorySummary { other_bytes: sat_add(sum.other_bytes, r.length), ..sum },
    }
}

/// Saturating per-class byte totals of the first `n` regions.
pub open spec fn summary_spec(regions: Seq<MemoryRegion>, n: int) -> MemorySummary
    decreases n,
{
    if n <= 0 {
        MemorySummary { usable_bytes: 0, reserved_bytes: 0, other_bytes: 0 }
    } else {
        summary_add(summary_spec(regions, n - 1), regions[n - 1])
    }
}

/// Busy share of an interval of `delta_ticks` ticks of which
/// `delta_idle_ticks` were idle, rounded half up to a whole percent and
/// capped at 100; an empty interval counts as idle.
pub open spec fn cpu_load_spec(delta_ticks: u64, delta_idle_ticks: u64) -> u8 {
    if delta_ticks == 0 {
        0
    } else {
        let busy = sat_sub(delta_ticks, delta_idle_ticks) as int;
        let p = (busy * 100 + delta_ticks / 2) / (delta_ticks as int);
        if p > 100 { 100 } else { p as u8 }
    }
}

/// Busy-share of a tick interval, rounded to the nearest whole percent.
pub fn cpu_load_percent(delta_ticks: u64, delta_idle_ticks: u64) -> (p: u8)
    ensures
        p == cpu_load_spec(delta_ticks, delta_idle_ticks),
        p <= 100,
{
    if delta_ticks == 0 {
        return 0;
    }
    let busy = delta_ticks.saturating_sub(delta_idle_ticks);
    let percent = (busy as u128 * 100 + delta_ticks as u128 / 2) / delta_ticks as u128;
    if percent > 100 {
        100
    } else {
        percent as u8
    }
}

/// Stateful sampler-to-display converter; owns the previous sample so each
/// update can report what changed since the last one.
pub struct MonitorModel {
    previous: Option<MonitorSample>,
}

impl View for MonitorModel {
    type V = Option<MonitorSample>;

    closed spec fn view(&self) -> Option<MonitorSample> {
        self.previous
    }
}

/// What `update` reports for `sample` after `prev`: uptime in whole
/// seconds, saturating deltas against the previous sample (zero for the
/// first), the load share of the tick interval, the first
/// `min(count, MAX_MEMORY_REGIONS)` regions flattened (the remaining slots
/// empty) and their per-class totals.
pub open spec fn display_matches(prev: Option<MonitorSample>, sample: MonitorSample, info: DisplayInfo) -> bool {
    let (ds, dt, di) = match prev {
        Some(p) => (
            sat_sub(sample.uptime_ns, p.uptime_ns) / NANOS_PER_SEC,
            sat_sub(sample.total_ticks, p.total_ticks),
            sat_sub(sample.idle_ticks, p.idle_ticks),
        ),
        None => (0u64, 0u64, 0u64),
    };
    let rc = if sample.memory_region_count < MAX_MEMORY_REGIONS {
        sample.memory_region_count
    } else {
        MAX_MEMORY_REGIONS
    };
    &&& info.uptime_seconds == sample.uptime_ns / NANOS_PER_SEC
    &&& info.delta_seconds == ds
    &&& info.delta_ticks == dt
    &&& info.delta_idle_ticks == di
    &&& info.cpu_load_percent == cpu_load_spec(dt, di)
    &&& info.total_ticks == sample.total_ticks
    &&& info.region_count == rc
    &&& forall|i: int|
        0 <= i < MAX_MEMORY_REGIONS ==> #[trigger] info.regions@[i] == if i < rc {
            region_view(sample.memory_regions@[i])
        } else {
            empty_view()
        }
    &&& info.memory_summary == summary_spec(sample.memory_regions@, rc as int)
}

impl MonitorModel {
    pub fn new() -> (m: Self)
        ensures
            m@ is None,
    {
        MonitorModel { previous: None }
    }

    /// Computes display values for `sample`, then replaces the stored
    /// previous sample with it.
    pub fn update(&mut self, sample: MonitorSample) -> (info: DisplayInfo)
        ensures
            display_matches(old(self)@, sample, info),
            final(self)@ == Some(sample),
    {
        let info = self.compute(&sample);
        self.previous = Some(sample);
        info
    }

    fn compute(&self, sample: &MonitorSample) -> (info: DisplayInfo)
        ensures
            display_matches(self@, *sample, info),
    {
        let (delta_seconds, delta_ticks, delta_idle_ticks) = match &self.previous {
            Some(prev) => (
                sample.uptime_ns.saturating_sub(prev.uptime_ns) / NANOS_PER_SEC,
                sample.total_ticks.saturating_sub(prev.total_ticks),
                sample.idle_ticks.saturating_sub(prev.idle_ticks),
            ),
            None => (0, 0, 0),
        };
        let region_count = if sample.memory_region_count < MAX_MEMORY_REGIONS {
            sample.memory_region_count
        } else {
            MAX_MEMORY_REGIONS
        };
        let empty = RegionView { start: 0, end: 0, kind: MemoryRegionKind::Unknown(0), size: 0 };
        let mut regions = [empty; MAX_MEMORY_REGIONS];
        let mut summary = MemorySummary { usable_bytes: 0, reserved_bytes: 0, other_bytes: 0 };
        let mut i: usize = 0;
        while i < region_count
            invariant
                region_count <= MAX_MEMORY_REGIONS,
                i <= region_count,
                forall|j: int|
                    0 <= j < MAX_MEMORY_REGIONS ==> #[trigger] regions@[j] == if j < i {
                        region_view(sample.memory_regions@[j])
                    } else {
                        empty_view()
                    },
                summary == summary_spec(sample.memory_regions@, i as int),
            decreases region_count - i,
        {
            let region = sample.memory_regions[i];
            regions[i] = RegionView {
                start: region.base,
                end: region.end(),
                kind: region.kind,
                size: region.length,
            };
            match region.kind {
                MemoryRegionKind::Usable => {
                    summary.usable_bytes = summary.usable_bytes.saturating_add(region.length);
                },
                MemoryRegionKind::Reserved => {
                    summary.reserved_bytes = summary.reserved_bytes.saturating_add(region.length);
                },
                _ => {
                    summary.other_bytes = summary.other_bytes.saturating_add(region.length);
                },
            }
            i = i + 1;
        }
        DisplayInfo {
            uptime_seconds: sample.uptime_ns / NANOS_PER_SEC,
            delta_seconds,
            cpu_load_percent: cpu_load_percent(delta_ticks, delta_idle_ticks),
            total_ticks: sample.total_ticks,
            delta_ticks,
            delta_idle_ticks,
            memory_summary: summary,
            regions,
            region_count,
        }
    }
}

/// Short human name for a region kind, for display.
pub open spec fn kind_name_spec(kind: MemoryRegionKind) -> Seq<char> {
    match kind {
        MemoryRegionKind::Usable => "usable"@,
        MemoryRegionKind::Reserved => "reserved"@,
        MemoryRegionKind::AcpiReclaimable => "acpi-reclaim"@,
        MemoryRegionKind::AcpiNvs => "acpi-nvs"@,
        MemoryRegionKind::BadMemory => "bad"@,
        MemoryRegionKind::BootloaderReclaimable => "bootloader"@,
        MemoryRegionKind::ExecutableAndModules => "exec+modules"@,
        MemoryRegionKind::Framebuffer => "framebuffer"@,
        MemoryRegionKind::ReservedMapped => "reserved-mapped"@,
        MemoryRegionKind::Unknown(_) => "unknown"@,
    }
}

/// Short human name for a region kind, for display.
pub fn kind_name(kind: MemoryRegionKind) -> (s: &'static str)
    ensures
        s@ == kind_name_spec(kind),
{
    match kind {
        MemoryRegionKind::Usable => "usable",
        MemoryRegionKind::Reserved => "reserved",
        MemoryRegionKind::AcpiReclaimable => "acpi-reclaim",
        MemoryRegionKind::AcpiNvs => "acpi-nvs",
        MemoryRegionKind::BadMemory => "bad",
        MemoryRegionKind::BootloaderReclaimable => "bootloader",
        MemoryRegionKind::ExecutableAndModules => "exec+modules",
        MemoryRegionKind::Framebuffer => "framebuffer",
        MemoryRegionKind::ReservedMapped => "reserved-mapped",
        MemoryRegionKind::Unknown(_) => "unknown",
    }
}

pub const UPTIME_TEXT_LEN: usize = 32;
pub const SIZE_TEXT_LEN: usize = 24;
pub const ADDRESS_TEXT_LEN: usize = 18;

/// `n` in decimal, zero-padded to at least two digits.
pub open spec fn pad2_spec(n: nat) -> Seq<char> {
    if n < 10 {
        seq!['0'] + decimal_spec(n)
    } else {
        decimal_spec(n)
    }
}

/// `HH:MM:SS` for `t` seconds; hours print at least two digits.
pub open spec fn uptime_text(t: u64) -> Seq<char> {
    pad2_spec((t / 3600) as nat) + seq![':'] + pad2_spec(((t / 60) % 60) as nat) + seq![':']
        + pad2_spec((t % 60) as nat)
}

/// Human size: below 1 KiB the byte count and ` B`; otherwise the whole
/// number of the largest binary unit (KiB, MiB, GiB) not above it, a point,
/// the truncated tenths and the unit.
pub open spec fn size_text(bytes: u64) -> Seq<char> {
    if bytes < KIB {
        decimal_spec(bytes as nat) + seq![' ', 'B']
    } else {
        let (scale, label) = if bytes >= GIB {
            (GIB, seq!['G', 'i', 'B'])
        } else if bytes >= MIB {
            (MIB, seq!['M', 'i', 'B'])
        } else {
            (KIB, seq!['K', 'i', 'B'])
        };
        decimal_spec((bytes / scale) as nat) + seq!['.'] + decimal_spec(
            (((bytes % scale) * 10) / (scale as int)) as nat,
        ) + seq![' '] + label
    }
}

/// `0x` and the address as sixteen lower-case hex digits.
pub open spec fn address_text(addr: u64) -> Seq<char> {
    seq!['0', 'x'] + hex_spec(addr as nat, 16)
}

/// `after` holds `text` as ASCII bytes at its front, the rest of `before`
/// after it.
pub open spec fn buf_holds(after: Seq<u8>, before: Seq<u8>, text: Seq<char>) -> bool {
    &&& text.len() <= after.len()
    &&& after.len() == before.len()
    &&& forall|i: int| 0 <= i < text.len() ==> after[i] as u32 == text[i] as u32
    &&& forall|i: int| text.len() <= i < after.len() ==> after[i] == before[i]
}

fn push_pad2(out: &mut Vec<char>, n: u64)
    ensures
        final(out)@ == old(out)@ + pad2_spec(n as nat),
{
    if n < 10 {
        out.push('0');
    }
    push_decimal(out, n);
    assert(final(out)@ =~= old(out)@ + pad2_spec(n as nat));
}

proof fn lemma_pad2_len(n: nat, k: nat)
    requires
        k >= 2,
        n < pow10(k),
    ensures
        pad2_spec(n).len() <= k,
        all_ascii(pad2_spec(n)),
{
    lemma_decimal_len(n, k);
    if n < 10 {
        assert(decimal_spec(n).len() == 1);
        assert(pad2_spec(n) =~= seq!['0'] + decimal_spec(n));
        assert(forall|i: int| 0 < i < pad2_spec(n).len() ==> pad2_spec(n)[i] == decimal_spec(n)[i - 1]);
    }
}

/// `HH:MM:SS` for `total_seconds`; hours print at least two digits. The
/// text is also left as ASCII bytes at the front of `buf`.
pub fn format_uptime(total_seconds: u64, buf: &mut [u8; UPTIME_TEXT_LEN]) -> (s: String)
    ensures
        s@ == uptime_text(total_seconds),
        buf_holds(final(buf)@, old(buf)@, uptime_text(total_seconds)),
{
    let mut v: Vec<char> = Vec::new();
    push_pad2(&mut v, total_seconds / 3600);
    v.push(':');
    push_pad2(&mut v, (total_seconds / 60) % 60);
    v.push(':');
    push_pad2(&mut v, total_seconds % 60);
    proof {
        let t = total_seconds;
        assert(v@ =~= uptime_text(t));
        lemma_u64_below_pow10_20(t / 3600);
        lemma_pad2_len((t / 3600) as nat, 20);
        reveal_with_fuel(pow10, 3);
        lemma_pad2_len(((t / 60) % 60) as nat, 2);
        lemma_pad2_len((t % 60) as nat, 2);
        assert(all_ascii(uptime_text(t)));
    }
    fill_ascii(buf, &v);
    string_from_chars(v.as_slice())
}

/// Human size, e.g. `512 B`, `1.5 KiB`, `128.0 MiB`; one truncated decimal.
/// The text is also left as ASCII bytes at the front of `buf`.
pub fn format_size(bytes: u64, buf: &mut [u8; SIZE_TEXT_LEN]) -> (s: String)
    ensures
        s@ == size_text(bytes),
        buf_holds(final(buf)@, old(buf)@, size_text(bytes)),
{
    let mut v: Vec<char> = Vec::new();
    if bytes < KIB {
        push_decimal(&mut v, bytes);
        v.push(' ');
        v.push('B');
        proof {
            assert(v@ =~= size_text(bytes));
            reveal_with_fuel(pow10, 5);
            lemma_decimal_len(bytes as nat, 4);
        }
    } else {
        let scale = if bytes >= GIB {
            GIB
        } else if bytes >= MIB {
            MIB
        } else {
            KIB
        };
        let frac = (bytes % scale) * 10 / scale;
        push_decimal(&mut v, bytes / scale);
        v.push('.');
        push_decimal(&mut v, frac);
        v.push(' ');
        if bytes >= GIB {
            v.push('G');
        } else if bytes >= MIB {
            v.push('M');
        } else {
            v.push('K');
        }
        v.push('i');
        v.push('B');
        proof {
            assert(v@ =~= size_text(bytes));
            reveal_with_fuel(pow10, 18);
            assert(bytes / scale < pow10(17));
            lemma_decimal_len((bytes / scale) as nat, 17);
            assert(frac < 10) by (nonlinear_arith)
                requires
                    frac == (bytes % scale) * 10 / (scale as int),
                    bytes % scale < scale,
                    scale > 0,
            ;
            lemma_decimal_len(frac as nat, 1);
        }
    }
    fill_ascii(buf, &v);
    string_from_chars(v.as_slice())
}

/// `0x` + 16 lowercase hex digits. The text is also left as ASCII bytes at
/// the front of `buf`.
pub fn format_address(addr: u64, buf: &mut [u8; ADDRESS_TEXT_LEN]) -> (s: String)
    ensures
        s@ == address_text(addr),
        buf_holds(final(buf)@, old(buf)@, address_text(addr)),
{
    let mut v: Vec<char> = Vec::new();
    v.push('0');
    v.push('x');
    push_hex(&mut v, addr, 16);
    proof {
        assert(v@ =~= address_text(addr));
        lemma_hex_len(addr as nat, 16);
    }
    fill_ascii(buf, &v);
    string_from_chars(v.as_slice())
}

} // verus!
