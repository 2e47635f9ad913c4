//! The live hardware monitor around [`MonitorModel`]: a sample built from the
//! loader's memory map and the tick counters, the decision of when the
//! display must be refreshed, and the texts each refresh shows.
use vstd::prelude::*;
use crate::api::{MemoryRegion, MemoryRegionKind, MonitorSample, MAX_MEMORY_REGIONS};
use crate::chars::string_from_chars;
use crate::digits::{decimal_spec, hex_spec, push_decimal, push_hex};
use crate::limine::{region_kind_spec, MemmapEntry};
use crate::monitor::{
    address_text, display_matches, format_size, format_uptime, kind_name, kind_name_spec, size_text,
    uptime_text, DisplayInfo, MonitorModel, RegionView, SIZE_TEXT_LEN, UPTIME_TEXT_LEN,
};

verus! {

/// How many memory-map rows the monitor shows at once.
pub const VISIBLE_REGIONS: usize = 16;

/// The region a memory-map entry describes.
pub open spec fn entry_region(e: MemmapEntry) -> MemoryRegion {
    MemoryRegion { base: e.base, length: e.length, kind: region_kind_spec(e.entry_type) }
}

/// The monitor's sampler over the loader's memory map and the tick
/// counters, identical on both architectures.
pub struct ArchMonitor;

impl ArchMonitor {
/// Samples the monitor's counters: the first [`MAX_MEMORY_REGIONS`]
/// memory-map entries as regions (none without a memory map), with the
/// uptime and tick counts read at the same moment.
pub fn sample(
    &self,
    entries: Option<&[MemmapEntry]>,
    uptime_ns: u64,
    total_ticks: u64,
    idle_ticks: u64,
) -> (s: MonitorSample)
    ensures
        s.uptime_ns == uptime_ns,
        s.total_ticks == total_ticks,
        s.idle_ticks == idle_ticks,
        s.memory_region_count == match entries {
            Some(e) => if e@.len() < MAX_MEMORY_REGIONS {
                e@.len() as usize
            } else {
                MAX_MEMORY_REGIONS
            },
            None => 0,
        },
        forall|i: int|
            0 <= i < MAX_MEMORY_REGIONS ==> #[trigger] s.memory_regions@[i] == match entries {
                Some(e) => if i < s.memory_region_count {
                    entry_region(e@[i])
                } else {
                    MemoryRegion { base: 0, length: 0, kind: MemoryRegionKind::Unknown(0) }
                },
                None => MemoryRegion { base: 0, length: 0, kind: MemoryRegionKind::Unknown(0) },
            },
{
    let blank = MemoryRegion::new(0, 0, MemoryRegionKind::Unknown(0));
    let mut regions = [blank; MAX_MEMORY_REGIONS];
    let count = match entries {
        Some(entries) => {
            let count = if entries.len() < MAX_MEMORY_REGIONS {
                entries.len()
            } else {
                MAX_MEMORY_REGIONS
            };
            let mut i: usize = 0;
            while i < count
                invariant
                    count <= MAX_MEMORY_REGIONS,
                    count <= entries@.len(),
                    0 <= i <= count,
                    forall|j: int|
                        0 <= j < MAX_MEMORY_REGIONS ==> #[trigger] regions@[j] == if j < i {
                            entry_region(entries@[j])
                        } else {
                            blank
                        },
                decreases count - i,
            {
                regions[i] = entries[i].to_region();
                i = i + 1;
            }
            count
        },
        None => 0,
    };
    MonitorSample {
        uptime_ns,
        total_ticks,
        idle_ticks,
        memory_regions: regions,
        memory_region_count: count,
    }
}
}

/// The monitor loop's state: the model and the uptime second last shown.
pub struct MonitorLoop {
    pub model: MonitorModel,
    /// `u64::MAX` before the first refresh, so the first sample always shows.
    pub last_second: u64,
}

impl MonitorLoop {
    pub fn new() -> (m: Self)
        ensures
            m.model@ is None,
            m.last_second == u64::MAX,
    {
        MonitorLoop { model: MonitorModel::new(), last_second: u64::MAX }
    }

    /// Feeds one sample to the model; the display values when the whole
    /// uptime second advanced since the last refresh, `None` otherwise.
    pub fn step(&mut self, sample: MonitorSample) -> (refresh: Option<DisplayInfo>)
        ensures
            final(self).model@ == Some(sample),
            final(self).last_second == sample.uptime_ns / 1_000_000_000,
            match refresh {
                Some(info) => display_matches(old(self).model@, sample, info)
                    && info.uptime_seconds != old(self).last_second,
                None => sample.uptime_ns / 1_000_000_000 == old(self).last_second,
            },
    {
        let info = self.model.update(sample);
        if info.uptime_seconds != self.last_second {
            self.last_second = info.uptime_seconds;
            Some(info)
        } else {
            None
        }
    }
}

/// A region row: its kind's name, `start..end` in hex, its size.
pub open spec fn region_row(r: RegionView) -> (Seq<char>, Seq<char>, Seq<char>) {
    (kind_name_spec(r.kind), address_text(r.start) + seq!['.', '.'] + address_text(r.end), size_text(r.size))
}

/// Formats one region row: kind name, `start..end` range, human size.
pub fn region_texts(region: &RegionView) -> (t: (String, String, String))
    ensures
        (t.0@, t.1@, t.2@) == region_row(*region),
{
    let kind = kind_name(region.kind).to_string();
    let mut range: Vec<char> = Vec::new();
    range.push('0');
    range.push('x');
    push_hex(&mut range, region.start, 16);
    range.push('.');
    range.push('.');
    range.push('0');
    range.push('x');
    push_hex(&mut range, region.end, 16);
    assert(range@ =~= address_text(region.start) + seq!['.', '.'] + address_text(region.end));
    let mut size_buf = [0u8; SIZE_TEXT_LEN];
    let size = format_size(region.size, &mut size_buf);
    (kind, string_from_chars(range.as_slice()), size)
}

/// Every text the monitor shows for one refresh.
pub struct MonitorTexts {
    pub uptime: String,
    pub cpu: String,
    pub arch: String,
    pub region_count: String,
    pub total_usable: String,
    pub total_reserved: String,
    pub total_other: String,
    pub region_kinds: Vec<String>,
    pub region_ranges: Vec<String>,
    pub region_sizes: Vec<String>,
}

/// Row `i` of the region table: the region's texts while it is one of the
/// reported regions, an empty row with a `-` size past them.
pub open spec fn row_texts(info: DisplayInfo, i: int) -> (Seq<char>, Seq<char>, Seq<char>) {
    if i < info.region_count {
        region_row(info.regions@[i])
    } else {
        (Seq::empty(), Seq::empty(), seq!['-'])
    }
}

/// The texts for one refresh of `info` on architecture `arch`.
pub fn monitor_texts(info: &DisplayInfo, arch: &str) -> (t: MonitorTexts)
    ensures
        t.uptime@ == uptime_text(info.uptime_seconds),
        t.cpu@ == decimal_spec(info.cpu_load_percent as nat) + seq!['%'],
        t.arch@ == arch@,
        t.region_count@ == decimal_spec(info.region_count as nat) + seq![
            ' ',
            'r',
            'e',
            'g',
            'i',
            'o',
            'n',
            's',
        ],
        t.total_usable@ == size_text(info.memory_summary.usable_bytes),
        t.total_reserved@ == size_text(info.memory_summary.reserved_bytes),
        t.total_other@ == size_text(info.memory_summary.other_bytes),
        t.region_kinds@.len() == VISIBLE_REGIONS,
        t.region_ranges@.len() == VISIBLE_REGIONS,
        t.region_sizes@.len() == VISIBLE_REGIONS,
        forall|i: int|
            0 <= i < VISIBLE_REGIONS ==> (t.region_kinds@[i]@, t.region_ranges@[i]@,
            t.region_sizes@[i]@) == #[trigger] row_texts(*info, i),
{
    let mut uptime_buf = [0u8; UPTIME_TEXT_LEN];
    let uptime = format_uptime(info.uptime_seconds, &mut uptime_buf);
    let mut cpu: Vec<char> = Vec::new();
    push_decimal(&mut cpu, info.cpu_load_percent as u64);
    cpu.push('%');
    let mut count: Vec<char> = Vec::new();
    push_decimal(&mut count, info.region_count as u64);
    count.push(' ');
    count.push('r');
    count.push('e');
    count.push('g');
    count.push('i');
    count.push('o');
    count.push('n');
    count.push('s');
    let mut size_buf = [0u8; SIZE_TEXT_LEN];
    let total_usable = format_size(info.memory_summary.usable_bytes, &mut size_buf);
    let total_reserved = format_size(info.memory_summary.reserved_bytes, &mut size_buf);
    let total_other = format_size(info.memory_summary.other_bytes, &mut size_buf);
    let mut kinds: Vec<String> = Vec::new();
    let mut ranges: Vec<String> = Vec::new();
    let mut sizes: Vec<String> = Vec::new();
    let mut index: usize = 0;
    while index < VISIBLE_REGIONS
        invariant
            0 <= index <= VISIBLE_REGIONS,
            kinds@.len() == index,
            ranges@.len() == index,
            sizes@.len() == index,
            forall|i: int|
                0 <= i < index ==> (kinds@[i]@, ranges@[i]@, sizes@[i]@) == #[trigger] row_texts(
                    *info,
                    i,
                ),
        decreases VISIBLE_REGIONS - index,
    {
        if index < info.region_count {
            let (kind, range, size) = region_texts(&info.regions[index]);
            kinds.push(kind);
            ranges.push(range);
            sizes.push(size);
        } else {
            kinds.push(String::new());
            ranges.push(String::new());
            sizes.push("-".to_string());
            proof {
                reveal_strlit("-");
            }
        }
        assert((kinds@[index as int]@, ranges@[index as int]@, sizes@[index as int]@) == row_texts(
            *info,
            index as int,
        ));
        index = index + 1;
    }
    proof {
        assert(cpu@ =~= decimal_spec(info.cpu_load_percent as nat) + seq!['%']);
        assert(count@ =~= decimal_spec(info.region_count as nat) + seq![
            ' ',
            'r',
            'e',
            'g',
            'i',
            'o',
            'n',
            's',
        ]);
    }
    MonitorTexts {
        uptime,
        cpu: string_from_chars(cpu.as_slice()),
        arch: arch.to_string(),
        region_count: string_from_chars(count.as_slice()),
        total_usable,
        total_reserved,
        total_other,
        region_kinds: kinds,
        region_ranges: ranges,
        region_sizes: sizes,
    }
}

} // verus!
