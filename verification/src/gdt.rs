//! x86_64 GDT and TSS: flat-model kernel segment descriptors, the 16-byte
//! TSS descriptor, and the 104-byte TSS with its IST1 stack pointer.
//!
//! Descriptor bits follow the documented layout: limit 15:0 in bits 0-15,
//! base 23:0 in bits 16-39, access in bits 40-47, limit 19:16 and the flags
//! nibble in bits 48-55, base 31:24 in bits 56-63.
use vstd::prelude::*;

verus! {

/// Selector constants (index << 3 | RPL).
pub const KERNEL_CODE_SELECTOR: u16 = 0x08;
pub const KERNEL_DATA_SELECTOR: u16 = 0x10;
pub const TSS_SELECTOR: u16 = 0x18;

/// Slots of the GDT: null, kernel code, kernel data, and the TSS's two.
pub const GDT_LEN: usize = 5;

/// Size of the double-fault IST stack.
pub const IST_STACK_BYTES: usize = 4096;

/// Bytes of a 64-bit TSS.
pub const TSS_SIZE: usize = 104;

/// One 8-byte segment descriptor.
#[derive(Clone, Copy, Debug, PartialEq, Eq, Structural)]
pub struct GdtEntry(pub u64);

/// The 16-byte TSS descriptor, spanning two GDT slots.
#[derive(Clone, Copy, Debug, PartialEq, Eq, Structural)]
pub struct TssEntry {
    pub low: u64,
    pub high: u64,
}

/// The descriptor word for a segment: each field at its documented bits.
pub open spec fn gdt_entry_spec(base: u32, limit: u32, access: u8, flags: u8) -> u64 {
    ((limit % 0x10000) as int + (base % 0x1_0000) as int * 0x1_0000 + ((base / 0x1_0000) % 0x100)
        as int * 0x1_0000_0000 + access as int * 0x100_0000_0000 + ((limit / 0x1_0000) % 0x10) as int
        * 0x1_0000_0000_0000 + (flags % 0x10) as int * 0x10_0000_0000_0000 + (base / 0x100_0000)
        as int * 0x100_0000_0000_0000) as u64
}

/// A flat-model GDT entry: `limit` is the 20-bit segment limit, `access`
/// the P/DPL/S/type byte, `flags` the G, D/B, L, AVL nibble.
pub fn gdt_entry(base: u32, limit: u32, access: u8, flags: u8) -> (e: GdtEntry)
    ensures
        e.0 == gdt_entry_spec(base, limit, access, flags),
        (e.0 >> 40u64) & 0xFF == access as u64,
        (e.0 >> 52u64) & 0x0F == (flags % 16) as u64,
{
    let limit_lo = (limit & 0xFFFF) as u64;
    let base_lo = (base & 0xFFFF) as u64;
    let base_mid = ((base >> 16) & 0xFF) as u64;
    let access_u64 = access as u64;
    let limit_hi = ((limit >> 16) & 0x0F) as u64;
    let flags_u64 = (flags & 0x0F) as u64;
    let base_hi = ((base >> 24) & 0xFF) as u64;
    let word = limit_lo | (base_lo << 16) | (base_mid << 32) | (access_u64 << 40) | (limit_hi << 48)
        | (flags_u64 << 52) | (base_hi << 56);
    assert(word == gdt_entry_spec(base, limit, access, flags) && (word >> 40u64) & 0xFF
        == access as u64 && (word >> 52u64) & 0x0F == (flags % 16) as u64) by (bit_vector)
        requires
            limit_lo == (limit & 0xFFFF) as u64,
            base_lo == (base & 0xFFFF) as u64,
            base_mid == ((base >> 16u32) & 0xFF) as u64,
            access_u64 == access as u64,
            limit_hi == ((limit >> 16u32) & 0x0F) as u64,
            flags_u64 == (flags & 0x0F) as u64,
            base_hi == ((base >> 24u32) & 0xFF) as u64,
            word == limit_lo | (base_lo << 16u64) | (base_mid << 32u64) | (access_u64 << 40u64)
                | (limit_hi << 48u64) | (flags_u64 << 52u64) | (base_hi << 56u64),
    ;
    GdtEntry(word)
}

/// Kernel code segment: base 0, 4 GiB limit (G=1), L=1, access 0x9A.
pub fn kernel_code() -> (e: GdtEntry)
    ensures
        e.0 == gdt_entry_spec(0, 0xFFFFF, 0x9A, 0xA),
{
    gdt_entry(0, 0xFFFFF, 0x9A, 0xA)
}

/// Kernel data segment: base 0, 4 GiB limit (G=1), access 0x93.
pub fn kernel_data() -> (e: GdtEntry)
    ensures
        e.0 == gdt_entry_spec(0, 0xFFFFF, 0x93, 0xC),
{
    gdt_entry(0, 0xFFFFF, 0x93, 0xC)
}

/// The TSS descriptor for a TSS at `addr`: limit `TSS_SIZE - 1`, access
/// 0x89 (present, available 64-bit TSS), base bits at the documented
/// positions of the low word and base 63:32 in the high word.
pub open spec fn tss_descriptor_spec(addr: u64) -> TssEntry {
    TssEntry {
        low: ((TSS_SIZE - 1) as int + (addr % 0x1_0000) as int * 0x1_0000 + ((addr / 0x1_0000) % 0x100)
            as int * 0x1_0000_0000 + 0x89 * 0x100_0000_0000 + ((addr / 0x100_0000) % 0x100) as int
            * 0x100_0000_0000_0000) as u64,
        high: addr / 0x1_0000_0000,
    }
}

/// Constructs the TSS descriptor for a TSS at `addr`.
pub fn tss_descriptor(addr: u64) -> (d: TssEntry)
    ensures
        d == tss_descriptor_spec(addr),
        (d.low >> 40u64) & 0xFF == 0x89,
        (d.low >> 16u64) & 0xFFFF == addr % 0x1_0000,
        d.high == addr >> 32u64,
{
    let base_lo = addr & 0xFFFF;
    let base_mid = (addr >> 16) & 0xFF;
    let base_high = (addr >> 24) & 0xFF;
    let base_upper = (addr >> 32) & 0xFFFFFFFF;
    let limit = ((TSS_SIZE as u64) - 1) & 0xFFFF;
    assert(103u64 & 0xFFFF == 103) by (bit_vector);
    let access = 0x89u64;
    let low = limit | (base_lo << 16) | (base_mid << 32) | (access << 40) | (base_high << 56);
    assert(low == tss_descriptor_spec(addr).low && base_upper == addr / 0x1_0000_0000 && (low
        >> 40u64) & 0xFF == 0x89 && (low >> 16u64) & 0xFFFF == addr % 0x1_0000 && base_upper == addr
        >> 32u64) by (bit_vector)
        requires
            base_lo == addr & 0xFFFF,
            base_mid == (addr >> 16u64) & 0xFF,
            base_high == (addr >> 24u64) & 0xFF,
            base_upper == (addr >> 32u64) & 0xFFFFFFFF,
            limit == 103u64,
            access == 0x89u64,
            low == limit | (base_lo << 16u64) | (base_mid << 32u64) | (access << 40u64) | (base_high
                << 56u64),
    ;
    TssEntry { low, high: base_upper }
}

/// The GDT for a TSS at `tss_addr`: null, kernel code, kernel data, and the
/// TSS descriptor's two halves.
pub fn gdt_table(tss_addr: u64) -> (t: [GdtEntry; GDT_LEN])
    ensures
        t@ == seq![
            GdtEntry(gdt_entry_spec(0, 0, 0, 0)),
            GdtEntry(gdt_entry_spec(0, 0xFFFFF, 0x9A, 0xA)),
            GdtEntry(gdt_entry_spec(0, 0xFFFFF, 0x93, 0xC)),
            GdtEntry(tss_descriptor_spec(tss_addr).low),
            GdtEntry(tss_descriptor_spec(tss_addr).high),
        ],
{
    let tss = tss_descriptor(tss_addr);
    let t = [gdt_entry(0, 0, 0, 0), kernel_code(), kernel_data(), GdtEntry(tss.low), GdtEntry(tss.high)];
    assert(t@ =~= seq![
        GdtEntry(gdt_entry_spec(0, 0, 0, 0)),
        GdtEntry(gdt_entry_spec(0, 0xFFFFF, 0x9A, 0xA)),
        GdtEntry(gdt_entry_spec(0, 0xFFFFF, 0x93, 0xC)),
        GdtEntry(tss_descriptor_spec(tss_addr).low),
        GdtEntry(tss_descriptor_spec(tss_addr).high),
    ]);
    t
}

/// The `lgdt` limit: the last byte offset of the table.
pub fn gdt_limit() -> (l: u16)
    ensures
        l == 8 * GDT_LEN - 1,
{
    (8 * GDT_LEN - 1) as u16
}

/// The 64-bit Task State Segment as its 104 bytes; only `rsp0` and `ist1`
/// are ever set, the rest stays zero.
pub struct Tss {
    pub bytes: [u8; TSS_SIZE],
}

/// The little-endian bytes of `v` at `at..at + n` in `bytes`.
pub open spec fn holds_le(bytes: Seq<u8>, at: int, n: int, v: int) -> bool {
    forall|i: int| 0 <= i < n ==> #[trigger] bytes[at + i] == ((v / vstd::arithmetic::power2::pow2((8 * i) as nat) as int) % 256) as u8
}

impl Tss {
    /// A zeroed TSS whose length and I/O-bitmap offset fields both hold
    /// [`TSS_SIZE`] (no I/O bitmap).
    pub fn new() -> (t: Self)
        ensures
            t.bytes@.len() == TSS_SIZE,
            t.bytes@[0] == 104 && t.bytes@[1] == 0,
            t.bytes@[102] == 104 && t.bytes@[103] == 0,
            forall|i: int| 2 <= i < 102 ==> #[trigger] t.bytes@[i] == 0,
    {
        let mut bytes = [0u8; TSS_SIZE];
        bytes[0] = TSS_SIZE as u8;
        bytes[102] = TSS_SIZE as u8;
        Tss { bytes }
    }

    /// Writes the IST1 stack pointer `addr` little-endian at bytes 36..44,
    /// leaving every other byte as it was.
    pub fn write_ist1(&mut self, addr: u64)
        ensures
            holds_le(final(self).bytes@, 36, 8, addr as int),
            forall|i: int|
                0 <= i < TSS_SIZE && !(36 <= i < 44) ==> #[trigger] final(self).bytes@[i] == old(
                    self,
                ).bytes@[i],
    {
        let mut rest = addr;
        let mut k: usize = 0;
        proof {
            vstd::arithmetic::power2::lemma2_to64();
            assert(addr as int / vstd::arithmetic::power2::pow2(0) as int == addr as int);
        }
        while k < 8
            invariant
                0 <= k <= 8,
                self.bytes@.len() == TSS_SIZE,
                rest as int == addr as int / vstd::arithmetic::power2::pow2((8 * k) as nat) as int,
                holds_le(self.bytes@, 36, k as int, addr as int),
                forall|i: int|
                    0 <= i < TSS_SIZE && !(36 <= i < 36 + k) ==> #[trigger] self.bytes@[i] == old(
                        self,
                    ).bytes@[i],
                vstd::arithmetic::power2::pow2(8) == 256,
            decreases 8 - k,
        {
            self.bytes[36 + k] = (rest % 256) as u8;
            proof {
                vstd::arithmetic::power2::lemma_pow2_adds((8 * k) as nat, 8);
                vstd::arithmetic::power2::lemma_pow2_pos((8 * k) as nat);
                vstd::arithmetic::div_mod::lemma_div_denominator(
                    addr as int,
                    vstd::arithmetic::power2::pow2((8 * k) as nat) as int,
                    256,
                );
                assert((8 * k + 8) as nat == (8 * (k + 1)) as nat);
            }
            rest = rest / 256;
            k = k + 1;
        }
    }
}

} // verus!
