//! x86_64 Interrupt Descriptor Table: 16-byte interrupt gates for the CPU
//! exception vectors, and the 10-byte IDT register image.
use vstd::prelude::*;

verus! {

/// Entries in the IDT.
pub const IDT_ENTRIES: usize = 256;

/// 64-bit interrupt gate: P=1, DPL=0, type 0xE.
pub const GATE_TYPE_INTERRUPT: u8 = 0x8E;

/// The exception vectors given gates: those without an error code, then
/// those with one.
pub const EXCEPTION_VECTORS: [u8; 15] = [0, 1, 2, 3, 4, 5, 6, 7, 9, 16, 18, 20, 30, 13, 14];

/// One interrupt gate.
#[derive(Clone, Copy, Debug, PartialEq, Eq, Structural)]
pub struct IdtEntry {
    pub offset_low16: u16,
    pub selector: u16,
    pub ist: u8,
    pub type_attr: u8,
    pub offset_mid16: u16,
    pub offset_high32: u32,
    pub reserved: u32,
}

/// The interrupt gate for `handler`, entered with segment selector
/// `selector` on IST slot `ist` (0: none); the handler address is split
/// into its low 16, middle 16 and high 32 bits.
pub open spec fn gate_spec(handler: u64, selector: u16, ist: u8) -> IdtEntry {
    IdtEntry {
        offset_low16: (handler % 0x1_0000) as u16,
        selector,
        ist: ist % 8,
        type_attr: GATE_TYPE_INTERRUPT,
        offset_mid16: ((handler / 0x1_0000) % 0x1_0000) as u16,
        offset_high32: (handler / 0x1_0000_0000) as u32,
        reserved: 0,
    }
}

/// An interrupt gate to `handler`.
pub fn gate(handler: u64, selector: u16, ist: u8) -> (e: IdtEntry)
    ensures
        e == gate_spec(handler, selector, ist),
{
    assert(handler as u16 == handler % 0x1_0000 && (handler >> 16u64) as u16 == (handler / 0x1_0000)
        % 0x1_0000 && (handler >> 32u64) as u32 == handler / 0x1_0000_0000) by (bit_vector);
    assert((ist & 0x07) == ist % 8) by (bit_vector);
    IdtEntry {
        offset_low16: handler as u16,
        selector,
        ist: ist & 0x07,
        type_attr: GATE_TYPE_INTERRUPT,
        offset_mid16: (handler >> 16) as u16,
        offset_high32: (handler >> 32) as u32,
        reserved: 0,
    }
}

/// The IDT register image: the 16-bit limit, then the 64-bit base, packed
/// little-endian in 10 bytes.
#[derive(Clone, Copy, Debug, PartialEq, Eq)]
pub struct IdtPtr {
    pub bytes: [u8; 10],
}

/// The `lidt` image for a full table at `base`.
pub fn idt_ptr(base: u64) -> (p: IdtPtr)
    ensures
        p.bytes@[0] == 0xFF && p.bytes@[1] == 0x0F,
        forall|i: int|
            0 <= i < 8 ==> #[trigger] p.bytes@[2 + i] == ((base as int / vstd::arithmetic::power2::pow2(
                (8 * i) as nat,
            ) as int) % 256) as u8,
{
    let limit: u16 = (16 * IDT_ENTRIES - 1) as u16;
    let mut bytes = [0u8; 10];
    bytes[0] = (limit % 256) as u8;
    bytes[1] = (limit / 256) as u8;
    let mut rest = base;
    let mut k: usize = 0;
    proof {
        vstd::arithmetic::power2::lemma2_to64();
        assert(base as int / vstd::arithmetic::power2::pow2(0) as int == base as int);
    }
    while k < 8
        invariant
            0 <= k <= 8,
            bytes@.len() == 10,
            bytes@[0] == 0xFF && bytes@[1] == 0x0F,
            rest as int == base as int / vstd::arithmetic::power2::pow2((8 * k) as nat) as int,
            forall|i: int|
                0 <= i < k ==> #[trigger] bytes@[2 + i] == ((base as int
                    / vstd::arithmetic::power2::pow2((8 * i) as nat) as int) % 256) as u8,
            vstd::arithmetic::power2::pow2(8) == 256,
        decreases 8 - k,
    {
        bytes[2 + k] = (rest % 256) as u8;
        proof {
            vstd::arithmetic::power2::lemma_pow2_adds((8 * k) as nat, 8);
            vstd::arithmetic::power2::lemma_pow2_pos((8 * k) as nat);
            vstd::arithmetic::div_mod::lemma_div_denominator(
                base as int,
                vstd::arithmetic::power2::pow2((8 * k) as nat) as int,
                256,
            );
            assert((8 * k + 8) as nat == (8 * (k + 1)) as nat);
        }
        rest = rest / 256;
        k = k + 1;
    }
    IdtPtr { bytes }
}

} // verus!
