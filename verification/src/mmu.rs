//! AArch64 stage-1 page-descriptor logic for extending the loader's live
//! higher-half tables with MMIO windows: table indices of an address, the
//! 2 MiB device-window block descriptor, and inserting it into a level-1
//! table under a valid top-level table entry.
use vstd::prelude::*;

verus! {

pub const ENTRIES: usize = 512;

pub const BLOCK_2MIB: u64 = 0x20_0000;

/// Stage-1 descriptor bits; block/page distinction is bit 1.
pub const VALID: u64 = 0x1;
pub const TABLE_OR_PAGE: u64 = 0x2;
pub const ATTR_IDX_WB: u64 = 0x0;
pub const AP_EL1_RW: u64 = 0x0;
pub const INNER_SHAREABLE: u64 = 0x300;
pub const ACCESSED: u64 = 0x400;
pub const UXN: u64 = 0x40_0000_0000_0000;

/// Output-address field shared by table, block and page descriptors.
pub const OUT_ADDR_MASK: u64 = 0x0000_FFFF_FFFF_F000;

/// Index of the level-0 entry covering `va`: bits 39..48.
pub fn l0_index(va: u64) -> (i: usize)
    ensures
        i == (va / 0x80_0000_0000) % 512,
        i < ENTRIES,
{
    assert(((va >> 39u64) & 0x1ff) == (va / 0x80_0000_0000) % 512) by (bit_vector);
    ((va >> 39) & 0x1ff) as usize
}

/// Index of the level-1 entry covering `va`: bits 30..38.
pub fn l1_index(va: u64) -> (i: usize)
    ensures
        i == (va / 0x4000_0000) % 512,
        i < ENTRIES,
{
    assert(((va >> 30u64) & 0x1ff) == (va / 0x4000_0000) % 512) by (bit_vector);
    ((va >> 30) & 0x1ff) as usize
}

/// The block descriptor for the 2 MiB window at `phys_base`.
pub open spec fn block_descriptor_spec(phys_base: u64) -> u64 {
    phys_base | VALID | ATTR_IDX_WB | AP_EL1_RW | INNER_SHAREABLE | ACCESSED | UXN
}

/// One 2 MiB block descriptor: EL1-only read/write, never executable,
/// normal write-back memory (attribute 0), inner-shareable, access flag
/// set.
pub fn block_descriptor_2m(phys_base: u64) -> (d: u64)
    requires
        phys_base % BLOCK_2MIB == 0,
    ensures
        d == block_descriptor_spec(phys_base),
        d & VALID == VALID,
        d & TABLE_OR_PAGE == 0,
        d & INNER_SHAREABLE == INNER_SHAREABLE,
        d & ACCESSED == ACCESSED,
        d & UXN == UXN,
        phys_base < 0x1_0000_0000_0000 ==> d & OUT_ADDR_MASK == phys_base,
{
    assert(phys_base % 0x20_0000 == 0 ==> {
        let d = phys_base | 1u64 | 0u64 | 0u64 | 0x300u64 | 0x400u64 | 0x40_0000_0000_0000u64;
        &&& d & 1 == 1
        &&& d & 2 == 0
        &&& d & 0x300 == 0x300
        &&& d & 0x400 == 0x400
        &&& d & 0x40_0000_0000_0000 == 0x40_0000_0000_0000
        &&& (phys_base < 0x1_0000_0000_0000 ==> d & 0x0000_FFFF_FFFF_F000 == phys_base)
    }) by (bit_vector);
    phys_base | VALID | ATTR_IDX_WB | AP_EL1_RW | INNER_SHAREABLE | ACCESSED | UXN
}

/// Why a 2 MiB block could not be inserted under an existing top-level
/// entry.
#[derive(Clone, Copy, Debug, PartialEq, Eq, Structural)]
pub enum InsertBlockError {
    /// The referenced top-level entry is not marked valid.
    TopInvalid,
    /// The referenced top-level entry points to a block, not a table.
    TopNotTable,
    /// The target level-1 slot already holds a descriptor.
    Occupied,
    /// The block base is not 2 MiB aligned.
    Misaligned,
}

/// What inserting the block at `phys_base` for `va` answers: the first
/// failed check among alignment, a valid top-level entry, a table-shaped
/// top-level entry and a free level-1 slot.
pub open spec fn insert_result(top: Seq<u64>, l1: Seq<u64>, va: u64, phys_base: u64) -> Result<
    (),
    InsertBlockError,
> {
    let t = top[((va / 0x80_0000_0000) % 512) as int];
    let s = l1[((va / 0x4000_0000) % 512) as int];
    if phys_base % BLOCK_2MIB != 0 {
        Err(InsertBlockError::Misaligned)
    } else if t % 2 == 0 {
        Err(InsertBlockError::TopInvalid)
    } else if (t / 2) % 2 == 0 {
        Err(InsertBlockError::TopNotTable)
    } else if s % 2 == 1 {
        Err(InsertBlockError::Occupied)
    } else {
        Ok(())
    }
}

/// Inserts [`block_descriptor_2m`]`(phys_base)` at the level-1 slot
/// covering `va`, validating but never changing the top-level table; `l1`
/// is the table the top-level entry points at.
pub fn insert_block_2m(top: &[u64; ENTRIES], l1: &mut [u64; ENTRIES], va: u64, phys_base: u64) -> (r:
    Result<(), InsertBlockError>)
    ensures
        r == insert_result(top@, old(l1)@, va, phys_base),
        r is Ok ==> final(l1)@ == old(l1)@.update(
            ((va / 0x4000_0000) % 512) as int,
            block_descriptor_spec(phys_base),
        ),
        r is Err ==> final(l1)@ == old(l1)@,
{
    if phys_base % BLOCK_2MIB != 0 {
        return Err(InsertBlockError::Misaligned);
    }
    let top_entry = top[l0_index(va)];
    assert((top_entry & 1) == top_entry % 2) by (bit_vector);
    assert((top_entry & 2) == 0 <==> (top_entry / 2) % 2 == 0) by (bit_vector);
    if top_entry & VALID == 0 {
        return Err(InsertBlockError::TopInvalid);
    }
    if top_entry & TABLE_OR_PAGE == 0 {
        return Err(InsertBlockError::TopNotTable);
    }
    let idx = l1_index(va);
    let slot = l1[idx];
    assert((slot & 1) == slot % 2) by (bit_vector);
    if slot & VALID != 0 {
        return Err(InsertBlockError::Occupied);
    }
    l1[idx] = block_descriptor_2m(phys_base);
    Ok(())
}

} // verus!
