use ferric::mmu::{
    block_descriptor_2m, insert_block_2m, l0_index, l1_index, InsertBlockError, ACCESSED, AP_EL1_RW, ATTR_IDX_WB,
    BLOCK_2MIB, ENTRIES, INNER_SHAREABLE, OUT_ADDR_MASK, TABLE_OR_PAGE, UXN, VALID,
};

#[test]
fn qemu_virt_uart_window_indices() {
    const VA: u64 = 0xffff_0000_0900_0000;
    assert_eq!(l0_index(VA), 0);
    assert_eq!(l1_index(VA), 0);
}

#[test]
fn pl011_base_is_2mib_aligned() {
    assert_eq!(ferric::pl011::UART0_BASE as u64 % BLOCK_2MIB, 0);
}

#[test]
fn block_descriptor_carries_el1_rw_wb_nonexec_bits() {
    let d = block_descriptor_2m(0x0900_0000);
    assert_eq!(d & VALID, VALID);
    assert_eq!(d & TABLE_OR_PAGE, 0);
    assert_eq!(d & ATTR_IDX_WB, 0);
    assert_eq!(d & AP_EL1_RW, 0);
    assert_eq!(d & INNER_SHAREABLE, INNER_SHAREABLE);
    assert_eq!(d & ACCESSED, ACCESSED);
    assert_eq!(d & UXN, UXN);
    assert_eq!(d & OUT_ADDR_MASK, 0x0900_0000);
}

#[test]
fn inserts_block_into_fresh_slot() {
    let mut top = [0u64; ENTRIES];
    let mut l1 = [0u64; ENTRIES];
    let va = 0xffff_0000_0900_0000;

    top[l0_index(va)] = 0x1234_5000 | VALID | TABLE_OR_PAGE;

    insert_block_2m(&top, &mut l1, va, 0x0900_0000).unwrap();
    assert_eq!(l1[l1_index(va)], block_descriptor_2m(0x0900_0000));
}

#[test]
fn refuses_to_touch_occupied_invalid_or_nontable_slots() {
    let va = 0xffff_0000_0900_0000;
    let idx = l1_index(va);

    let mut top = [0u64; ENTRIES];
    let mut l1 = [0u64; ENTRIES];
    top[l0_index(va)] = 0;
    assert_eq!(insert_block_2m(&top, &mut l1, va, 0x0900_0000), Err(InsertBlockError::TopInvalid));

    let mut top = [0u64; ENTRIES];
    let mut l1 = [0u64; ENTRIES];
    top[l0_index(va)] = 0x1234_5000 | VALID;
    assert_eq!(insert_block_2m(&top, &mut l1, va, 0x0900_0000), Err(InsertBlockError::TopNotTable));

    let mut top = [0u64; ENTRIES];
    let mut l1 = [0u64; ENTRIES];
    top[l0_index(va)] = 0x1234_5000 | VALID | TABLE_OR_PAGE;
    l1[idx] = block_descriptor_2m(0x0a00_0000);
    assert_eq!(insert_block_2m(&top, &mut l1, va, 0x0900_0000), Err(InsertBlockError::Occupied));
    assert_eq!(l1[idx], block_descriptor_2m(0x0a00_0000));

    let mut top = [0u64; ENTRIES];
    let mut l1 = [0u64; ENTRIES];
    top[l0_index(va)] = 0x1234_5000 | VALID | TABLE_OR_PAGE;
    assert_eq!(insert_block_2m(&top, &mut l1, va, 0x0910_0000), Err(InsertBlockError::Misaligned));
}

#[test]
fn indices_pick_the_va_bits_of_each_level() {
    assert_eq!(l0_index(0x0000_0080_0000_0000), 1);
    assert_eq!(l1_index(0x0000_0000_4000_0000), 1);
    assert_eq!(l0_index(0xffff_ff80_0000_0000), 511);
}
