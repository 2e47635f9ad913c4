use ferric::gdt::{
    gdt_entry, gdt_limit, gdt_table, kernel_code, tss_descriptor, GdtEntry, Tss, TssEntry, KERNEL_CODE_SELECTOR,
    KERNEL_DATA_SELECTOR, TSS_SELECTOR,
};

#[test]
fn gdt_entry_size() {
    assert_eq!(core::mem::size_of::<GdtEntry>(), 8);
}

#[test]
fn tss_entry_size() {
    assert_eq!(core::mem::size_of::<TssEntry>(), 16);
}

#[test]
fn tss_size() {
    assert_eq!(core::mem::size_of::<Tss>(), 104);
}

#[test]
fn kernel_code_access_byte() {
    let entry = gdt_entry(0, 0xFFFFF, 0x9A, 0xA);
    let access = (entry.0 >> 40) & 0xFF;
    assert_eq!(access, 0x9A);
}

#[test]
fn kernel_data_access_byte() {
    let entry = gdt_entry(0, 0xFFFFF, 0x92, 0xC);
    let access = (entry.0 >> 40) & 0xFF;
    assert_eq!(access, 0x92);
}

#[test]
fn kernel_code_flags_l_bit_set() {
    let entry = gdt_entry(0, 0xFFFFF, 0x9A, 0xA);
    let flags = (entry.0 >> 52) & 0x0F;
    assert_eq!(flags, 0xA);
}

#[test]
fn tss_access_byte() {
    let addr = 0x1000u64;
    let desc = tss_descriptor(addr);
    let access = (desc.low >> 40) & 0xFF;
    assert_eq!(access, 0x89);
}

#[test]
fn selector_constants_match_gdt_layout() {
    assert_eq!(KERNEL_CODE_SELECTOR, 1 << 3);
    assert_eq!(KERNEL_DATA_SELECTOR, 2 << 3);
    assert_eq!(TSS_SELECTOR, 3 << 3);
}

#[test]
fn flat_code_descriptor_has_the_canonical_encoding() {
    assert_eq!(kernel_code().0, 0x00AF_9A00_0000_FFFF);
    assert_eq!(gdt_entry(0, 0, 0, 0).0, 0);
}

#[test]
fn tss_descriptor_spreads_the_base_over_both_words() {
    let desc = tss_descriptor(0x0000_0001_2345_6789);
    assert_eq!(desc.low & 0xFFFF, 103);
    assert_eq!((desc.low >> 16) & 0xFFFF, 0x6789);
    assert_eq!((desc.low >> 32) & 0xFF, 0x45);
    assert_eq!((desc.low >> 56) & 0xFF, 0x23);
    assert_eq!(desc.high, 0x0000_0001);
}

#[test]
fn table_holds_null_code_data_and_tss_halves() {
    let t = gdt_table(0x1000);
    assert_eq!(t[0].0, 0);
    assert_eq!(t[1], kernel_code());
    assert_eq!(t[3].0, tss_descriptor(0x1000).low);
    assert_eq!(t[4].0, 0);
    assert_eq!(gdt_limit(), 39);
}

#[test]
fn tss_records_its_size_and_ist1() {
    let mut tss = Tss::new();
    assert_eq!(tss.bytes[0], 104);
    assert_eq!(tss.bytes[102], 104);
    tss.write_ist1(0x1122_3344_5566_7788);
    assert_eq!(&tss.bytes[36..44], &[0x88, 0x77, 0x66, 0x55, 0x44, 0x33, 0x22, 0x11]);
    assert_eq!(tss.bytes[35], 0);
    assert_eq!(tss.bytes[44], 0);
}
