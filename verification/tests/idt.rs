use ferric::idt::{gate, idt_ptr, IdtEntry, IdtPtr, GATE_TYPE_INTERRUPT};

#[test]
fn idt_entry_size() {
    assert_eq!(core::mem::size_of::<IdtEntry>(), 16);
}

#[test]
fn idt_ptr_size() {
    assert_eq!(core::mem::size_of::<IdtPtr>(), 10);
}

#[test]
fn gate_type_is_64bit_interrupt() {
    assert_eq!(GATE_TYPE_INTERRUPT, 0x8E);
}

#[test]
fn gate_splits_the_handler_address() {
    let e = gate(0xFFFF_8000_1234_5678, 0x08, 9);
    assert_eq!(e.offset_low16, 0x5678);
    assert_eq!(e.offset_mid16, 0x1234);
    assert_eq!(e.offset_high32, 0xFFFF_8000);
    assert_eq!(e.selector, 0x08);
    assert_eq!(e.ist, 1);
    assert_eq!(e.type_attr, 0x8E);
    assert_eq!(e.reserved, 0);
}

#[test]
fn idt_pointer_packs_limit_then_base() {
    let p = idt_ptr(0x0102_0304_0506_0708);
    assert_eq!(p.bytes, [0xFF, 0x0F, 0x08, 0x07, 0x06, 0x05, 0x04, 0x03, 0x02, 0x01]);
}
