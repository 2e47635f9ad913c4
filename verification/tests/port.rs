use core::mem::{align_of, size_of};
use ferric::port::Port;

#[test]
fn handles_are_register_sized() {
    assert_eq!(size_of::<Port<u8>>(), 2);
    assert_eq!(size_of::<Port<u16>>(), 2);
    assert_eq!(size_of::<Port<u32>>(), 2);
    assert_eq!(align_of::<Port<u8>>(), 2);
    assert_eq!(align_of::<Port<u32>>(), 2);
}

#[test]
fn new_stores_the_port_address() {
    assert_eq!(Port::<u8>::new(0x3f8).addr(), 0x3f8);
    assert_eq!(Port::<u16>::new(0x0cf8).addr(), 0x0cf8);
}
