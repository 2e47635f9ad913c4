//! Typed handles to x86_64 I/O ports.
use vstd::prelude::*;
use core::marker::PhantomData;

verus! {

/// Handle to one I/O port of register width `T`.
pub struct Port<T> {
    addr: u16,
    width: PhantomData<T>,
}

impl<T> Port<T> {
    pub closed spec fn spec_addr(&self) -> u16 {
        self.addr
    }

    pub fn new(addr: u16) -> (p: Self)
        ensures
            p.spec_addr() == addr,
    {
        Port { addr, width: PhantomData }
    }

    pub fn addr(&self) -> (a: u16)
        ensures
            a == self.spec_addr(),
    {
        self.addr
    }
}

/// One byte written to an I/O port, optionally followed by the legacy I/O
/// recovery delay.
#[derive(Clone, Copy, Debug, PartialEq, Eq, Structural)]
pub struct PortWrite {
    pub port: u16,
    pub value: u8,
    pub io_wait: bool,
}

/// One 32-bit write to a memory-mapped device register, at `offset` bytes
/// from the device's base.
#[derive(Clone, Copy, Debug, PartialEq, Eq, Structural)]
pub struct RegWrite {
    pub offset: usize,
    pub value: u32,
}

} // verus!
