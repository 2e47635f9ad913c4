//! x86_64 PS/2 keyboard: the 8042 controller's ports and status bit, and a
//! keyboard that feeds the controller's bytes to a scancode-set-1 decoder.
use vstd::prelude::*;
use crate::api::KeyEvent;
use crate::port::Port;
use crate::scancodes::{idle_state, push_spec, DecoderState, ScancodeDecoder};

verus! {

/// 8042 data port: a read delivers the next output byte.
pub const DATA_PORT: u16 = 0x60;

/// 8042 status port: bit 0 signals the output buffer is full.
pub const STATUS_PORT: u16 = 0x64;

/// Status bit 0: controller output buffer full.
pub const STATUS_OUTPUT_FULL: u8 = 1;

/// The 8042 controller's two ports.
pub struct Ps2 {
    pub data: Port<u8>,
    pub status: Port<u8>,
}

impl Ps2 {
    /// Port handles over the controller's two I/O addresses.
    pub fn new() -> (p: Self)
        ensures
            p.data.spec_addr() == DATA_PORT,
            p.status.spec_addr() == STATUS_PORT,
    {
        Ps2 { data: Port::new(DATA_PORT), status: Port::new(STATUS_PORT) }
    }

    /// True when status byte `status` says the keyboard is holding a
    /// scancode for the CPU.
    pub fn output_full(&self, status: u8) -> (full: bool)
        ensures
            full == (status % 2 == 1),
    {
        assert((status & 1) == status % 2) by (bit_vector);
        status & STATUS_OUTPUT_FULL != 0
    }
}

/// Feeding `bytes` in order to a decoder in state `s` until one completes
/// an event: the decoder's state after, the event, and the bytes used.
pub open spec fn drain_spec(s: DecoderState, bytes: Seq<u8>) -> (DecoderState, Option<KeyEvent>, nat)
    decreases bytes.len(),
{
    if bytes.len() == 0 {
        (s, None, 0)
    } else {
        let (s1, e) = push_spec(s, bytes[0]);
        if e is Some {
            (s1, e, 1)
        } else {
            let d = drain_spec(s1, bytes.skip(1));
            (d.0, d.1, d.2 + 1)
        }
    }
}

/// A polling keyboard: the 8042 controller and a streaming set-1 decoder.
pub struct Ps2Keyboard {
    pub controller: Ps2,
    pub decoder: ScancodeDecoder,
}

impl Ps2Keyboard {
    /// A keyboard whose decoder starts idle.
    pub fn new() -> (k: Self)
        ensures
            k.decoder@ == idle_state(),
    {
        Ps2Keyboard { controller: Ps2::new(), decoder: ScancodeDecoder::new() }
    }

    /// Feeds the bytes the controller holds, in order, until one completes
    /// a key event: that event and how many bytes were consumed; no event
    /// and every byte consumed when none completes one.
    pub fn next_key(&mut self, bytes: &[u8]) -> (r: (Option<KeyEvent>, usize))
        ensures
            (final(self).decoder@, r.0, r.1 as nat) == drain_spec(old(self).decoder@, bytes@),
    {
        let mut i: usize = 0;
        assert(bytes@.skip(0) =~= bytes@);
        while i < bytes.len()
            invariant
                0 <= i <= bytes@.len(),
                drain_spec(old(self).decoder@, bytes@) == ({
                    let d = drain_spec(self.decoder@, bytes@.skip(i as int));
                    (d.0, d.1, (d.2 + i) as nat)
                }),
            decreases bytes@.len() - i,
        {
            let ghost before = self.decoder@;
            let event = self.decoder.push(bytes[i]);
            proof {
                assert(bytes@.skip(i as int)[0] == bytes@[i as int]);
                assert(bytes@.skip(i as int).skip(1) =~= bytes@.skip(i + 1));
            }
            if event.is_some() {
                return (event, i + 1);
            }
            i = i + 1;
        }
        assert(bytes@.skip(i as int) =~= Seq::<u8>::empty());
        (None, i)
    }

    /// Feeds one byte read from the controller; the key event it completes,
    /// if any.
    pub fn feed(&mut self, byte: u8) -> (e: Option<KeyEvent>)
        ensures
            (final(self).decoder@, e) == push_spec(old(self).decoder@, byte),
    {
        self.decoder.push(byte)
    }
}

} // verus!
