use vstd::prelude::*;

pub mod api;
pub mod boot;
pub mod chars;
pub mod clock;
pub mod clock_app;
pub mod console;
pub mod digits;
pub mod font;
pub mod framebuffer;
pub mod gdt;
pub mod gictimer;
pub mod grid;
pub mod gui;
pub mod heap;
pub mod idt;
pub mod interrupt;
pub mod limine;
pub mod log;
pub mod mem;
pub mod line_editor;
pub mod mmu;
pub mod monitor;
pub mod monitor_app;
pub mod pit;
pub mod pl011;
pub mod port;
pub mod ps2;
pub mod qemu;
pub mod scancodes;
pub mod serial;
pub mod shell;
pub mod terminal;
pub mod text;
pub mod time;

verus! {
} // verus!
