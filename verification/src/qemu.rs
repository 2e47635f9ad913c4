//! QEMU exit channels for deterministic smoke-boot termination.
//!
//! x86_64: `isa-debug-exit`, where a write of `value` to its port shuts QEMU
//! down with exit code `(value << 1) | 1`. aarch64: ARM semihosting
//! `SYS_EXIT`, which passes the subcode through as the raw exit code.
use vstd::prelude::*;

verus! {

/// `iobase` for `-device isa-debug-exit` (QEMU's default).
pub const DEBUG_EXIT_IO_BASE: u16 = 0x501;

/// Early init completed successfully; QEMU exits with code 33.
pub const STATUS_BOOT_OK: u8 = 0x10;

/// Mandatory boot info rejected or unanswered; QEMU exits with code 65.
pub const STATUS_BOOT_INFO_MISSING: u8 = 0x20;

/// UART loopback probe failed (port absent or dead); QEMU exits with code 97.
pub const STATUS_UART_FAULT: u8 = 0x30;

/// No usable RGB framebuffer was handed over.
pub const STATUS_FRAMEBUFFER_MISSING: u8 = 0x40;

/// The color-bar self-test failed its readback.
pub const STATUS_FRAMEBUFFER_FAULT: u8 = 0x50;

/// The shell's `halt` command; QEMU exits with code 261 on x86_64 and 130
/// on aarch64.
pub const STATUS_SHELL_HALT: u8 = 0x82;

/// Semihosting `SYS_EXIT` operation number.
pub const SEMIHOSTING_SYS_EXIT: u32 = 0x18;

/// Semihosting reason code QEMU maps to a normal process exit.
pub const SEMIHOSTING_ADP_STOPPED_APPLICATION_EXIT: u64 = 0x20026;

/// The exit code QEMU reports for `status` written to isa-debug-exit.
pub open spec fn qemu_exit_code_spec(status: u8) -> i32 {
    (2 * (status as int) + 1) as i32
}

/// Exit code QEMU reports for a status byte: `(status << 1) | 1`. Always
/// odd, so crash or reset exits never collide with a kernel-reported status.
pub fn qemu_exit_code(status: u8) -> (code: i32)
    ensures
        code == qemu_exit_code_spec(status),
        code % 2 == 1,
{
    let s = status as i32;
    assert(0 <= s <= 255 ==> (s << 1) | 1 == 2 * s + 1) by (bit_vector);
    (s << 1) | 1
}

/// Exit code QEMU reports for a semihosting `SYS_EXIT` subcode: passed
/// through raw.
pub fn semihosting_exit_code(status: u8) -> (code: i32)
    ensures
        code == status as i32,
{
    status as i32
}

/// Distinct statuses give distinct exit codes on either channel.
pub proof fn lemma_exit_codes_distinct(a: u8, b: u8)
    requires
        a != b,
    ensures
        qemu_exit_code_spec(a) != qemu_exit_code_spec(b),
        a as i32 != b as i32,
{
}

} // verus!
