//! The early-boot sequence after the loader's handoff, per architecture:
//! the stages in order, the exit status a failed stage reports to the
//! emulator, and the serial lines that mark progress.
use vstd::prelude::*;
use crate::qemu::{
    qemu_exit_code_spec, STATUS_BOOT_INFO_MISSING, STATUS_FRAMEBUFFER_FAULT,
    STATUS_FRAMEBUFFER_MISSING, STATUS_UART_FAULT,
};

verus! {

/// The CPU architecture booted on.
#[derive(Clone, Copy, Debug, PartialEq, Eq, Structural)]
pub enum Arch {
    X86_64,
    Aarch64,
}

/// One step of early boot.
#[derive(Clone, Copy, Debug, PartialEq, Eq, Structural)]
pub enum BootStage {
    /// Probe COM1 and capture it.
    SerialInit,
    /// Load the GDT, TSS and IDT.
    DescriptorTables,
    /// Remap the PICs and start the PIT.
    PitInit,
    /// Adopt the loader-calibrated TSC.
    TscInit,
    /// Unmask interrupts.
    InterruptsOn,
    /// Collect the loader's answers.
    CollectBootInfo,
    /// Map the PL011's MMIO window.
    MapUartWindow,
    /// Bring up the PL011.
    UartInit,
    /// Install the exception vectors.
    ExceptionVectors,
    /// Program the GIC and the generic timer.
    GicTimerInit,
    /// Capture the first RGB framebuffer.
    FramebufferInit,
    /// Draw and read back the color bars.
    ColorBarSelfTest,
    /// Hand over to the console.
    Console,
}

pub open spec fn boot_stages_spec(arch: Arch) -> Seq<BootStage> {
    match arch {
        Arch::X86_64 => seq![
            BootStage::SerialInit,
            BootStage::DescriptorTables,
            BootStage::PitInit,
            BootStage::TscInit,
            BootStage::InterruptsOn,
            BootStage::CollectBootInfo,
            BootStage::FramebufferInit,
            BootStage::ColorBarSelfTest,
            BootStage::Console,
        ],
        Arch::Aarch64 => seq![
            BootStage::CollectBootInfo,
            BootStage::MapUartWindow,
            BootStage::UartInit,
            BootStage::ExceptionVectors,
            BootStage::GicTimerInit,
            BootStage::InterruptsOn,
            BootStage::FramebufferInit,
            BootStage::ColorBarSelfTest,
            BootStage::Console,
        ],
    }
}

/// The boot stages of `arch`, in order.
pub fn boot_stages(arch: Arch) -> (s: Vec<BootStage>)
    ensures
        s@ == boot_stages_spec(arch),
{
    let s = match arch {
        Arch::X86_64 => vec![
            BootStage::SerialInit,
            BootStage::DescriptorTables,
            BootStage::PitInit,
            BootStage::TscInit,
            BootStage::InterruptsOn,
            BootStage::CollectBootInfo,
            BootStage::FramebufferInit,
            BootStage::ColorBarSelfTest,
            BootStage::Console,
        ],
        Arch::Aarch64 => vec![
            BootStage::CollectBootInfo,
            BootStage::MapUartWindow,
            BootStage::UartInit,
            BootStage::ExceptionVectors,
            BootStage::GicTimerInit,
            BootStage::InterruptsOn,
            BootStage::FramebufferInit,
            BootStage::ColorBarSelfTest,
            BootStage::Console,
        ],
    };
    assert(s@ =~= boot_stages_spec(arch));
    s
}

pub open spec fn failure_status_spec(stage: BootStage) -> Option<u8> {
    match stage {
        BootStage::SerialInit => Some(STATUS_UART_FAULT),
        BootStage::CollectBootInfo => Some(STATUS_BOOT_INFO_MISSING),
        BootStage::MapUartWindow => Some(STATUS_UART_FAULT),
        BootStage::UartInit => Some(STATUS_UART_FAULT),
        BootStage::GicTimerInit => Some(STATUS_BOOT_INFO_MISSING),
        BootStage::FramebufferInit => Some(STATUS_FRAMEBUFFER_MISSING),
        BootStage::ColorBarSelfTest => Some(STATUS_FRAMEBUFFER_FAULT),
        _ => None,
    }
}

/// The status the emulator is stopped with when `stage` fails; `None` for
/// a stage that cannot fail.
pub fn failure_status(stage: BootStage) -> (s: Option<u8>)
    ensures
        s == failure_status_spec(stage),
{
    match stage {
        BootStage::SerialInit => Some(STATUS_UART_FAULT),
        BootStage::CollectBootInfo => Some(STATUS_BOOT_INFO_MISSING),
        BootStage::MapUartWindow => Some(STATUS_UART_FAULT),
        BootStage::UartInit => Some(STATUS_UART_FAULT),
        BootStage::GicTimerInit => Some(STATUS_BOOT_INFO_MISSING),
        BootStage::FramebufferInit => Some(STATUS_FRAMEBUFFER_MISSING),
        BootStage::ColorBarSelfTest => Some(STATUS_FRAMEBUFFER_FAULT),
        _ => None,
    }
}

/// The process exit code the emulator reports for `status` on `arch`:
/// isa-debug-exit's `(status << 1) | 1` on x86_64, the raw status through
/// semihosting on aarch64.
pub fn exit_code(arch: Arch, status: u8) -> (c: i32)
    ensures
        c == match arch {
            Arch::X86_64 => qemu_exit_code_spec(status),
            Arch::Aarch64 => status as i32,
        },
{
    match arch {
        Arch::X86_64 => crate::qemu::qemu_exit_code(status),
        Arch::Aarch64 => crate::qemu::semihosting_exit_code(status),
    }
}

/// Serial line marking the color-bar self-test passed.
pub const FRAMEBUFFER_OK_MARKER: &'static str = "FRAMEBUFFER OK\n";

/// The serial line written once `stage` has finished on `arch` with outcome
/// `ok`, if any: the banner with `BOOT OK` after the boot info arrived (on
/// x86_64 after collecting it, on aarch64 once the UART is up), the banner
/// with `BOOT INFO MISSING` when x86_64 collects none, and the framebuffer
/// marker after the self-test.
pub open spec fn stage_message_spec(arch: Arch, stage: BootStage, ok: bool) -> Option<Seq<char>> {
    if arch == Arch::X86_64 && stage == BootStage::CollectBootInfo {
        if ok {
            Some("Ferric-K x86_64\nBOOT OK\n"@)
        } else {
            Some("Ferric-K x86_64\nBOOT INFO MISSING\n"@)
        }
    } else if arch == Arch::Aarch64 && stage == BootStage::UartInit && ok {
        Some("Ferric-K aarch64\nBOOT OK\n"@)
    } else if stage == BootStage::ColorBarSelfTest && ok {
        Some(FRAMEBUFFER_OK_MARKER@)
    } else {
        None
    }
}

/// The serial line for `stage` finishing on `arch` with outcome `ok`, as
/// [`stage_message_spec`].
pub fn stage_message(arch: Arch, stage: BootStage, ok: bool) -> (m: Option<&'static str>)
    ensures
        match m {
            Some(text) => stage_message_spec(arch, stage, ok) == Some(text@),
            None => stage_message_spec(arch, stage, ok) is None,
        },
{
    match (arch, stage) {
        (Arch::X86_64, BootStage::CollectBootInfo) => {
            if ok {
                Some("Ferric-K x86_64\nBOOT OK\n")
            } else {
                Some("Ferric-K x86_64\nBOOT INFO MISSING\n")
            }
        },
        (Arch::Aarch64, BootStage::UartInit) => {
            if ok {
                Some("Ferric-K aarch64\nBOOT OK\n")
            } else {
                None
            }
        },
        (_, BootStage::ColorBarSelfTest) => {
            if ok {
                Some(FRAMEBUFFER_OK_MARKER)
            } else {
                None
            }
        },
        _ => None,
    }
}

} // verus!
