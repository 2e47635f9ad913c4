use ferric::boot::{boot_stages, exit_code, failure_status, stage_message, Arch, BootStage, FRAMEBUFFER_OK_MARKER};
use ferric::qemu::{STATUS_FRAMEBUFFER_FAULT, STATUS_UART_FAULT};

#[test]
fn stages_run_in_order_and_end_at_the_console() {
    let x86 = boot_stages(Arch::X86_64);
    assert_eq!(x86.first(), Some(&BootStage::SerialInit));
    assert_eq!(x86.last(), Some(&BootStage::Console));
    let arm = boot_stages(Arch::Aarch64);
    assert_eq!(arm[0], BootStage::CollectBootInfo);
    assert_eq!(arm[2], BootStage::UartInit);
}

#[test]
fn failed_stages_report_their_status() {
    assert_eq!(failure_status(BootStage::SerialInit), Some(STATUS_UART_FAULT));
    assert_eq!(failure_status(BootStage::ColorBarSelfTest), Some(STATUS_FRAMEBUFFER_FAULT));
    assert_eq!(failure_status(BootStage::Console), None);
    assert_eq!(exit_code(Arch::X86_64, STATUS_UART_FAULT), 97);
    assert_eq!(exit_code(Arch::Aarch64, STATUS_UART_FAULT), 48);
}

#[test]
fn progress_lines_mark_the_boot() {
    assert_eq!(stage_message(Arch::X86_64, BootStage::CollectBootInfo, true), Some("Ferric-K x86_64\nBOOT OK\n"));
    assert_eq!(
        stage_message(Arch::X86_64, BootStage::CollectBootInfo, false),
        Some("Ferric-K x86_64\nBOOT INFO MISSING\n")
    );
    assert_eq!(stage_message(Arch::Aarch64, BootStage::UartInit, true), Some("Ferric-K aarch64\nBOOT OK\n"));
    assert_eq!(stage_message(Arch::Aarch64, BootStage::ColorBarSelfTest, true), Some(FRAMEBUFFER_OK_MARKER));
    assert_eq!(stage_message(Arch::Aarch64, BootStage::ColorBarSelfTest, false), None);
    assert_eq!(stage_message(Arch::X86_64, BootStage::PitInit, true), None);
}
