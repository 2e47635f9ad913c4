use ferric::qemu::{
    qemu_exit_code, semihosting_exit_code, DEBUG_EXIT_IO_BASE, SEMIHOSTING_ADP_STOPPED_APPLICATION_EXIT,
    SEMIHOSTING_SYS_EXIT, STATUS_BOOT_INFO_MISSING, STATUS_BOOT_OK, STATUS_FRAMEBUFFER_FAULT,
    STATUS_FRAMEBUFFER_MISSING, STATUS_SHELL_HALT, STATUS_UART_FAULT,
};

#[test]
fn exit_code_follows_qemu_debugexit_formula() {
    assert_eq!(qemu_exit_code(STATUS_BOOT_OK), 33);
    assert_eq!(qemu_exit_code(STATUS_BOOT_INFO_MISSING), 65);
    assert_eq!(qemu_exit_code(0x00), 1);
    assert_eq!(qemu_exit_code(0xFF), 511);
}

#[test]
fn status_codes_map_to_odd_exit_codes_that_cannot_collide() {
    let statuses = [
        STATUS_BOOT_OK,
        STATUS_BOOT_INFO_MISSING,
        STATUS_UART_FAULT,
        STATUS_FRAMEBUFFER_MISSING,
        STATUS_FRAMEBUFFER_FAULT,
    ];
    for status in statuses {
        assert_eq!(qemu_exit_code(status) % 2, 1);
    }
    assert_eq!(qemu_exit_code(STATUS_UART_FAULT), 97);
    for i in 0..statuses.len() {
        for j in (i + 1)..statuses.len() {
            assert_ne!(qemu_exit_code(statuses[i]), qemu_exit_code(statuses[j]));
            assert_ne!(semihosting_exit_code(statuses[i]), semihosting_exit_code(statuses[j]));
        }
    }
}

#[test]
fn documented_io_base_matches_qemu_default() {
    assert_eq!(DEBUG_EXIT_IO_BASE, 0x501);
}

#[test]
fn semihosting_constants_match_arm_den_0024a() {
    assert_eq!(SEMIHOSTING_SYS_EXIT, 0x18);
    assert_eq!(SEMIHOSTING_ADP_STOPPED_APPLICATION_EXIT, 0x20026);
}

#[test]
fn semihosting_exit_code_is_a_raw_pass_through() {
    assert_eq!(semihosting_exit_code(STATUS_BOOT_OK), 16);
    assert_eq!(semihosting_exit_code(STATUS_BOOT_INFO_MISSING), 32);
    assert_eq!(semihosting_exit_code(STATUS_UART_FAULT), 48);
    assert_eq!(semihosting_exit_code(u8::MAX), 255);
}

#[test]
fn shell_halt_exits_with_the_documented_codes() {
    assert_eq!(qemu_exit_code(STATUS_SHELL_HALT), 261);
    assert_eq!(semihosting_exit_code(STATUS_SHELL_HALT), 130);
}
