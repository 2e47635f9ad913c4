use ferric::interrupt::{
    exception_class, exception_kind_name, push_aarch64_report, push_x86_report, Aarch64ExceptionFrame, ExceptionFrame,
};

#[test]
fn x86_64_frame_fits_the_stub_layout() {
    assert_eq!(core::mem::size_of::<ExceptionFrame>(), 112);
    assert_eq!(core::mem::align_of::<ExceptionFrame>(), 8);
}

#[test]
fn aarch64_frame_fits_the_stub_layout() {
    assert_eq!(core::mem::size_of::<Aarch64ExceptionFrame>(), 296);
    assert_eq!(core::mem::align_of::<Aarch64ExceptionFrame>(), 8);
}

#[test]
fn syndrome_class_is_the_top_six_bits() {
    assert_eq!(exception_class(0x9600_0045), 0x25);
    assert_eq!(exception_class(0), 0);
}

#[test]
fn exception_kinds_are_named() {
    assert_eq!(exception_kind_name(0), "SYNC");
    assert_eq!(exception_kind_name(1), "IRQ");
    assert_eq!(exception_kind_name(2), "FIQ");
    assert_eq!(exception_kind_name(3), "SERROR");
}

#[test]
fn x86_dump_lists_every_saved_register() {
    let f = ExceptionFrame {
        rax: 1,
        rcx: 2,
        rdx: 3,
        rsi: 4,
        rdi: 5,
        r8: 6,
        r9: 7,
        r10: 8,
        r11: 9,
        vector: 14,
        error_code: 0x2b,
        rip: 0xffff_ffff_8000_1234,
        cs: 8,
        rflags: 0x246,
    };
    let mut out = Vec::new();
    push_x86_report(&mut out, &f);
    let text: String = out.iter().collect();
    assert_eq!(
        text,
        "EXCEPTION: vector 14, error code 0x2B\n\
         \x20 RAX=0000000000000001 RCX=0000000000000002 RDX=0000000000000003\n\
         \x20 RSI=0000000000000004 RDI=0000000000000005 R11=0000000000000009\n\
         \x20 R8 =0000000000000006 R9 =0000000000000007 R10=0000000000000008\n\
         \x20 RIP=FFFFFFFF80001234 CS=0008 RFLAGS=0000000000000246\n\
         KERNEL HALT\n---\n"
    );
}

#[test]
fn aarch64_dump_lists_registers_four_to_a_line() {
    let mut x = [0u64; 31];
    for (i, r) in x.iter_mut().enumerate() {
        *r = i as u64;
    }
    let f = Aarch64ExceptionFrame { x, sp: 0x4000, elr: 0x8000, spsr: 0x3c5, esr: 0xf200_0000, far: 0, kind: 0 };
    let mut out = Vec::new();
    push_aarch64_report(&mut out, &f);
    let text: String = out.iter().collect();
    let lines: Vec<&str> = text.lines().collect();
    assert_eq!(lines[0], "EXCEPTION: kind SYNC, ESR 0xF2000000 (EC 0x3C)");
    assert_eq!(lines[1], "  X0 =0000000000000000 X1 =0000000000000001 X2 =0000000000000002 X3 =0000000000000003");
    assert_eq!(lines[3], "  X8 =0000000000000008 X9 =0000000000000009 X10=000000000000000A X11=000000000000000B");
    assert_eq!(lines[8], "  X28=000000000000001C X29=000000000000001D X30=000000000000001E");
    assert_eq!(lines[9], "  SP =0000000000004000 ELR=0000000000008000 SPSR=000003C5");
    assert_eq!(lines[10], "  ESR=00000000F2000000 FAR=0000000000000000");
    assert_eq!(lines[11], "KERNEL HALT");
    assert_eq!(lines[12], "---");
    assert_eq!(lines.len(), 13);
}
