//! CPU exception frames as the entry stubs lay them out, the decoding of
//! their classifier fields, and the register dump written when one is
//! taken.
use vstd::prelude::*;
use crate::console::push_str;
use crate::digits::{decimal_spec, push_decimal, push_upper_hex, push_upper_hex_padded, upper_hex_padded, upper_hex_spec};

verus! {

/// x86_64 register state pushed by the exception stubs (rax lowest), then
/// the interrupt frame pushed by the CPU (rip lowest).
#[derive(Clone, Copy, Debug, PartialEq, Eq, Structural)]
pub struct ExceptionFrame {
    pub rax: u64,
    pub rcx: u64,
    pub rdx: u64,
    pub rsi: u64,
    pub rdi: u64,
    pub r8: u64,
    pub r9: u64,
    pub r10: u64,
    pub r11: u64,
    pub vector: u64,
    /// The CPU's error code for vectors that push one; 0 otherwise.
    pub error_code: u64,
    pub rip: u64,
    pub cs: u64,
    pub rflags: u64,
}

/// AArch64 state saved by the vector-table stubs for one exception.
#[derive(Clone, Copy, Debug, PartialEq, Eq)]
pub struct Aarch64ExceptionFrame {
    /// X0..X30 at the exception point.
    pub x: [u64; 31],
    /// Stack pointer at exception entry.
    pub sp: u64,
    /// Exception link register.
    pub elr: u64,
    /// Saved PSTATE.
    pub spsr: u64,
    /// Exception syndrome register.
    pub esr: u64,
    /// Fault address register.
    pub far: u64,
    /// Classifier from the taking stub: 0 sync, 1 irq, 2 fiq, 3 serror.
    pub kind: u64,
}

/// The name of an aarch64 exception classifier.
pub fn exception_kind_name(kind: u64) -> (s: &'static str)
    ensures
        s@ == (if kind == 0 {
            "SYNC"@
        } else if kind == 1 {
            "IRQ"@
        } else if kind == 2 {
            "FIQ"@
        } else {
            "SERROR"@
        }),
{
    if kind == 0 {
        "SYNC"
    } else if kind == 1 {
        "IRQ"
    } else if kind == 2 {
        "FIQ"
    } else {
        "SERROR"
    }
}

/// The exception class of a syndrome value: ESR bits 26..31.
pub fn exception_class(esr: u64) -> (ec: u64)
    ensures
        ec == (esr / 0x400_0000) % 64,
{
    assert(((esr >> 26u64) & 0x3F) == (esr / 0x400_0000) % 64) by (bit_vector);
    (esr >> 26) & 0x3F
}

/// The name of an aarch64 exception classifier, as [`exception_kind_name`].
pub open spec fn kind_name_of(kind: u64) -> Seq<char> {
    if kind == 0 {
        "SYNC"@
    } else if kind == 1 {
        "IRQ"@
    } else if kind == 2 {
        "FIQ"@
    } else {
        "SERROR"@
    }
}

/// A register as sixteen upper-case hexadecimal digits.
pub open spec fn hex16(v: u64) -> Seq<char> {
    upper_hex_spec(v as nat, 16)
}

/// The closing lines of every register dump.
pub open spec fn dump_tail() -> Seq<char> {
    "KERNEL HALT\n---\n"@
}

/// `label` followed by register value `v` in sixteen hex digits.
pub open spec fn reg_field(label: Seq<char>, v: u64) -> Seq<char> {
    label + hex16(v)
}

/// Appends `label` and register value `v`, as [`reg_field`].
fn push_reg(out: &mut Vec<char>, label: &str, v: u64)
    ensures
        final(out)@ == old(out)@ + reg_field(label@, v),
{
    push_str(out, label);
    push_upper_hex(out, v, 16);
    assert(final(out)@ =~= old(out)@ + reg_field(label@, v));
}

/// Three register fields in a row.
pub open spec fn reg_fields3(l1: Seq<char>, v1: u64, l2: Seq<char>, v2: u64, l3: Seq<char>, v3: u64) -> Seq<
    char,
> {
    reg_field(l1, v1) + reg_field(l2, v2) + reg_field(l3, v3)
}

/// Appends three register fields, as [`reg_fields3`].
fn push_regs3(out: &mut Vec<char>, l1: &str, v1: u64, l2: &str, v2: u64, l3: &str, v3: u64)
    ensures
        final(out)@ == old(out)@ + reg_fields3(l1@, v1, l2@, v2, l3@, v3),
{
    push_reg(out, l1, v1);
    push_reg(out, l2, v2);
    push_reg(out, l3, v3);
    assert(final(out)@ =~= old(out)@ + reg_fields3(l1@, v1, l2@, v2, l3@, v3));
}

/// The x86_64 dump's first line, without its line break: the vector in
/// decimal and the error code in hexadecimal.
pub open spec fn x86_heading(f: ExceptionFrame) -> Seq<char> {
    "EXCEPTION: vector "@ + decimal_spec(f.vector as nat) + ", error code 0x"@ + upper_hex_padded(
        f.error_code as nat,
        1,
    )
}

/// The x86_64 dump's last register line: `RIP`, `CS` (at least four hex
/// digits) and `RFLAGS`.
pub open spec fn x86_control_line(f: ExceptionFrame) -> Seq<char> {
    reg_field("\n  RIP="@, f.rip) + " CS="@ + upper_hex_padded(f.cs as nat, 4) + reg_field(
        " RFLAGS="@,
        f.rflags,
    ) + "\n"@
}

/// The x86_64 register dump for `f`: the vector in decimal and the error
/// code in hexadecimal, then the saved registers sixteen hex digits wide
/// (`CS` at least four), three to a line.
pub open spec fn x86_report(f: ExceptionFrame) -> Seq<char> {
    x86_heading(f) + reg_fields3("\n  RAX="@, f.rax, " RCX="@, f.rcx, " RDX="@, f.rdx) + reg_fields3(
        "\n  RSI="@,
        f.rsi,
        " RDI="@,
        f.rdi,
        " R11="@,
        f.r11,
    ) + reg_fields3("\n  R8 ="@, f.r8, " R9 ="@, f.r9, " R10="@, f.r10) + x86_control_line(f)
        + dump_tail()
}

fn push_x86_heading(out: &mut Vec<char>, f: &ExceptionFrame)
    ensures
        final(out)@ == old(out)@ + x86_heading(*f),
{
    push_str(out, "EXCEPTION: vector ");
    push_decimal(out, f.vector);
    push_str(out, ", error code 0x");
    push_upper_hex_padded(out, f.error_code, 1);
    assert(final(out)@ =~= old(out)@ + x86_heading(*f));
}

fn push_x86_control_line(out: &mut Vec<char>, f: &ExceptionFrame)
    ensures
        final(out)@ == old(out)@ + x86_control_line(*f),
{
    push_reg(out, "\n  RIP=", f.rip);
    push_str(out, " CS=");
    push_upper_hex_padded(out, f.cs, 4);
    push_reg(out, " RFLAGS=", f.rflags);
    push_str(out, "\n");
    assert(final(out)@ =~= old(out)@ + x86_control_line(*f));
}

/// Appends the x86_64 register dump for `f`, as [`x86_report`].
pub fn push_x86_report(out: &mut Vec<char>, f: &ExceptionFrame)
    ensures
        final(out)@ == old(out)@ + x86_report(*f),
{
    push_x86_heading(out, f);
    push_regs3(out, "\n  RAX=", f.rax, " RCX=", f.rcx, " RDX=", f.rdx);
    push_regs3(out, "\n  RSI=", f.rsi, " RDI=", f.rdi, " R11=", f.r11);
    push_regs3(out, "\n  R8 =", f.r8, " R9 =", f.r9, " R10=", f.r10);
    push_x86_control_line(out, f);
    push_str(out, "KERNEL HALT\n---\n");
    assert(final(out)@ =~= old(out)@ + x86_report(*f));
}

/// Register number `i` left-aligned in two columns.
pub open spec fn reg_label(i: nat) -> Seq<char> {
    if i < 10 {
        decimal_spec(i) + seq![' ']
    } else {
        decimal_spec(i)
    }
}

/// ` X{i}={x[i]}`: one general register of a row.
pub open spec fn reg_item(x: Seq<u64>, i: nat) -> Seq<char> {
    " X"@ + reg_label(i) + "="@ + hex16(x[i as int])
}

/// One line of four general registers from `X{start}` on.
pub open spec fn reg_row(x: Seq<u64>, start: nat) -> Seq<char> {
    " "@ + reg_item(x, start) + reg_item(x, start + 1) + reg_item(x, start + 2) + reg_item(x, start + 3)
        + "\n"@
}

/// The first `rows` four-register lines, from `X0` on.
pub open spec fn reg_rows(x: Seq<u64>, rows: nat) -> Seq<char>
    decreases rows,
{
    if rows == 0 {
        Seq::empty()
    } else {
        reg_rows(x, (rows - 1) as nat) + reg_row(x, (4 * (rows - 1)) as nat)
    }
}

/// The aarch64 dump's first line: classifier, syndrome and its class.
pub open spec fn aarch64_heading(f: Aarch64ExceptionFrame) -> Seq<char> {
    "EXCEPTION: kind "@ + kind_name_of(f.kind) + ", ESR 0x"@ + upper_hex_padded(f.esr as nat, 8)
        + " (EC 0x"@ + upper_hex_padded(((f.esr / 0x400_0000) % 64) as nat, 1) + ")\n"@
}

/// The aarch64 dump's lines after the general registers.
pub open spec fn aarch64_trailer(f: Aarch64ExceptionFrame) -> Seq<char> {
    reg_fields3("  X28="@, f.x@[28], " X29="@, f.x@[29], " X30="@, f.x@[30]) + reg_field(
        "\n  SP ="@,
        f.sp,
    ) + reg_field(" ELR="@, f.elr) + " SPSR="@ + upper_hex_padded(f.spsr as nat, 8) + reg_field(
        "\n  ESR="@,
        f.esr,
    ) + reg_field(" FAR="@, f.far) + "\n"@
}

/// The aarch64 register dump for `f`: classifier, syndrome and its class,
/// then `X0`..`X30` four to a line, the stack pointer, return address and
/// saved state, and the syndrome and fault address.
pub open spec fn aarch64_report(f: Aarch64ExceptionFrame) -> Seq<char> {
    aarch64_heading(f) + reg_rows(f.x@, 7) + aarch64_trailer(f) + dump_tail()
}

/// Appends register number `i` left-aligned in two columns.
fn push_reg_label(out: &mut Vec<char>, i: u64)
    ensures
        final(out)@ == old(out)@ + reg_label(i as nat),
{
    push_decimal(out, i);
    if i < 10 {
        out.push(' ');
    }
    assert(final(out)@ =~= old(out)@ + reg_label(i as nat));
}

fn push_reg_item(out: &mut Vec<char>, x: &[u64; 31], i: usize)
    requires
        i < 31,
    ensures
        final(out)@ == old(out)@ + reg_item(x@, i as nat),
{
    push_str(out, " X");
    push_reg_label(out, i as u64);
    push_str(out, "=");
    push_upper_hex(out, x[i], 16);
    assert(final(out)@ =~= old(out)@ + reg_item(x@, i as nat));
}

fn push_reg_row(out: &mut Vec<char>, x: &[u64; 31], start: usize)
    requires
        start + 3 < 31,
    ensures
        final(out)@ == old(out)@ + reg_row(x@, start as nat),
{
    push_str(out, " ");
    push_reg_item(out, x, start);
    push_reg_item(out, x, start + 1);
    push_reg_item(out, x, start + 2);
    push_reg_item(out, x, start + 3);
    push_str(out, "\n");
    assert(final(out)@ =~= old(out)@ + reg_row(x@, start as nat));
}

fn push_aarch64_heading(out: &mut Vec<char>, f: &Aarch64ExceptionFrame)
    ensures
        final(out)@ == old(out)@ + aarch64_heading(*f),
{
    push_str(out, "EXCEPTION: kind ");
    push_str(out, exception_kind_name(f.kind));
    push_str(out, ", ESR 0x");
    push_upper_hex_padded(out, f.esr, 8);
    push_str(out, " (EC 0x");
    push_upper_hex_padded(out, exception_class(f.esr), 1);
    push_str(out, ")\n");
    assert(final(out)@ =~= old(out)@ + aarch64_heading(*f));
}

fn push_aarch64_trailer(out: &mut Vec<char>, f: &Aarch64ExceptionFrame)
    ensures
        final(out)@ == old(out)@ + aarch64_trailer(*f),
{
    push_regs3(out, "  X28=", f.x[28], " X29=", f.x[29], " X30=", f.x[30]);
    push_reg(out, "\n  SP =", f.sp);
    push_reg(out, " ELR=", f.elr);
    push_str(out, " SPSR=");
    push_upper_hex_padded(out, f.spsr, 8);
    push_reg(out, "\n  ESR=", f.esr);
    push_reg(out, " FAR=", f.far);
    push_str(out, "\n");
    assert(final(out)@ =~= old(out)@ + aarch64_trailer(*f));
}

/// Appends the aarch64 register dump for `f`, as [`aarch64_report`].
pub fn push_aarch64_report(out: &mut Vec<char>, f: &Aarch64ExceptionFrame)
    ensures
        final(out)@ == old(out)@ + aarch64_report(*f),
{
    push_aarch64_heading(out, f);
    let ghost head = out@;
    let mut row: usize = 0;
    while row < 7
        invariant
            0 <= row <= 7,
            out@ == head + reg_rows(f.x@, row as nat),
        decreases 7 - row,
    {
        push_reg_row(out, &f.x, 4 * row);
        assert(out@ =~= head + reg_rows(f.x@, (row + 1) as nat));
        row = row + 1;
    }
    push_aarch64_trailer(out, f);
    push_str(out, "KERNEL HALT\n---\n");
    assert(final(out)@ =~= old(out)@ + aarch64_report(*f));
}

} // verus!
