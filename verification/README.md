# ferric

The logic of Ferric-K, a small x86_64/aarch64 hobby kernel booted by Limine,
as a library verified with Verus, plus the hardware side that runs it.

- `src/` is the verified library. Its functions carry `requires`/`ensures`
  contracts over mathematical models (`Seq`, `Map`, views of the data
  types), and the laws that span several calls are public proof functions:
  - text: PSF1/PSF2 font parsing, the cell grid with wrapping and
    scrolling, the line editor, shell command parsing, scancode-set-1 and
    terminal-byte decoding, UTF-8, number formatting;
  - framebuffer: layout validation, channel encoding, bounds-checked pixel
    writes, reads and fills, and the color-bar self-test, with
    read-after-write and fill laws;
  - heap: a first-fit free-list allocator with splitting and coalescing,
    whose well-formedness (blocks in the region, aligned, disjoint, bytes
    conserved) every operation keeps;
  - devices: the register programs and status decoding of the 16550 UART,
    8042 keyboard, 8259 PICs and PIT, PL011, GICv2 and generic timer, the
    GDT/TSS/IDT descriptors, AArch64 2 MiB block mappings, and the
    exception register dumps;
  - boot and apps: the Limine answers, the boot stages and exit statuses,
    the console's shell replies and repaint decisions, the clock window's
    event loop and the hardware monitor's statistics and texts;
  - the C `mem*` routines over a byte window.
- `tests/` runs the library on concrete values.
- `app/` is the kernel around the library: the loader ABI structures, port
  and MMIO access, locks, interrupt entry stubs, the global devices, the
  console and shell loop, and the clock window drawn with embedded-graphics.
  It performs the I/O and leaves every decision to the library.
