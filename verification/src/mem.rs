//! The C runtime's `mem*` routines over a byte window of memory: addresses
//! are offsets into the window, and every access stays inside it.
use vstd::prelude::*;

verus! {

/// `mem` with the `n` bytes at `dest` replaced by the `n` bytes that were
/// at `src`.
pub open spec fn copied(mem: Seq<u8>, dest: int, src: int, n: int) -> Seq<u8> {
    Seq::new(mem.len(), |j: int| if dest <= j < dest + n { mem[src + (j - dest)] } else { mem[j] })
}

/// `mem` with the `n` bytes at `dest` set to `byte`.
pub open spec fn filled(mem: Seq<u8>, dest: int, n: int, byte: u8) -> Seq<u8> {
    Seq::new(mem.len(), |j: int| if dest <= j < dest + n { byte } else { mem[j] })
}

/// `i` is the first of the first `n` positions where `a` and `b` differ.
pub open spec fn first_difference(a: Seq<u8>, b: Seq<u8>, n: int, i: int) -> bool {
    &&& 0 <= i < n
    &&& a[i] != b[i]
    &&& forall|j: int| 0 <= j < i ==> a[j] == b[j]
}

/// C `memcpy`: copies `n` bytes from `src` to `dest`; the two ranges must
/// not overlap. Returns `dest`.
pub fn memcpy(mem: &mut [u8], dest: usize, src: usize, n: usize) -> (r: usize)
    requires
        dest + n <= old(mem)@.len(),
        src + n <= old(mem)@.len(),
        dest + n <= src || src + n <= dest,
    ensures
        r == dest,
        final(mem)@ == copied(old(mem)@, dest as int, src as int, n as int),
{
    let ghost before = mem@;
    let len = mem.len();
    let mut i: usize = 0;
    while i < n
        invariant
            dest + n <= before.len(),
            src + n <= before.len(),
            dest + n <= src || src + n <= dest,
            mem@.len() == before.len(),
            before.len() == len,
            0 <= i <= n,
            forall|j: int|
                0 <= j < before.len() ==> #[trigger] mem@[j] == if dest <= j < dest + i {
                    before[src + (j - dest)]
                } else {
                    before[j]
                },
        decreases n - i,
    {
        let byte = mem[src + i];
        mem[dest + i] = byte;
        i = i + 1;
    }
    assert(mem@ =~= copied(before, dest as int, src as int, n as int));
    dest
}

/// C `memmove`: like [`memcpy`], but correct for overlapping ranges. When
/// `dest` lies above `src` it copies from the end, so no source byte is
/// read after being overwritten. Returns `dest`.
pub fn memmove(mem: &mut [u8], dest: usize, src: usize, n: usize) -> (r: usize)
    requires
        dest + n <= old(mem)@.len(),
        src + n <= old(mem)@.len(),
    ensures
        r == dest,
        final(mem)@ == copied(old(mem)@, dest as int, src as int, n as int),
{
    let ghost before = mem@;
    let len = mem.len();
    if dest <= src {
        let mut i: usize = 0;
        while i < n
            invariant
                dest <= src,
                dest + n <= before.len(),
                src + n <= before.len(),
                mem@.len() == before.len(),
                before.len() == len,
            before.len() == len,
                0 <= i <= n,
                forall|j: int|
                    0 <= j < before.len() ==> #[trigger] mem@[j] == if dest <= j < dest + i {
                        before[src + (j - dest)]
                    } else {
                        before[j]
                    },
            decreases n - i,
        {
            let byte = mem[src + i];
            mem[dest + i] = byte;
            i = i + 1;
        }
    } else {
        let mut i: usize = n;
        while i > 0
            invariant
                dest > src,
                dest + n <= before.len(),
                src + n <= before.len(),
                mem@.len() == before.len(),
                before.len() == len,
            before.len() == len,
                0 <= i <= n,
                forall|j: int|
                    0 <= j < before.len() ==> #[trigger] mem@[j] == if dest + i <= j < dest + n {
                        before[src + (j - dest)]
                    } else {
                        before[j]
                    },
            decreases i,
        {
            let byte = mem[src + i - 1];
            mem[dest + i - 1] = byte;
            i = i - 1;
        }
    }
    assert(mem@ =~= copied(before, dest as int, src as int, n as int));
    dest
}

/// C `memset`: sets `n` bytes at `dest` to the low byte of `value`. Returns
/// `dest`.
pub fn memset(mem: &mut [u8], dest: usize, value: i32, n: usize) -> (r: usize)
    requires
        dest + n <= old(mem)@.len(),
    ensures
        r == dest,
        final(mem)@ == filled(old(mem)@, dest as int, n as int, value as u8),
{
    let ghost before = mem@;
    let len = mem.len();
    let byte = #[verifier::truncate] (value as u8);
    let mut i: usize = 0;
    while i < n
        invariant
            dest + n <= before.len(),
            byte == value as u8,
            mem@.len() == before.len(),
            before.len() == len,
            0 <= i <= n,
            forall|j: int|
                0 <= j < before.len() ==> #[trigger] mem@[j] == if dest <= j < dest + i {
                    byte
                } else {
                    before[j]
                },
        decreases n - i,
    {
        mem[dest + i] = byte;
        i = i + 1;
    }
    assert(mem@ =~= filled(before, dest as int, n as int, byte));
    dest
}

/// What comparing the first `n` bytes of `a` and `b` answers: 0 when they
/// agree throughout, else the difference of the unsigned bytes at the first
/// position where they differ.
pub open spec fn comparison(a: Seq<u8>, b: Seq<u8>, n: usize, r: i32) -> bool {
    &&& r == 0 <==> a.take(n as int) == b.take(n as int)
    &&& r != 0 ==> exists|i: int| first_difference(a, b, n as int, i) && r == a[i] as int - b[i] as int
}

/// The first of the first `n` positions where `a` and `b` differ; `None`
/// when they agree throughout.
fn first_mismatch(a: &[u8], b: &[u8], n: usize) -> (r: Option<usize>)
    requires
        n <= a@.len(),
        n <= b@.len(),
    ensures
        match r {
            Some(i) => first_difference(a@, b@, n as int, i as int) && a@.take(n as int) != b@.take(
                n as int,
            ),
            None => a@.take(n as int) == b@.take(n as int),
        },
{
    let mut i: usize = 0;
    while i < n
        invariant
            n <= a@.len(),
            n <= b@.len(),
            0 <= i <= n,
            forall|j: int| 0 <= j < i ==> a@[j] == b@[j],
        decreases n - i,
    {
        if a[i] != b[i] {
            assert(a@.take(n as int)[i as int] != b@.take(n as int)[i as int]);
            return Some(i);
        }
        i = i + 1;
    }
    assert(a@.take(n as int) =~= b@.take(n as int));
    None
}

/// The unsigned difference `x - y` of two bytes.
fn byte_difference(x: u8, y: u8) -> (d: i32)
    ensures
        d == x as int - y as int,
{
    (x as i32) - (y as i32)
}

/// C `memcmp`: compares the first `n` bytes of `a` and `b` as unsigned
/// bytes; the difference at the first position where they differ, 0 when
/// they agree throughout.
pub fn memcmp(a: &[u8], b: &[u8], n: usize) -> (r: i32)
    requires
        n <= a@.len(),
        n <= b@.len(),
    ensures
        comparison(a@, b@, n, r),
{
    match first_mismatch(a, b, n) {
        Some(i) => byte_difference(a[i], b[i]),
        None => 0,
    }
}

} // verus!
