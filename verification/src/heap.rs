//! The kernel heap's bookkeeping: a first-fit free-list block allocator over
//! an address region, with block splitting and coalescing.
//!
//! Addresses are plain `usize` values; the free list is kept in list order
//! (head first) and every outstanding allocation is recorded with the
//! padding between its block header and its payload, which is what the
//! allocator reads back to find the header of a freed payload.
use vstd::prelude::*;
use vstd::arithmetic::power2::{pow2, is_pow2};
use crate::limine::{MemmapEntry, MEMMAP_USABLE};

verus! {

/// Bytes of a block header: the size word and the two list links.
pub const HEADER_SIZE: usize = 24;

/// The word kept just below every payload, holding the padding from the
/// block's header to its payload.
pub const HEADER_GAP: usize = 8;

/// A leftover must hold a header plus user bytes to be worth splitting;
/// smaller tails stay glued to the allocation.
pub const MIN_BLOCK: usize = 48;

/// `size` bytes of heap memory starting at address `addr`.
#[derive(Clone, Copy, Debug, PartialEq, Eq, Structural)]
pub struct Block {
    pub addr: usize,
    pub size: usize,
}

/// An outstanding allocation: the payload handed out, the block it was
/// carved from, and the padding from the block header to the payload.
#[derive(Clone, Copy, Debug, PartialEq, Eq, Structural)]
pub struct Allocation {
    pub payload: usize,
    pub block: Block,
    pub head_pad: usize,
}

/// `value` rounded up to a multiple of `align`.
pub open spec fn align_up_spec(value: int, align: int) -> int {
    (value + align - 1) / align * align
}

/// `value` rounded up to a multiple of the power of two `align`.
pub fn align_up(value: usize, align: usize) -> (r: usize)
    requires
        is_pow2(align as int),
        value + align - 1 <= usize::MAX,
    ensures
        r == align_up_spec(value as int, align as int),
        r >= value,
        r % align == 0,
{
    proof {
        vstd::arithmetic::power2::is_pow2_equiv(align as int);
    }
    let ghost k = choose|i: nat| vstd::arithmetic::power::pow(2, i) == align as int;
    proof {
        vstd::arithmetic::power2::lemma_pow2(k);
        vstd::arithmetic::power2::lemma_pow2_pos(k);
        if k >= usize::BITS {
            vstd::arithmetic::power2::lemma2_to64();
            vstd::arithmetic::power2::lemma2_to64_rest();
            vstd::arithmetic::power2::lemma_pow2_strictly_increases(usize::BITS as nat, k);
            assert(false);
        }
    }
    let x = value + (align - 1);
    let m = align - 1;
    proof {
        vstd::bits::lemma_usize_low_bits_mask_is_mod(x, k);
        assert(x & !m == x - (x & m)) by (bit_vector);
        vstd::arithmetic::div_mod::lemma_fundamental_div_mod(x as int, align as int);
        vstd::arithmetic::div_mod::lemma_mod_bound(x as int, align as int);
        vstd::arithmetic::mul::lemma_mul_is_commutative(align as int, x as int / align as int);
        vstd::arithmetic::div_mod::lemma_mod_multiples_basic(x as int / align as int, align as int);
    }
    x & !m
}

/// One past the last byte of `b`.
pub open spec fn block_end(b: Block) -> int {
    b.addr + b.size
}

/// `a` and `b` share no byte.
pub open spec fn disjoint(a: Block, b: Block) -> bool {
    block_end(a) <= b.addr || block_end(b) <= a.addr
}

/// Sum of the sizes of `blocks`.
pub open spec fn total_size(blocks: Seq<Block>) -> int
    decreases blocks.len(),
{
    if blocks.len() == 0 {
        0
    } else {
        total_size(blocks.drop_last()) + blocks.last().size
    }
}

/// The blocks of outstanding allocations.
pub open spec fn live_blocks(live: Seq<Allocation>) -> Seq<Block> {
    live.map_values(|a: Allocation| a.block)
}

/// A block of the heap: inside `[start, end)`, on an 8-byte boundary, a
/// multiple of 8 bytes, and large enough for a header and the padding word.
pub open spec fn block_ok(b: Block, start: int, end: int) -> bool {
    &&& start <= b.addr
    &&& block_end(b) <= end
    &&& b.addr % 8 == 0
    &&& b.size % 8 == 0
    &&& b.size >= HEADER_SIZE + HEADER_GAP
}

/// An outstanding allocation: its payload lies inside its block, after the
/// header and the padding word.
pub open spec fn allocation_ok(a: Allocation, start: int, end: int) -> bool {
    &&& block_ok(a.block, start, end)
    &&& a.payload == a.block.addr + HEADER_SIZE + a.head_pad
    &&& a.head_pad >= HEADER_GAP
    &&& a.payload < block_end(a.block)
}

/// The allocator's state: its free list in list order, its outstanding
/// allocations, and the region `[start, end)` it manages.
pub ghost struct HeapView {
    pub free: Seq<Block>,
    pub live: Seq<Allocation>,
    pub start: int,
    pub end: int,
}

/// The allocator's invariant: every free and allocated block lies in the
/// region, no two of them overlap, and together they account for every byte
/// of the region.
pub open spec fn heap_wf(v: HeapView) -> bool {
    &&& v.start % 8 == 0
    &&& v.end % 8 == 0
    &&& 0 <= v.start <= v.end <= usize::MAX
    &&& forall|i: int| 0 <= i < v.free.len() ==> block_ok(#[trigger] v.free[i], v.start, v.end)
    &&& forall|k: int|
        0 <= k < v.live.len() ==> allocation_ok(#[trigger] v.live[k], v.start, v.end)
    &&& forall|i: int, j: int|
        0 <= i < j < v.free.len() ==> disjoint(#[trigger] v.free[i], #[trigger] v.free[j])
    &&& forall|k: int, l: int|
        0 <= k < l < v.live.len() ==> disjoint(#[trigger] v.live[k].block, #[trigger] v.live[l].block)
    &&& forall|i: int, k: int|
        0 <= i < v.free.len() && 0 <= k < v.live.len() ==> disjoint(
            #[trigger] v.free[i],
            #[trigger] v.live[k].block,
        )
    &&& total_size(v.free) + total_size(live_blocks(v.live)) == v.end - v.start
}

proof fn lemma_total_nonneg(s: Seq<Block>)
    ensures
        total_size(s) >= 0,
    decreases s.len(),
{
    if s.len() > 0 {
        lemma_total_nonneg(s.drop_last());
    }
}

proof fn lemma_total_push(s: Seq<Block>, b: Block)
    ensures
        total_size(s.push(b)) == total_size(s) + b.size,
{
    assert(s.push(b).drop_last() =~= s);
}

proof fn lemma_total_take(s: Seq<Block>, i: int)
    requires
        0 <= i < s.len(),
    ensures
        total_size(s.take(i + 1)) == total_size(s.take(i)) + s[i].size,
{
    assert(s.take(i + 1).drop_last() =~= s.take(i));
}

proof fn lemma_total_prefix(s: Seq<Block>, i: int)
    requires
        0 <= i <= s.len(),
    ensures
        0 <= total_size(s.take(i)) <= total_size(s),
    decreases s.len() - i,
{
    lemma_total_nonneg(s.take(i));
    if i < s.len() {
        lemma_total_take(s, i);
        lemma_total_prefix(s, i + 1);
    } else {
        assert(s.take(i) =~= s);
    }
}

proof fn lemma_total_update(s: Seq<Block>, i: int, b: Block)
    requires
        0 <= i < s.len(),
    ensures
        total_size(s.update(i, b)) == total_size(s) - s[i].size + b.size,
    decreases s.len(),
{
    if i == s.len() - 1 {
        assert(s.update(i, b).drop_last() =~= s.drop_last());
    } else {
        assert(s.update(i, b).drop_last() =~= s.drop_last().update(i, b));
        lemma_total_update(s.drop_last(), i, b);
    }
}

proof fn lemma_total_remove(s: Seq<Block>, i: int)
    requires
        0 <= i < s.len(),
    ensures
        total_size(s.remove(i)) == total_size(s) - s[i].size,
    decreases s.len(),
{
    if i == s.len() - 1 {
        assert(s.remove(i) =~= s.drop_last());
    } else {
        assert(s.remove(i).drop_last() =~= s.drop_last().remove(i));
        lemma_total_remove(s.drop_last(), i);
    }
}

proof fn lemma_total_insert_front(s: Seq<Block>, b: Block)
    ensures
        total_size(s.insert(0, b)) == b.size + total_size(s),
    decreases s.len(),
{
    if s.len() == 0 {
        assert(s.insert(0, b).drop_last() =~= s);
    } else {
        assert(s.insert(0, b).drop_last() =~= s.drop_last().insert(0, b));
        lemma_total_insert_front(s.drop_last(), b);
    }
}

proof fn lemma_live_push(l: Seq<Allocation>, a: Allocation)
    ensures
        live_blocks(l.push(a)) == live_blocks(l).push(a.block),
{
    assert(live_blocks(l.push(a)) =~= live_blocks(l).push(a.block));
}

proof fn lemma_live_remove(l: Seq<Allocation>, k: int)
    requires
        0 <= k < l.len(),
    ensures
        live_blocks(l.remove(k)) == live_blocks(l).remove(k),
{
    assert(live_blocks(l.remove(k)) =~= live_blocks(l).remove(k));
}

/// Bytes a request of `size` takes: zero-size requests still get a byte,
/// so every returned payload is distinct.
pub open spec fn request_size(size: usize) -> int {
    if size == 0 {
        1
    } else {
        size as int
    }
}

/// Payload address for a request aligned to `align` in block `b`: past the
/// header and the padding word, rounded up.
pub open spec fn payload_in(b: Block, align: int) -> int {
    align_up_spec(b.addr + HEADER_SIZE + HEADER_GAP, align)
}

/// Block `b` holds `size` bytes at alignment `align`.
pub open spec fn fits(b: Block, size: int, align: int) -> bool {
    payload_in(b, align) + size <= block_end(b)
}

/// Free block `i` is the first in list order that fits the request.
pub open spec fn first_fit(free: Seq<Block>, size: int, align: int, i: int) -> bool {
    &&& 0 <= i < free.len()
    &&& fits(free[i], size, align)
    &&& forall|j: int| 0 <= j < i ==> !fits(#[trigger] free[j], size, align)
}

/// Carving the request out of `b` leaves a tail, starting at the next
/// 8-byte boundary, of at least [`MIN_BLOCK`] bytes.
pub open spec fn splits(b: Block, size: int, align: int) -> bool {
    let need_end = payload_in(b, align) + size;
    &&& block_end(b) - need_end >= MIN_BLOCK
    &&& block_end(b) - align_up_spec(need_end, 8) >= MIN_BLOCK
}

/// The state after the request is carved out of free block `i`: a tail
/// worth keeping takes the block's place in the free list, otherwise the
/// block leaves the list whole; the carved block becomes an allocation.
pub open spec fn carved(v: HeapView, i: int, size: int, align: int) -> HeapView {
    let b = v.free[i];
    let payload = payload_in(b, align);
    let tail_addr = align_up_spec(payload + size, 8);
    let taken = if splits(b, size, align) {
        Block { addr: b.addr, size: (tail_addr - b.addr) as usize }
    } else {
        b
    };
    let free = if splits(b, size, align) {
        v.free.update(i, Block { addr: tail_addr as usize, size: (block_end(b) - tail_addr) as usize })
    } else {
        v.free.remove(i)
    };
    HeapView {
        free,
        live: v.live.push(
            Allocation {
                payload: payload as usize,
                block: taken,
                head_pad: (payload - b.addr - HEADER_SIZE) as usize,
            },
        ),
        ..v
    }
}

/// Rounding up to a power of two, or to 8, stays below the next multiple.
proof fn lemma_align_up_bounds(value: int, align: int)
    requires
        0 <= value,
        1 <= align,
    ensures
        value <= align_up_spec(value, align) <= value + align - 1,
        align_up_spec(value, align) % align == 0,
{
    let x = value + align - 1;
    vstd::arithmetic::div_mod::lemma_fundamental_div_mod(x, align);
    vstd::arithmetic::div_mod::lemma_mod_bound(x, align);
    vstd::arithmetic::mul::lemma_mul_is_commutative(align, x / align);
    vstd::arithmetic::div_mod::lemma_mod_multiples_basic(x / align, align);
}

/// A piece of a block shares no byte with what the block shares none with.
proof fn lemma_piece_disjoint(piece: Block, whole: Block, other: Block)
    requires
        whole.addr <= piece.addr,
        block_end(piece) <= block_end(whole),
        disjoint(whole, other),
    ensures
        disjoint(piece, other),
        disjoint(other, piece),
{
}

/// Facts about the pieces of a carve: the payload sits after the header and
/// padding word of the carved block and inside it, and the pieces are
/// blocks of the heap.
proof fn lemma_carve_pieces(v: HeapView, i: int, size: int, align: int)
    requires
        heap_wf(v),
        0 <= i < v.free.len(),
        fits(v.free[i], size, align),
        size >= 1,
        align >= 1,
    ensures
        ({
            let b = v.free[i];
            let c = carved(v, i, size, align);
            let a = c.live[v.live.len() as int];
            &&& c.live.len() == v.live.len() + 1
            &&& forall|k: int| 0 <= k < v.live.len() ==> #[trigger] c.live[k] == v.live[k]
            &&& allocation_ok(a, v.start, v.end)
            &&& a.payload == payload_in(b, align)
            &&& a.payload + size <= block_end(a.block)
            &&& b.addr <= a.block.addr && block_end(a.block) <= block_end(b)
            &&& total_size(live_blocks(c.live)) == total_size(live_blocks(v.live)) + a.block.size
        }),
{
    let b = v.free[i];
    let payload = payload_in(b, align);
    let need_end = payload + size;
    let c = carved(v, i, size, align);
    lemma_align_up_bounds(b.addr + HEADER_SIZE + HEADER_GAP, align);
    lemma_align_up_bounds(need_end, 8);
    let a = c.live[v.live.len() as int];
    assert(block_ok(b, v.start, v.end));
    lemma_live_push(v.live, a);
    lemma_total_push(live_blocks(v.live), a.block);
}

/// Carving with a tail kept in the block's list position keeps the
/// invariant.
proof fn lemma_carve_split_wf(v: HeapView, i: int, size: int, align: int)
    requires
        heap_wf(v),
        0 <= i < v.free.len(),
        fits(v.free[i], size, align),
        splits(v.free[i], size, align),
        size >= 1,
        align >= 1,
    ensures
        heap_wf(carved(v, i, size, align)),
{
    let b = v.free[i];
    let need_end = payload_in(b, align) + size;
    let tail_addr = align_up_spec(need_end, 8);
    let c = carved(v, i, size, align);
    lemma_carve_pieces(v, i, size, align);
    lemma_align_up_bounds(need_end, 8);
    let taken = c.live[v.live.len() as int].block;
    let tail = Block { addr: tail_addr as usize, size: (block_end(b) - tail_addr) as usize };
    assert(block_ok(b, v.start, v.end));
    assert(c.free == v.free.update(i, tail));
    assert(block_ok(tail, v.start, v.end));
    lemma_total_update(v.free, i, tail);
    assert forall|j: int| 0 <= j < c.free.len() implies block_ok(#[trigger] c.free[j], c.start, c.end) by {
    }
    assert forall|j1: int, j2: int| 0 <= j1 < j2 < c.free.len() implies disjoint(
        #[trigger] c.free[j1],
        #[trigger] c.free[j2],
    ) by {
        if j2 == i {
            lemma_piece_disjoint(tail, b, v.free[j1]);
        } else if j1 == i {
            lemma_piece_disjoint(tail, b, v.free[j2]);
        } else {
            assert(disjoint(v.free[j1], v.free[j2]));
        }
    }
    assert forall|j: int, k: int| 0 <= j < c.free.len() && 0 <= k < c.live.len() implies disjoint(
        #[trigger] c.free[j],
        #[trigger] c.live[k].block,
    ) by {
        if k < v.live.len() {
            if j == i {
                assert(disjoint(v.free[i], v.live[k].block));
                lemma_piece_disjoint(tail, b, v.live[k].block);
            } else {
                assert(disjoint(v.free[j], v.live[k].block));
            }
        } else if j != i {
            if j < i {
                assert(disjoint(v.free[j], b));
            } else {
                assert(disjoint(b, v.free[j]));
            }
            lemma_piece_disjoint(taken, b, v.free[j]);
        }
    }
    lemma_carve_live_wf(v, i, size, align);
}

/// Carving a whole block out of the free list keeps the invariant.
proof fn lemma_carve_whole_wf(v: HeapView, i: int, size: int, align: int)
    requires
        heap_wf(v),
        0 <= i < v.free.len(),
        fits(v.free[i], size, align),
        !splits(v.free[i], size, align),
        size >= 1,
        align >= 1,
    ensures
        heap_wf(carved(v, i, size, align)),
{
    let b = v.free[i];
    let c = carved(v, i, size, align);
    lemma_carve_pieces(v, i, size, align);
    assert(c.free == v.free.remove(i));
    lemma_total_remove(v.free, i);
    assert forall|j: int| 0 <= j < c.free.len() implies block_ok(#[trigger] c.free[j], c.start, c.end) by {
        if j < i {
            assert(c.free[j] == v.free[j]);
        } else {
            assert(c.free[j] == v.free[j + 1]);
        }
    }
    assert forall|j1: int, j2: int| 0 <= j1 < j2 < c.free.len() implies disjoint(
        #[trigger] c.free[j1],
        #[trigger] c.free[j2],
    ) by {
        let o1 = if j1 < i {
            j1
        } else {
            j1 + 1
        };
        let o2 = if j2 < i {
            j2
        } else {
            j2 + 1
        };
        assert(c.free[j1] == v.free[o1]);
        assert(c.free[j2] == v.free[o2]);
        assert(disjoint(v.free[o1], v.free[o2]));
    }
    assert forall|j: int, k: int| 0 <= j < c.free.len() && 0 <= k < c.live.len() implies disjoint(
        #[trigger] c.free[j],
        #[trigger] c.live[k].block,
    ) by {
        let o = if j < i {
            j
        } else {
            j + 1
        };
        assert(c.free[j] == v.free[o]);
        if k < v.live.len() {
            assert(disjoint(v.free[o], v.live[k].block));
        } else if o < i {
            assert(disjoint(v.free[o], v.free[i]));
        } else {
            assert(disjoint(v.free[i], v.free[o]));
        }
    }
    lemma_carve_live_wf(v, i, size, align);
}

/// The carved block joins the allocations without overlapping any of them.
proof fn lemma_carve_live_wf(v: HeapView, i: int, size: int, align: int)
    requires
        heap_wf(v),
        0 <= i < v.free.len(),
        fits(v.free[i], size, align),
        size >= 1,
        align >= 1,
    ensures
        ({
            let c = carved(v, i, size, align);
            &&& forall|k: int|
                0 <= k < c.live.len() ==> allocation_ok(#[trigger] c.live[k], c.start, c.end)
            &&& forall|k: int, l: int|
                0 <= k < l < c.live.len() ==> disjoint(
                    #[trigger] c.live[k].block,
                    #[trigger] c.live[l].block,
                )
        }),
{
    let b = v.free[i];
    let c = carved(v, i, size, align);
    lemma_carve_pieces(v, i, size, align);
    let taken = c.live[v.live.len() as int].block;
    assert forall|k: int| 0 <= k < c.live.len() implies allocation_ok(
        #[trigger] c.live[k],
        c.start,
        c.end,
    ) by {
        if k < v.live.len() {
            assert(c.live[k] == v.live[k]);
        }
    }
    assert forall|k: int, l: int| 0 <= k < l < c.live.len() implies disjoint(
        #[trigger] c.live[k].block,
        #[trigger] c.live[l].block,
    ) by {
        assert(c.live[k] == v.live[k]);
        if l < v.live.len() {
            assert(c.live[l] == v.live[l]);
            assert(disjoint(v.live[k].block, v.live[l].block));
        } else {
            assert(disjoint(v.free[i], v.live[k].block));
            lemma_piece_disjoint(taken, b, v.live[k].block);
        }
    }
}

/// Carving the first fitting block keeps the invariant, and hands out a
/// payload inside the carved block.
proof fn lemma_carve_wf(v: HeapView, i: int, size: int, align: int)
    requires
        heap_wf(v),
        0 <= i < v.free.len(),
        fits(v.free[i], size, align),
        size >= 1,
        align >= 1,
    ensures
        heap_wf(carved(v, i, size, align)),
        carved(v, i, size, align).live.last().payload == payload_in(v.free[i], align),
        carved(v, i, size, align).live.last().payload + size <= block_end(
            carved(v, i, size, align).live.last().block,
        ),
{
    lemma_carve_pieces(v, i, size, align);
    if splits(v.free[i], size, align) {
        lemma_carve_split_wf(v, i, size, align);
    } else {
        lemma_carve_whole_wf(v, i, size, align);
    }
}

/// Eight is a power of two.
proof fn lemma_eight_is_pow2()
    ensures
        is_pow2(8),
{
    reveal(is_pow2);
    assert(is_pow2(1));
    assert(is_pow2(2));
    assert(is_pow2(4));
}

/// `k` is the first outstanding allocation, in record order, whose payload
/// is `p`.
pub open spec fn first_live(live: Seq<Allocation>, p: int, k: int) -> bool {
    &&& 0 <= k < live.len()
    &&& live[k].payload == p
    &&& forall|j: int| 0 <= j < k ==> #[trigger] live[j].payload != p
}

/// Index of the allocation whose payload is `p`.
pub open spec fn live_index(live: Seq<Allocation>, p: int) -> int {
    choose|k: int| first_live(live, p, k)
}

/// `p` is the payload of an outstanding allocation.
pub open spec fn is_live(v: HeapView, p: int) -> bool {
    exists|k: int| 0 <= k < v.live.len() && #[trigger] v.live[k].payload == p
}

/// Index of the last free block, in list order, ending at `a`; -1 if none.
pub open spec fn last_ending_at(free: Seq<Block>, a: int) -> int
    decreases free.len(),
{
    if free.len() == 0 {
        -1
    } else if block_end(free.last()) == a {
        free.len() - 1
    } else {
        last_ending_at(free.drop_last(), a)
    }
}

/// Index of the last free block, in list order, starting at `a`; -1 if
/// none.
pub open spec fn last_starting_at(free: Seq<Block>, a: int) -> int
    decreases free.len(),
{
    if free.len() == 0 {
        -1
    } else if free.last().addr == a {
        free.len() - 1
    } else {
        last_starting_at(free.drop_last(), a)
    }
}

/// The state after the allocation with payload `p` is returned: a free
/// block starting where it ends is folded into it and leaves the list; then
/// a free block ending where it begins grows over it in place, or else the
/// block is prepended to the free list.
pub open spec fn returned(v: HeapView, p: int) -> HeapView {
    let k = live_index(v.live, p);
    let blk = v.live[k].block;
    let r = last_starting_at(v.free, block_end(blk));
    let l = last_ending_at(v.free, blk.addr as int);
    let merged = if r >= 0 {
        blk.size + v.free[r].size
    } else {
        blk.size as int
    };
    let free1 = if r >= 0 {
        v.free.remove(r)
    } else {
        v.free
    };
    let l1 = if r >= 0 && l > r {
        l - 1
    } else {
        l
    };
    let free2 = if l >= 0 {
        free1.update(l1, Block { addr: free1[l1].addr, size: (free1[l1].size + merged) as usize })
    } else {
        free1.insert(0, Block { addr: blk.addr, size: merged as usize })
    };
    HeapView { free: free2, live: v.live.remove(k), ..v }
}

proof fn lemma_last_ending_at(free: Seq<Block>, a: int)
    ensures
        -1 <= last_ending_at(free, a) < free.len(),
        last_ending_at(free, a) >= 0 ==> block_end(free[last_ending_at(free, a)]) == a,
    decreases free.len(),
{
    if free.len() > 0 {
        lemma_last_ending_at(free.drop_last(), a);
    }
}

proof fn lemma_last_starting_at(free: Seq<Block>, a: int)
    ensures
        -1 <= last_starting_at(free, a) < free.len(),
        last_starting_at(free, a) >= 0 ==> free[last_starting_at(free, a)].addr == a,
    decreases free.len(),
{
    if free.len() > 0 {
        lemma_last_starting_at(free.drop_last(), a);
    }
}

/// `-1` for no index.
pub open spec fn index_or_none(o: Option<usize>) -> int {
    match o {
        Some(i) => i as int,
        None => -1,
    }
}

/// Two adjacent blocks joined into one.
pub open spec fn joined(a: Block, b: Block) -> Block {
    Block { addr: a.addr, size: (a.size + b.size) as usize }
}

/// What shares no byte with two adjacent blocks shares none with their
/// union.
proof fn lemma_join_disjoint(a: Block, b: Block, other: Block)
    requires
        block_end(a) == b.addr,
        disjoint(a, other),
        disjoint(b, other),
        other.size > 0,
        a.size + b.size <= usize::MAX,
    ensures
        disjoint(joined(a, b), other),
        disjoint(other, joined(a, b)),
{
}

/// The allocation records without the returned one keep their part of the
/// invariant, and none of them, nor any free block, overlaps the returned
/// block.
proof fn lemma_return_live(v: HeapView, k: int)
    requires
        heap_wf(v),
        0 <= k < v.live.len(),
    ensures
        ({
            let live2 = v.live.remove(k);
            let blk = v.live[k].block;
            &&& total_size(live_blocks(live2)) == total_size(live_blocks(v.live)) - blk.size
            &&& forall|a: int|
                0 <= a < live2.len() ==> allocation_ok(#[trigger] live2[a], v.start, v.end)
            &&& forall|a: int, b: int|
                0 <= a < b < live2.len() ==> disjoint(
                    #[trigger] live2[a].block,
                    #[trigger] live2[b].block,
                )
            &&& forall|a: int| 0 <= a < live2.len() ==> disjoint(#[trigger] live2[a].block, blk)
            &&& forall|j: int| 0 <= j < v.free.len() ==> disjoint(#[trigger] v.free[j], blk)
            &&& forall|j: int, a: int|
                0 <= j < v.free.len() && 0 <= a < live2.len() ==> disjoint(
                    #[trigger] v.free[j],
                    #[trigger] live2[a].block,
                )
        }),
{
    let blk = v.live[k].block;
    let live2 = v.live.remove(k);
    lemma_live_remove(v.live, k);
    lemma_total_remove(live_blocks(v.live), k);
    assert(live_blocks(v.live)[k] == blk);
    assert forall|a: int| 0 <= a < live2.len() implies allocation_ok(
        #[trigger] live2[a],
        v.start,
        v.end,
    ) by {
        if a < k {
            assert(live2[a] == v.live[a]);
        } else {
            assert(live2[a] == v.live[a + 1]);
        }
    }
    assert forall|a: int, b: int| 0 <= a < b < live2.len() implies disjoint(
        #[trigger] live2[a].block,
        #[trigger] live2[b].block,
    ) by {
        let oa = if a < k {
            a
        } else {
            a + 1
        };
        let ob = if b < k {
            b
        } else {
            b + 1
        };
        assert(live2[a] == v.live[oa]);
        assert(live2[b] == v.live[ob]);
        assert(disjoint(v.live[oa].block, v.live[ob].block));
    }
    assert forall|j: int| 0 <= j < v.free.len() implies disjoint(#[trigger] v.free[j], blk) by {
        assert(disjoint(v.free[j], v.live[k].block));
    }
    assert forall|a: int| 0 <= a < live2.len() implies disjoint(#[trigger] live2[a].block, blk) by {
        if a < k {
            assert(live2[a] == v.live[a]);
            assert(disjoint(v.live[a].block, v.live[k].block));
        } else {
            assert(live2[a] == v.live[a + 1]);
            assert(disjoint(v.live[k].block, v.live[a + 1].block));
        }
    }
    assert forall|j: int, a: int| 0 <= j < v.free.len() && 0 <= a < live2.len() implies disjoint(
        #[trigger] v.free[j],
        #[trigger] live2[a].block,
    ) by {
        let oa = if a < k {
            a
        } else {
            a + 1
        };
        assert(live2[a] == v.live[oa]);
        assert(disjoint(v.free[j], v.live[oa].block));
    }
}

/// Folding the free block that starts where the returned block ends into
/// it: the other free blocks keep their part of the invariant and stay
/// clear of the merged block.
proof fn lemma_return_right(v: HeapView, blk: Block, r: int, live2: Seq<Allocation>)
    requires
        heap_wf(v),
        block_ok(blk, v.start, v.end),
        -1 <= r < v.free.len(),
        r >= 0 ==> v.free[r].addr == block_end(blk),
        forall|j: int| 0 <= j < v.free.len() ==> disjoint(#[trigger] v.free[j], blk),
        forall|a: int| 0 <= a < live2.len() ==> disjoint(#[trigger] live2[a].block, blk),
        forall|a: int| 0 <= a < live2.len() ==> block_ok(#[trigger] live2[a].block, v.start, v.end),
        forall|j: int, a: int|
            0 <= j < v.free.len() && 0 <= a < live2.len() ==> disjoint(
                #[trigger] v.free[j],
                #[trigger] live2[a].block,
            ),
    ensures
        ({
            let merged = if r >= 0 {
                joined(blk, v.free[r])
            } else {
                blk
            };
            let free1 = if r >= 0 {
                v.free.remove(r)
            } else {
                v.free
            };
            &&& merged.addr == blk.addr
            &&& merged.size == (if r >= 0 {
                blk.size + v.free[r].size
            } else {
                blk.size as int
            })
            &&& block_ok(merged, v.start, v.end)
            &&& total_size(free1) + merged.size == total_size(v.free) + blk.size
            &&& forall|j: int| 0 <= j < free1.len() ==> block_ok(#[trigger] free1[j], v.start, v.end)
            &&& forall|j: int| 0 <= j < free1.len() ==> disjoint(#[trigger] free1[j], merged)
            &&& forall|a: int| 0 <= a < live2.len() ==> disjoint(#[trigger] live2[a].block, merged)
            &&& forall|j1: int, j2: int|
                0 <= j1 < j2 < free1.len() ==> disjoint(#[trigger] free1[j1], #[trigger] free1[j2])
            &&& forall|j: int, a: int|
                0 <= j < free1.len() && 0 <= a < live2.len() ==> disjoint(
                    #[trigger] free1[j],
                    #[trigger] live2[a].block,
                )
        }),
{
    let merged = if r >= 0 {
        joined(blk, v.free[r])
    } else {
        blk
    };
    let free1 = if r >= 0 {
        v.free.remove(r)
    } else {
        v.free
    };
    if r >= 0 {
        lemma_total_remove(v.free, r);
        assert(block_ok(v.free[r], v.start, v.end));
    }
    assert(block_ok(merged, v.start, v.end));
    assert forall|j: int| 0 <= j < free1.len() implies block_ok(#[trigger] free1[j], v.start, v.end)
        && disjoint(free1[j], merged) by {
        let o = if r >= 0 && j >= r {
            j + 1
        } else {
            j
        };
        assert(free1[j] == v.free[o]);
        assert(block_ok(v.free[o], v.start, v.end));
        assert(disjoint(v.free[o], blk));
        if r >= 0 {
            if o < r {
                assert(disjoint(v.free[o], v.free[r]));
            } else {
                assert(disjoint(v.free[r], v.free[o]));
            }
            lemma_join_disjoint(blk, v.free[r], free1[j]);
        }
    }
    assert forall|a: int| 0 <= a < live2.len() implies disjoint(#[trigger] live2[a].block, merged) by {
        assert(disjoint(live2[a].block, blk));
        if r >= 0 {
            assert(disjoint(v.free[r], live2[a].block));
            assert(block_ok(live2[a].block, v.start, v.end));
            lemma_join_disjoint(blk, v.free[r], live2[a].block);
        }
    }
    assert forall|j1: int, j2: int| 0 <= j1 < j2 < free1.len() implies disjoint(
        #[trigger] free1[j1],
        #[trigger] free1[j2],
    ) by {
        let o1 = if r >= 0 && j1 >= r {
            j1 + 1
        } else {
            j1
        };
        let o2 = if r >= 0 && j2 >= r {
            j2 + 1
        } else {
            j2
        };
        assert(free1[j1] == v.free[o1]);
        assert(free1[j2] == v.free[o2]);
        assert(disjoint(v.free[o1], v.free[o2]));
    }
    assert forall|j: int, a: int| 0 <= j < free1.len() && 0 <= a < live2.len() implies disjoint(
        #[trigger] free1[j],
        #[trigger] live2[a].block,
    ) by {
        let o = if r >= 0 && j >= r {
            j + 1
        } else {
            j
        };
        assert(free1[j] == v.free[o]);
        assert(disjoint(v.free[o], live2[a].block));
    }
}

/// Returning an allocation keeps the invariant.
proof fn lemma_return_wf(v: HeapView, p: int)
    requires
        heap_wf(v),
        is_live(v, p),
    ensures
        heap_wf(returned(v, p)),
{
    let k0 = choose|k: int| 0 <= k < v.live.len() && #[trigger] v.live[k].payload == p;
    lemma_first_live_exists(v.live, p, k0);
    let k = live_index(v.live, p);
    let blk = v.live[k].block;
    let r = last_starting_at(v.free, block_end(blk));
    lemma_last_starting_at(v.free, block_end(blk));
    assert(allocation_ok(v.live[k], v.start, v.end));
    let live2 = v.live.remove(k);
    lemma_return_live(v, k);
    assert forall|a: int| 0 <= a < live2.len() implies block_ok(
        #[trigger] live2[a].block,
        v.start,
        v.end,
    ) by {
        assert(allocation_ok(live2[a], v.start, v.end));
    }
    lemma_return_right(v, blk, r, live2);
    let merged = if r >= 0 {
        joined(blk, v.free[r])
    } else {
        blk
    };
    let free1 = if r >= 0 {
        v.free.remove(r)
    } else {
        v.free
    };
    lemma_return_place(v, p, free1, merged, live2);
}

/// Placing the merged block, grown into its left neighbor or prepended,
/// completes the invariant.
proof fn lemma_return_place(
    v: HeapView,
    p: int,
    free1: Seq<Block>,
    merged: Block,
    live2: Seq<Allocation>,
)
    requires
        heap_wf(v),
        is_live(v, p),
        ({
            let k = live_index(v.live, p);
            let blk = v.live[k].block;
            let r = last_starting_at(v.free, block_end(blk));
            &&& first_live(v.live, p, k)
            &&& live2 == v.live.remove(k)
            &&& free1 == (if r >= 0 {
                v.free.remove(r)
            } else {
                v.free
            })
            &&& merged == (if r >= 0 {
                joined(blk, v.free[r])
            } else {
                blk
            })
            &&& -1 <= r < v.free.len()
            &&& r >= 0 ==> v.free[r].addr == block_end(blk)
        }),
        block_ok(merged, v.start, v.end),
        total_size(free1) + merged.size + total_size(live_blocks(live2)) == v.end - v.start,
        forall|j: int| 0 <= j < free1.len() ==> block_ok(#[trigger] free1[j], v.start, v.end),
        forall|j: int| 0 <= j < free1.len() ==> disjoint(#[trigger] free1[j], merged),
        forall|a: int| 0 <= a < live2.len() ==> disjoint(#[trigger] live2[a].block, merged),
        forall|j1: int, j2: int|
            0 <= j1 < j2 < free1.len() ==> disjoint(#[trigger] free1[j1], #[trigger] free1[j2]),
        forall|j: int, a: int|
            0 <= j < free1.len() && 0 <= a < live2.len() ==> disjoint(
                #[trigger] free1[j],
                #[trigger] live2[a].block,
            ),
        forall|a: int| 0 <= a < live2.len() ==> allocation_ok(#[trigger] live2[a], v.start, v.end),
        forall|a: int, b: int|
            0 <= a < b < live2.len() ==> disjoint(#[trigger] live2[a].block, #[trigger] live2[b].block),
    ensures
        heap_wf(returned(v, p)),
{
    let k = live_index(v.live, p);
    let blk = v.live[k].block;
    let r = last_starting_at(v.free, block_end(blk));
    let l = last_ending_at(v.free, blk.addr as int);
    lemma_last_ending_at(v.free, blk.addr as int);
    let l1 = if r >= 0 && l > r {
        l - 1
    } else {
        l
    };
    let out = returned(v, p);
    assert(out.live == live2);
    if l >= 0 {
        // The left neighbor is not the right one: it ends where `blk` starts.
        assert(allocation_ok(v.live[k], v.start, v.end));
        assert(l != r);
        assert(free1[l1] == v.free[l]);
        let grown = joined(free1[l1], merged);
        assert(out.free == free1.update(l1, grown));
        lemma_total_update(free1, l1, grown);
        assert(block_ok(grown, v.start, v.end));
        assert forall|j: int| 0 <= j < out.free.len() implies block_ok(
            #[trigger] out.free[j],
            out.start,
            out.end,
        ) by {}
        assert forall|j1: int, j2: int| 0 <= j1 < j2 < out.free.len() implies disjoint(
            #[trigger] out.free[j1],
            #[trigger] out.free[j2],
        ) by {
            if j1 == l1 {
                assert(disjoint(free1[l1], free1[j2]));
                lemma_join_disjoint(free1[l1], merged, free1[j2]);
            } else if j2 == l1 {
                assert(disjoint(free1[j1], free1[l1]));
                lemma_join_disjoint(free1[l1], merged, free1[j1]);
            }
        }
        assert forall|j: int, a: int| 0 <= j < out.free.len() && 0 <= a < out.live.len() implies disjoint(
            #[trigger] out.free[j],
            #[trigger] out.live[a].block,
        ) by {
            if j == l1 {
                assert(disjoint(free1[l1], live2[a].block));
                lemma_join_disjoint(free1[l1], merged, live2[a].block);
            }
        }
    } else {
        let front = merged;
        assert(out.free == free1.insert(0, front));
        lemma_total_insert_front(free1, front);
        assert forall|j: int| 0 <= j < out.free.len() implies block_ok(
            #[trigger] out.free[j],
            out.start,
            out.end,
        ) by {
            if j > 0 {
                assert(out.free[j] == free1[j - 1]);
            }
        }
        assert forall|j1: int, j2: int| 0 <= j1 < j2 < out.free.len() implies disjoint(
            #[trigger] out.free[j1],
            #[trigger] out.free[j2],
        ) by {
            assert(out.free[j2] == free1[j2 - 1]);
            if j1 > 0 {
                assert(out.free[j1] == free1[j1 - 1]);
            } else {
                assert(disjoint(free1[j2 - 1], merged));
            }
        }
        assert forall|j: int, a: int| 0 <= j < out.free.len() && 0 <= a < out.live.len() implies disjoint(
            #[trigger] out.free[j],
            #[trigger] out.live[a].block,
        ) by {
            if j > 0 {
                assert(out.free[j] == free1[j - 1]);
            } else {
                assert(disjoint(live2[a].block, merged));
            }
        }
    }
}

/// The first allocation with a given payload exists when one does, and is
/// the one [`live_index`] names.
proof fn lemma_first_live_exists(live: Seq<Allocation>, p: int, w: int)
    requires
        0 <= w < live.len(),
        live[w].payload == p,
    ensures
        first_live(live, p, live_index(live, p)),
    decreases w,
{
    if exists|j: int| 0 <= j < w && #[trigger] live[j].payload == p {
        let j = choose|j: int| 0 <= j < w && #[trigger] live[j].payload == p;
        lemma_first_live_exists(live, p, j);
    } else {
        assert(first_live(live, p, w));
    }
}

/// The first allocation with a given payload is unique.
proof fn lemma_first_live_unique(live: Seq<Allocation>, p: int, k1: int, k2: int)
    requires
        first_live(live, p, k1),
        first_live(live, p, k2),
    ensures
        k1 == k2,
{
    if k1 < k2 {
        assert(live[k1].payload != p);
    } else if k2 < k1 {
        assert(live[k2].payload != p);
    }
}

/// Block allocator state.
pub struct Heap {
    free: Vec<Block>,
    live: Vec<Allocation>,
    start: usize,
    end: usize,
}

impl View for Heap {
    type V = HeapView;

    closed spec fn view(&self) -> HeapView {
        HeapView {
            free: self.free@,
            live: self.live@,
            start: self.start as int,
            end: self.end as int,
        }
    }
}

/// Once every allocation is returned, the free list holds the whole region.
pub proof fn lemma_all_returned(v: HeapView)
    requires
        heap_wf(v),
        v.live.len() == 0,
    ensures
        total_size(v.free) == v.end - v.start,
{
    assert(live_blocks(v.live) =~= Seq::<Block>::empty());
}

/// Freeing an allocation right after it was carved gives back every byte it
/// took: the outstanding allocations are as they were, and the free list
/// holds as many bytes as before.
pub proof fn lemma_allocate_then_free(v: HeapView, i: int, size: int, align: int)
    requires
        heap_wf(v),
        first_fit(v.free, size, align, i),
        size >= 1,
        align >= 1,
    ensures
        is_live(carved(v, i, size, align), payload_in(v.free[i], align)),
        returned(carved(v, i, size, align), payload_in(v.free[i], align)).live == v.live,
        total_size(returned(carved(v, i, size, align), payload_in(v.free[i], align)).free) == total_size(
            v.free,
        ),
{
    let c = carved(v, i, size, align);
    let p = payload_in(v.free[i], align);
    let b = v.free[i];
    lemma_carve_wf(v, i, size, align);
    let last = c.live.len() - 1;
    assert(c.live[last].payload == p);
    assert forall|j: int| 0 <= j < last implies #[trigger] c.live[j].payload != p by {
        assert(c.live[j] == v.live[j]);
        assert(allocation_ok(v.live[j], v.start, v.end));
        assert(disjoint(b, v.live[j].block));
        assert(b.addr + HEADER_SIZE + HEADER_GAP <= p) by {
            lemma_align_up_bounds(b.addr + HEADER_SIZE + HEADER_GAP, align);
        }
    }
    assert(first_live(c.live, p, last));
    lemma_first_live_exists(c.live, p, last);
    lemma_first_live_unique(c.live, p, last, live_index(c.live, p));
    assert(c.live.remove(last) =~= v.live);
    lemma_return_wf(c, p);
}

impl Heap {
    /// An allocator with no region yet: nothing can be allocated.
    pub fn new() -> (h: Self)
        ensures
            heap_wf(h@),
            h@.free.len() == 0,
            h@.live.len() == 0,
            h@.start == 0,
            h@.end == 0,
    {
        let h = Heap { free: Vec::new(), live: Vec::new(), start: 0, end: 0 };
        assert(live_blocks(h@.live) =~= Seq::<Block>::empty());
        h
    }

    /// Replaces the free list with one free block that begins at `start`
    /// rounded up to 8 and ends `size` bytes later, rounded down to 8; false,
    /// with nothing changed, when that wraps the address space or leaves
    /// less than [`MIN_BLOCK`] bytes.
    pub fn init(&mut self, start: usize, size: usize) -> (ok: bool)
        requires
            start + 7 <= usize::MAX,
        ensures
            ({
                let s = align_up_spec(start as int, 8);
                let e = (s + size) - (s + size) % 8;
                &&& ok == (s + size <= usize::MAX && e - s >= MIN_BLOCK)
                &&& ok ==> final(self)@ == (HeapView {
                    free: seq![Block { addr: s as usize, size: (e - s) as usize }],
                    live: Seq::empty(),
                    start: s,
                    end: e,
                })
                &&& !ok ==> final(self)@ == old(self)@
            }),
            ok ==> heap_wf(final(self)@),
    {
        proof {
            lemma_eight_is_pow2();
        }
        let start = align_up(start, 8);
        let end = match start.checked_add(size) {
            Some(e) => e,
            None => {
                return false;
            },
        };
        assert(end & !7usize == end - end % 8) by (bit_vector);
        let trimmed = end & !7;
        let size = trimmed - start;
        if size < MIN_BLOCK {
            return false;
        }
        let mut free = Vec::new();
        free.push(Block { addr: start, size });
        self.free = free;
        self.live = Vec::new();
        self.start = start;
        self.end = trimmed;
        proof {
            assert(live_blocks(self@.live) =~= Seq::<Block>::empty());
            assert(self@.free =~= seq![Block { addr: start, size }]);
            assert(self@.free.drop_last() =~= Seq::<Block>::empty());
        }
        true
    }

    /// Allocates `size` bytes aligned to `align` from the first free block
    /// that fits, splitting off a tail worth keeping; `None` when no free
    /// block fits. Zero-size requests get a real block so every returned
    /// payload is distinct.
    pub fn allocate(&mut self, size: usize, align: usize) -> (r: Option<usize>)
        requires
            heap_wf(old(self)@),
            is_pow2(align as int),
            old(self)@.end + align + HEADER_SIZE + HEADER_GAP <= usize::MAX,
        ensures
            heap_wf(final(self)@),
            match r {
                Some(p) => exists|i: int|
                    #![trigger first_fit(old(self)@.free, request_size(size), align as int, i)]
                    first_fit(old(self)@.free, request_size(size), align as int, i) && p
                        == payload_in(old(self)@.free[i], align as int) && final(self)@ == carved(
                        old(self)@,
                        i,
                        request_size(size),
                        align as int,
                    ),
                None => final(self)@ == old(self)@ && forall|i: int|
                    0 <= i < old(self)@.free.len() ==> !fits(
                        #[trigger] old(self)@.free[i],
                        request_size(size),
                        align as int,
                    ),
            },
            r matches Some(p) ==> p % align == 0 && final(self)@.live.last().payload == p && p
                + request_size(size) <= block_end(final(self)@.live.last().block),
    {
        let req = if size == 0 {
            1
        } else {
            size
        };
        proof {
            vstd::arithmetic::power2::is_pow2_equiv(align as int);
            let k = choose|e: nat| vstd::arithmetic::power::pow(2, e) == align as int;
            vstd::arithmetic::power::lemma_pow_positive(2, k);
        }
        let ghost before = self@;
        let mut i: usize = 0;
        while i < self.free.len()
            invariant
                heap_wf(before),
                self@ == before,
                before == old(self)@,
                is_pow2(align as int),
                align >= 1,
                req == request_size(size),
                before.end + align + HEADER_SIZE + HEADER_GAP <= usize::MAX,
                0 <= i <= before.free.len(),
                forall|j: int| 0 <= j < i ==> !fits(#[trigger] before.free[j], req as int, align as int),
            decreases before.free.len() - i,
        {
            let block = self.free[i];
            assert(block_ok(before.free[i as int], before.start, before.end));
            let payload = align_up(block.addr + HEADER_SIZE + HEADER_GAP, align);
            if let Some(need_end) = payload.checked_add(req) {
                if need_end <= block.addr + block.size {
                    proof {
                        lemma_align_up_bounds(block.addr + HEADER_SIZE + HEADER_GAP, align as int);
                        lemma_carve_wf(before, i as int, req as int, align as int);
                        lemma_eight_is_pow2();
                    }
                    let head_pad = payload - (block.addr + HEADER_SIZE);
                    let block_end = block.addr + block.size;
                    let tail = block_end - need_end;
                    let split = tail >= MIN_BLOCK && block_end - align_up(need_end, 8) >= MIN_BLOCK;
                    let taken = if split {
                        let tail_addr = align_up(need_end, 8);
                        self.free.set(i, Block { addr: tail_addr, size: block_end - tail_addr });
                        Block { addr: block.addr, size: tail_addr - block.addr }
                    } else {
                        let _ = self.free.remove(i);
                        block
                    };
                    self.live.push(Allocation { payload, block: taken, head_pad });
                    assert(first_fit(before.free, req as int, align as int, i as int));
                    assert(self@ == carved(before, i as int, req as int, align as int));
                    return Some(payload);
                }
            }
            i = i + 1;
        }
        None
    }

    /// Index of the first outstanding allocation with payload `payload`:
    /// the record of the padding word kept below it.
    fn find_live(&self, payload: usize) -> (k: usize)
        requires
            is_live(self@, payload as int),
        ensures
            first_live(self@.live, payload as int, k as int),
    {
        let ghost w = choose|k: int| 0 <= k < self@.live.len() && #[trigger] self@.live[k].payload
            == payload as int;
        let mut k: usize = 0;
        while k < self.live.len()
            invariant
                0 <= k <= self@.live.len(),
                0 <= w < self@.live.len(),
                self@.live[w].payload == payload,
                forall|j: int| 0 <= j < k ==> #[trigger] self@.live[j].payload != payload,
            decreases self@.live.len() - k,
        {
            if self.live[k].payload == payload {
                return k;
            }
            k = k + 1;
        }
        assert(self@.live[w].payload != payload);
        0
    }

    /// Returns the allocation whose payload is `ptr` to the free list,
    /// coalescing it with adjacent free neighbors; a null `ptr` (0) is
    /// ignored.
    pub fn dealloc(&mut self, ptr: usize)
        requires
            heap_wf(old(self)@),
            ptr == 0 || is_live(old(self)@, ptr as int),
        ensures
            heap_wf(final(self)@),
            final(self)@ == if ptr == 0 {
                old(self)@
            } else {
                returned(old(self)@, ptr as int)
            },
    {
        if ptr == 0 {
            return;
        }
        let ghost before = self@;
        proof {
            lemma_return_wf(before, ptr as int);
        }
        let payload = ptr;
        let k = self.find_live(payload);
        proof {
            lemma_first_live_exists(before.live, ptr as int, k as int);
            lemma_first_live_unique(before.live, ptr as int, k as int, live_index(before.live, ptr as int));
            assert(allocation_ok(before.live[k as int], before.start, before.end));
        }
        if payload < self.start + HEADER_SIZE || payload >= self.end {
            return;
        }
        // The padding word below the payload leads back to the header.
        let offset = self.live[k].head_pad;
        let block_addr = payload - HEADER_SIZE - offset;
        if block_addr < self.start || block_addr >= self.end {
            return;
        }
        let block_size = self.live[k].block.size;
        let block_end = block_addr + block_size;
        let mut left: Option<usize> = None;
        let mut right: Option<usize> = None;
        let mut i: usize = 0;
        proof {
            assert(before.free.take(0) =~= Seq::<Block>::empty());
        }
        while i < self.free.len()
            invariant
                self@ == before,
                heap_wf(before),
                0 <= i <= before.free.len(),
                index_or_none(left) == last_ending_at(before.free.take(i as int), block_addr as int),
                index_or_none(right) == last_starting_at(before.free.take(i as int), block_end as int),
            decreases before.free.len() - i,
        {
            let node = self.free[i];
            proof {
                assert(before.free.take(i + 1).drop_last() =~= before.free.take(i as int));
                assert(block_ok(before.free[i as int], before.start, before.end));
            }
            if node.addr + node.size == block_addr {
                left = Some(i);
            }
            if node.addr == block_end {
                right = Some(i);
            }
            i = i + 1;
        }
        proof {
            assert(before.free.take(i as int) =~= before.free);
            lemma_last_ending_at(before.free, block_addr as int);
            lemma_last_starting_at(before.free, block_end as int);
            assert(block_ok(before.live[k as int].block, before.start, before.end));
        }
        let _ = self.live.remove(k);
        let mut merged = block_size;
        let mut left_pos = left;
        if let Some(r) = right {
            assert(block_ok(before.free[r as int], before.start, before.end));
            merged = merged + self.free[r].size;
            let _ = self.free.remove(r);
            if let Some(l) = left {
                if l > r {
                    left_pos = Some(l - 1);
                }
            }
        }
        if let Some(l) = left_pos {
            let node = self.free[l];
            assert(block_ok(before.free[index_or_none(left)], before.start, before.end));
            self.free.set(l, Block { addr: node.addr, size: node.size + merged });
            return;
        }
        self.free.insert(0, Block { addr: block_addr, size: merged });
    }

    /// The block of the outstanding allocation with payload `payload`,
    /// found as the allocator finds it when freeing; `None` when no
    /// allocation has that payload.
    pub fn block_of(&self, payload: usize) -> (r: Option<Block>)
        requires
            heap_wf(self@),
        ensures
            match r {
                Some(b) => exists|k: int|
                    0 <= k < self@.live.len() && #[trigger] self@.live[k].payload == payload
                        && self@.live[k].block == b,
                None => !is_live(self@, payload as int),
            },
    {
        let mut k: usize = 0;
        while k < self.live.len()
            invariant
                heap_wf(self@),
                0 <= k <= self@.live.len(),
                forall|j: int| 0 <= j < k ==> #[trigger] self@.live[j].payload != payload,
            decreases self@.live.len() - k,
        {
            let a = self.live[k];
            if a.payload == payload {
                assert(allocation_ok(self@.live[k as int], self@.start, self@.end));
                let addr = payload - HEADER_SIZE - a.head_pad;
                return Some(Block { addr, size: a.block.size });
            }
            k = k + 1;
        }
        None
    }

    /// Sum of every free block's size.
    pub fn free_bytes(&self) -> (n: usize)
        requires
            heap_wf(self@),
        ensures
            n == total_size(self@.free),
    {
        let mut total: usize = 0;
        let mut i: usize = 0;
        proof {
            lemma_total_nonneg(live_blocks(self@.live));
            assert(self@.free.take(0) =~= Seq::<Block>::empty());
        }
        while i < self.free.len()
            invariant
                heap_wf(self@),
                0 <= i <= self@.free.len(),
                total == total_size(self@.free.take(i as int)),
                total_size(self@.free) <= usize::MAX,
            decreases self@.free.len() - i,
        {
            proof {
                lemma_total_take(self@.free, i as int);
                lemma_total_prefix(self@.free, i as int + 1);
            }
            total = total + self.free[i].size;
            i = i + 1;
        }
        proof {
            assert(self@.free.take(i as int) =~= self@.free);
        }
        total
    }

    /// The free list, head first.
    pub fn free_blocks(&self) -> (b: &[Block])
        ensures
            b@ == self@.free,
    {
        self.free.as_slice()
    }

    /// Start of the managed region.
    pub fn start(&self) -> (s: usize)
        ensures
            s == self@.start,
    {
        self.start
    }

    /// End of the managed region.
    pub fn end(&self) -> (e: usize)
        ensures
            e == self@.end,
    {
        self.end
    }
}

/// A memory-map entry the heap can live in: usable, and large enough for a
/// block.
pub open spec fn heap_candidate(e: MemmapEntry) -> bool {
    e.entry_type == MEMMAP_USABLE && e.length >= MIN_BLOCK
}

/// The region the kernel heap is installed in: the largest usable entry of
/// the memory map (the first of equals), at its direct-map address `base +
/// hhdm`; `None` when no entry is usable.
pub fn best_heap_region(entries: &[MemmapEntry], hhdm: u64) -> (r: Option<(u64, u64)>)
    requires
        forall|i: int|
            0 <= i < entries@.len() && heap_candidate(#[trigger] entries@[i]) ==> entries@[i].base
                + hhdm <= u64::MAX,
    ensures
        r is None <==> forall|i: int| 0 <= i < entries@.len() ==> !heap_candidate(#[trigger] entries@[i]),
        r matches Some(region) ==> exists|i: int|
            #![trigger entries@[i]]
            0 <= i < entries@.len() && heap_candidate(entries@[i]) && region == (
                (entries@[i].base + hhdm) as u64,
                entries@[i].length,
            ) && (forall|j: int|
                0 <= j < entries@.len() && heap_candidate(#[trigger] entries@[j])
                    ==> entries@[j].length <= entries@[i].length) && (forall|j: int|
                0 <= j < i && heap_candidate(#[trigger] entries@[j]) ==> entries@[j].length
                    < entries@[i].length),
{
    let mut best: Option<(u64, u64)> = None;
    let ghost mut best_index: int = -1;
    let mut k: usize = 0;
    while k < entries.len()
        invariant
            0 <= k <= entries@.len(),
            forall|i: int|
                0 <= i < entries@.len() && heap_candidate(#[trigger] entries@[i]) ==> entries@[i].base
                    + hhdm <= u64::MAX,
            best is None <==> forall|i: int| 0 <= i < k ==> !heap_candidate(#[trigger] entries@[i]),
            best is None ==> best_index == -1,
            best matches Some(region) ==> ({
                &&& 0 <= best_index < k
                &&& heap_candidate(entries@[best_index])
                &&& region == ((entries@[best_index].base + hhdm) as u64, entries@[best_index].length)
                &&& forall|j: int|
                    0 <= j < k && heap_candidate(#[trigger] entries@[j]) ==> entries@[j].length
                        <= entries@[best_index].length
                &&& forall|j: int|
                    0 <= j < best_index && heap_candidate(#[trigger] entries@[j])
                        ==> entries@[j].length < entries@[best_index].length
            }),
        decreases entries@.len() - k,
    {
        let entry = entries[k];
        if entry.entry_type == MEMMAP_USABLE && entry.length >= MIN_BLOCK as u64 {
            let len = entry.length;
            let better = match best {
                None => true,
                Some((_, best_len)) => len > best_len,
            };
            if better {
                best = Some((entry.base + hhdm, len));
                proof {
                    best_index = k as int;
                }
            }
        }
        k = k + 1;
    }
    proof {
        if best is Some {
            assert(heap_candidate(entries@[best_index]));
        }
    }
    best
}

} // verus!
