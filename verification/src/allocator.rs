//! Heap arena: a monotonic bump allocator over a fixed-size region.

use vstd::arithmetic::power2::{
    is_pow2, is_pow2_equiv, lemma2_to64, lemma_pow2_pos, lemma_pow2_strictly_increases, pow2,
};
use vstd::arithmetic::div_mod::{
    lemma_mod_add_multiples_vanish, lemma_mod_equivalence, lemma_mod_pos_bound, lemma_small_mod,
};
use vstd::bits::{lemma_u64_low_bits_mask_is_mod, low_bits_mask};
use vstd::prelude::*;

verus! {

/// Number of bytes the arena manages.
pub const HEAP_SIZE: usize = 10000 * 1024;

/// `align` is a power of two.
pub open spec fn is_power_of_two(align: usize) -> bool {
    is_pow2(align as int)
}

/// A power of two is positive.
pub proof fn lemma_power_of_two_positive(align: usize)
    requires
        is_power_of_two(align),
    ensures
        align > 0,
{
    reveal(is_pow2);
}

/// Whether `align` is a power of two.
pub fn is_valid_align(align: usize) -> (valid: bool)
    ensures
        valid == is_power_of_two(align),
{
    if align == 0 {
        proof {
            reveal(is_pow2);
        }
        return false;
    }
    let mut rest: usize = align;
    while rest % 2 == 0
        invariant
            rest > 0,
            is_pow2(rest as int) == is_pow2(align as int),
        decreases rest,
    {
        proof {
            reveal(is_pow2);
        }
        rest = rest / 2;
    }
    proof {
        reveal(is_pow2);
    }
    rest == 1
}

/// Masking with a power of two less one takes the remainder.
proof fn lemma_mask_is_remainder(addr: usize, align: usize)
    requires
        is_power_of_two(align),
    ensures
        align > 0,
        addr & ((align - 1) as usize) == addr % align,
{
    is_pow2_equiv(align as int);
    let n: nat = choose|n: nat| vstd::arithmetic::power::pow(2, n) == align as int;
    assert(pow2(n) == align);
    lemma_pow2_pos(n);
    lemma2_to64();
    if n >= 64 {
        if n > 64 {
            lemma_pow2_strictly_increases(64, n);
        }
        assert(false);
    }
    lemma_u64_low_bits_mask_is_mod(addr as u64, n);
    assert(low_bits_mask(n) as u64 == (align - 1) as u64);
}

/// The least multiple of `align` that is not below `addr`.
pub open spec fn align_up(addr: int, align: int) -> int {
    if addr % align == 0 {
        addr
    } else {
        addr + align - addr % align
    }
}

/// `align_up` yields a multiple of `align` in `[addr, addr + align)`.
pub proof fn lemma_align_up(addr: int, align: int)
    requires
        addr >= 0,
        align > 0,
    ensures
        align_up(addr, align) % align == 0,
        addr <= align_up(addr, align) < addr + align,
{
    let r = addr % align;
    lemma_mod_pos_bound(addr, align);
    if r != 0 {
        lemma_small_mod(r as nat, align as nat);
        lemma_mod_equivalence(addr, r, align);
        lemma_mod_add_multiples_vanish(addr - r, align);
    }
}

/// No multiple of `align` lies between `addr` and `align_up(addr, align)`.
pub proof fn lemma_align_up_least(addr: int, align: int, m: int)
    requires
        addr >= 0,
        align > 0,
        addr <= m,
        m % align == 0,
    ensures
        align_up(addr, align) <= m,
{
    lemma_align_up(addr, align);
    let up = align_up(addr, align);
    if m < up {
        lemma_mod_equivalence(up, m, align);
        lemma_small_mod((up - m) as nat, align as nat);
    }
}

/// Where a request made at `cursor` would start: the first aligned address
/// at or after the unused part of the arena.
pub open spec fn alloc_start(base: int, cursor: int, align: int) -> int {
    align_up(base + cursor, align)
}

/// One past the last address the arena may hand out: the end of its region,
/// cut off at the end of the address space.
pub open spec fn arena_limit(base: int) -> int {
    if base + HEAP_SIZE <= usize::MAX {
        base + HEAP_SIZE
    } else {
        usize::MAX as int
    }
}

/// Whether a request made at `cursor` fits into what is left of the arena.
pub open spec fn alloc_fits(base: int, cursor: int, size: int, align: int) -> bool {
    alloc_start(base, cursor, align) + size <= arena_limit(base)
}

/// The cursor after a request made at `cursor`: just past the new block if
/// the request fits, unchanged if not.
pub open spec fn cursor_after(base: int, cursor: int, size: int, align: int) -> int {
    if alloc_fits(base, cursor, size, align) {
        alloc_start(base, cursor, align) + size - base
    } else {
        cursor
    }
}

/// The bump allocator: a base address and the number of bytes handed out so
/// far, padding included.
pub struct Allocator {
    heap_start: usize,
    offset: usize,
}

impl Allocator {
    #[verifier::type_invariant]
    spec fn inv(self) -> bool {
        self.offset <= HEAP_SIZE
    }

    /// Address of the first byte of the arena.
    pub closed spec fn base(&self) -> int {
        self.heap_start as int
    }

    /// Bytes consumed so far, counted from the base.
    pub closed spec fn cursor(&self) -> int {
        self.offset as int
    }

    /// Address of the first byte of the arena.
    pub fn heap_start(&self) -> (base: usize)
        ensures
            base == self.base(),
    {
        self.heap_start
    }

    /// Bytes consumed so far, counted from the base.
    pub fn offset(&self) -> (cursor: usize)
        ensures
            cursor == self.cursor(),
            cursor <= HEAP_SIZE,
    {
        proof {
            use_type_invariant(self);
        }
        self.offset
    }

    /// Hands out `size` bytes aligned to `align`, or `None` when they do not
    /// fit; a failed request changes nothing.
    pub fn allocate(&mut self, size: usize, align: usize) -> (block: Option<usize>)
        requires
            is_power_of_two(align),
        ensures
            final(self).base() == old(self).base(),
            final(self).cursor() == cursor_after(
                old(self).base(),
                old(self).cursor(),
                size as int,
                align as int,
            ),
            block == if alloc_fits(old(self).base(), old(self).cursor(), size as int, align as int) {
                Some(alloc_start(old(self).base(), old(self).cursor(), align as int) as usize)
            } else {
                None
            },
            old(self).cursor() <= final(self).cursor() <= HEAP_SIZE,
            block matches Some(addr) ==> {
                &&& addr % align == 0
                &&& old(self).base() + old(self).cursor() <= addr
                &&& addr + size == final(self).base() + final(self).cursor()
            },
    {
        proof {
            use_type_invariant(&*self);
            lemma_power_of_two_positive(align);
            lemma_align_up(self.base() + self.cursor(), align as int);
        }
        let top: usize = match self.heap_start.checked_add(self.offset) {
            Some(top) => top,
            None => {
                return None;
            },
        };
        let mask: usize = align - 1;
        let rem: usize = top & mask;
        proof {
            lemma_mask_is_remainder(top, align);
        }
        let start: usize = if rem == 0 {
            top
        } else {
            match top.checked_add(align - rem) {
                Some(start) => start,
                None => {
                    return None;
                },
            }
        };
        let end: usize = match start.checked_add(size) {
            Some(end) => end,
            None => {
                return None;
            },
        };
        let limit: usize = match self.heap_start.checked_add(HEAP_SIZE) {
            Some(limit) => limit,
            None => usize::MAX,
        };
        if end > limit {
            return None;
        }
        self.offset = end - self.heap_start;
        Some(start)
    }

    /// Releasing memory reclaims nothing: the arena stays as it is, and the
    /// address is handed back for the caller to report.
    pub fn dealloc(&mut self, ptr: usize, size: usize, align: usize) -> (reported: usize)
        ensures
            final(self).base() == old(self).base(),
            final(self).cursor() == old(self).cursor(),
            reported == ptr,
    {
        ptr
    }
}

/// Starts an empty arena at `offset`.
pub fn init_heap(offset: usize) -> (arena: Allocator)
    ensures
        arena.base() == offset,
        arena.cursor() == 0,
{
    Allocator { heap_start: offset, offset: 0 }
}

/// The cursor after serving `reqs`, pairs of size and alignment, in order,
/// starting from `cursor`.
pub open spec fn cursor_after_all(base: int, cursor: int, reqs: Seq<(usize, usize)>) -> int
    decreases reqs.len(),
{
    if reqs.len() == 0 {
        cursor
    } else {
        cursor_after(
            base,
            cursor_after_all(base, cursor, reqs.drop_last()),
            reqs.last().0 as int,
            reqs.last().1 as int,
        )
    }
}

/// The address that request `i` of `reqs` is answered with, when the arena
/// has served the requests before it in order, starting from `cursor`.
pub open spec fn nth_block(base: int, cursor: int, reqs: Seq<(usize, usize)>, i: int) -> Option<
    int,
> {
    let before = cursor_after_all(base, cursor, reqs.take(i));
    if alloc_fits(base, before, reqs[i].0 as int, reqs[i].1 as int) {
        Some(alloc_start(base, before, reqs[i].1 as int))
    } else {
        None
    }
}

/// Every alignment in `reqs` is a power of two.
pub open spec fn valid_requests(reqs: Seq<(usize, usize)>) -> bool {
    forall|k: int| 0 <= k < reqs.len() ==> is_power_of_two(#[trigger] reqs[k].1)
}

/// A request never moves the cursor back, and never past the arena.
pub proof fn lemma_cursor_after_bounds(base: int, cursor: int, size: int, align: int)
    requires
        0 <= base,
        0 <= cursor <= HEAP_SIZE,
        0 <= size,
        0 < align,
    ensures
        cursor <= cursor_after(base, cursor, size, align) <= HEAP_SIZE,
{
    lemma_align_up(base + cursor, align);
}

/// Serving more requests never moves the cursor back: the cursor after the
/// first `j` requests is at or past the cursor after the first `i`.
pub proof fn lemma_cursor_monotonic(
    base: int,
    cursor: int,
    reqs: Seq<(usize, usize)>,
    i: int,
    j: int,
)
    requires
        0 <= base,
        0 <= cursor <= HEAP_SIZE,
        valid_requests(reqs),
        0 <= i <= j <= reqs.len(),
    ensures
        cursor <= cursor_after_all(base, cursor, reqs.take(i)) <= cursor_after_all(
            base,
            cursor,
            reqs.take(j),
        ) <= HEAP_SIZE,
    decreases j,
{
    if j == 0 {
        assert(reqs.take(0).len() == 0);
    } else {
        let shorter = reqs.take(j - 1);
        assert(reqs.take(j).drop_last() =~= shorter);
        assert(reqs.take(j).last() == reqs[j - 1]);
        lemma_power_of_two_positive(reqs[j - 1].1);
        if i == j {
            lemma_cursor_monotonic(base, cursor, reqs, i - 1, j - 1);
        } else {
            lemma_cursor_monotonic(base, cursor, reqs, i, j - 1);
        }
        lemma_cursor_after_bounds(
            base,
            cursor_after_all(base, cursor, shorter),
            reqs[j - 1].0 as int,
            reqs[j - 1].1 as int,
        );
    }
}

/// A block handed out lies inside the arena, past everything handed out
/// before it, and is aligned as asked.
pub proof fn lemma_block_in_arena(base: usize, cursor: int, reqs: Seq<(usize, usize)>, i: int)
    requires
        0 <= cursor <= HEAP_SIZE,
        valid_requests(reqs),
        0 <= i < reqs.len(),
        nth_block(base as int, cursor, reqs, i) is Some,
    ensures
        ({
            let block = nth_block(base as int, cursor, reqs, i).unwrap();
            &&& base + cursor <= block
            &&& block + reqs[i].0 <= base + HEAP_SIZE
            &&& block + reqs[i].0 <= usize::MAX
            &&& block % (reqs[i].1 as int) == 0
        }),
{
    lemma_power_of_two_positive(reqs[i].1);
    lemma_cursor_monotonic(base as int, cursor, reqs, i, i);
    lemma_align_up(
        base + cursor_after_all(base as int, cursor, reqs.take(i)),
        reqs[i].1 as int,
    );
}

/// Blocks handed out for any sequence of requests with valid alignments do
/// not overlap: of two requests that both succeed, the earlier block ends
/// at or before the start of the later one.
pub proof fn lemma_blocks_disjoint(
    base: usize,
    cursor: int,
    reqs: Seq<(usize, usize)>,
    i: int,
    j: int,
)
    requires
        0 <= cursor <= HEAP_SIZE,
        valid_requests(reqs),
        0 <= i < j < reqs.len(),
        nth_block(base as int, cursor, reqs, i) is Some,
        nth_block(base as int, cursor, reqs, j) is Some,
    ensures
        nth_block(base as int, cursor, reqs, i).unwrap() + reqs[i].0 <= nth_block(
            base as int,
            cursor,
            reqs,
            j,
        ).unwrap(),
{
    let b = base as int;
    lemma_power_of_two_positive(reqs[j].1);
    lemma_cursor_monotonic(b, cursor, reqs, i + 1, j);
    assert(reqs.take(i + 1).drop_last() =~= reqs.take(i));
    assert(reqs.take(i + 1).last() == reqs[i]);
    lemma_align_up(b + cursor_after_all(b, cursor, reqs.take(j)), reqs[j].1 as int);
}

/// A request that does not fit is answered with nothing and leaves the
/// cursor where it was.
pub proof fn lemma_failed_request_changes_nothing(
    base: usize,
    cursor: int,
    reqs: Seq<(usize, usize)>,
    i: int,
)
    requires
        0 <= i < reqs.len(),
        nth_block(base as int, cursor, reqs, i) is None,
    ensures
        cursor_after_all(base as int, cursor, reqs.take(i + 1)) == cursor_after_all(
            base as int,
            cursor,
            reqs.take(i),
        ),
{
    assert(reqs.take(i + 1).drop_last() =~= reqs.take(i));
    assert(reqs.take(i + 1).last() == reqs[i]);
}

} // verus!
