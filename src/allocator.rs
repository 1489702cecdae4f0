//! The bookkeeping of a bump allocator: a heap range, a cursor that only
//! moves up, and a count of live allocations.

use vstd::prelude::*;

verus! {

/// The least multiple of `align` at or above `addr`.
pub open spec fn aligned_up(addr: int, align: int) -> int {
    addr + (align - addr % align) % align
}

/// `(align - addr % align) % align` is zero when `addr` is a multiple of
/// `align`, and `align - addr % align` otherwise.
proof fn lemma_pad(addr: int, align: int)
    requires
        align > 0,
        addr >= 0,
    ensures
        addr % align == 0 ==> (align - addr % align) % align == 0,
        addr % align != 0 ==> (align - addr % align) % align == align - addr % align,
        0 <= addr % align < align,
{
    vstd::arithmetic::div_mod::lemma_mod_bound(addr, align);
    if addr % align == 0 {
        vstd::arithmetic::div_mod::lemma_mod_self_0(align);
    } else {
        vstd::arithmetic::div_mod::lemma_small_mod((align - addr % align) as nat, align as nat);
    }
}

/// `addr` rounded up to a multiple of `align`; the caller guarantees that
/// the result fits in a `usize`.
pub fn align_up(addr: usize, align: usize) -> (r: usize)
    requires
        align > 0,
        aligned_up(addr as int, align as int) <= usize::MAX,
    ensures
        r == aligned_up(addr as int, align as int),
        r % align == 0,
        addr <= r < addr + align,
{
    let rem = addr % align;
    proof {
        lemma_pad(addr as int, align as int);
        vstd::arithmetic::div_mod::lemma_fundamental_div_mod(addr as int, align as int);
    }
    if rem == 0 {
        addr
    } else {
        let r = addr + (align - rem);
        proof {
            assert(r == align * (addr / align + 1)) by (nonlinear_arith)
                requires
                    addr == align * (addr / align) + rem,
                    r == addr + (align - rem),
            ;
            vstd::arithmetic::div_mod::lemma_mod_multiples_basic(
                (addr / align + 1) as int,
                align as int,
            );
        }
        r
    }
}

/// A bump allocator over `[heap_start, heap_end)`: `next` is the first
/// free address, `allocations` the number of live allocations.
#[derive(Debug)]
pub struct BumpAllocator {
    pub heap_start: usize,
    pub heap_end: usize,
    pub next: usize,
    pub allocations: usize,
}

impl BumpAllocator {
    /// An allocator over an empty heap.
    pub fn new() -> (a: BumpAllocator)
        ensures
            a.heap_start == 0,
            a.heap_end == 0,
            a.next == 0,
            a.allocations == 0,
    {
        BumpAllocator { heap_start: 0, heap_end: 0, next: 0, allocations: 0 }
    }

    /// Takes `[heap_start, heap_start + heap_size)` as the heap, with the
    /// cursor at its start.
    pub fn init(&mut self, heap_start: usize, heap_size: usize)
        requires
            heap_start + heap_size <= usize::MAX,
        ensures
            final(self).heap_start == heap_start,
            final(self).heap_end == heap_start + heap_size,
            final(self).next == heap_start,
            final(self).allocations == old(self).allocations,
    {
        self.heap_start = heap_start;
        self.heap_end = heap_start + heap_size;
        self.next = heap_start;
    }

    /// Hands out `size` bytes at the cursor rounded up to `align`, and moves
    /// the cursor past them. Fails, changing nothing, when the block would
    /// end past the heap or past the address space.
    pub fn allocate(&mut self, size: usize, align: usize) -> (r: Option<usize>)
        requires
            align > 0,
            old(self).allocations < usize::MAX,
        ensures
            ({
                let start = aligned_up(old(self).next as int, align as int);
                if start + size <= old(self).heap_end {
                    &&& r == Some(start as usize)
                    &&& final(self).next == start + size
                    &&& final(self).allocations == old(self).allocations + 1
                    &&& final(self).heap_start == old(self).heap_start
                    &&& final(self).heap_end == old(self).heap_end
                } else {
                    r is None && *final(self) == *old(self)
                }
            }),
    {
        let rem = self.next % align;
        proof {
            lemma_pad(self.next as int, align as int);
        }
        if rem != 0 && self.next > usize::MAX - (align - rem) {
            return None;
        }
        let start = align_up(self.next, align);
        match start.checked_add(size) {
            Some(end) => {
                if end > self.heap_end {
                    None
                } else {
                    self.next = end;
                    self.allocations = self.allocations + 1;
                    Some(start)
                }
            },
            None => None,
        }
    }

    /// Releases one allocation; when none is left, the whole heap is free
    /// again and the cursor returns to its start.
    pub fn deallocate(&mut self)
        requires
            old(self).allocations > 0,
        ensures
            final(self).allocations == old(self).allocations - 1,
            final(self).heap_start == old(self).heap_start,
            final(self).heap_end == old(self).heap_end,
            final(self).next == if final(self).allocations == 0 {
                old(self).heap_start
            } else {
                old(self).next
            },
    {
        self.allocations = self.allocations - 1;
        if self.allocations == 0 {
            self.next = self.heap_start;
        }
    }
}

/// An allocator that never hands out memory.
#[derive(Debug)]
pub struct Dummy;

impl Dummy {
    /// Always fails.
    pub fn allocate(&self, size: usize, align: usize) -> (r: Option<usize>)
        ensures
            r is None,
    {
        None
    }
}

} // verus!
