//! A bump arena: a range of addresses that is handed out piece by piece and
//! never taken back.
//!
//! The kernel serves from it what is asked for before its heap can work,
//! and what the heap and the frame allocator need for their own books.

use vstd::prelude::*;

verus! {

/// The lowest multiple of `align` at or above `addr`.
pub open spec fn aligned_up(addr: int, align: int) -> int {
    (addr + align - 1) / align * align
}

/// A range of addresses and the place up to which it is handed out.
#[derive(Debug, Clone, Copy, PartialEq, Eq, Structural)]
pub struct BumpArena {
    start: u64,
    end: u64,
    next: u64,
}

impl BumpArena {
    #[verifier::type_invariant]
    spec fn inv(self) -> bool {
        self.start <= self.next <= self.end
    }

    /// First address of the arena.
    pub closed spec fn start(self) -> int {
        self.start as int
    }

    /// One past the last address of the arena.
    pub closed spec fn end(self) -> int {
        self.end as int
    }

    /// The first address that is not handed out.
    pub closed spec fn next(self) -> int {
        self.next as int
    }

    /// An arena of `size` bytes from `start` on, of which nothing is handed
    /// out. An arena that would reach past the highest address is cut off
    /// there.
    pub fn new(start: u64, size: u64) -> (arena: BumpArena)
        ensures
            arena.start() == start,
            arena.next() == start,
            arena.end() == (if start + size <= u64::MAX {
                start + size
            } else {
                u64::MAX as int
            }),
    {
        let end = match start.checked_add(size) {
            Some(end) => end,
            None => u64::MAX,
        };
        BumpArena { start, end, next: start }
    }

    /// Whether `addr` lies in the arena.
    pub fn contains(&self, addr: u64) -> (inside: bool)
        ensures
            inside == (self.start() <= addr < self.end()),
    {
        self.start <= addr && addr < self.end
    }

    /// The number of bytes that are handed out or lost to alignment.
    pub fn used(&self) -> (used: u64)
        ensures
            used == self.next() - self.start(),
            self.start() <= self.next() <= self.end(),
    {
        proof {
            use_type_invariant(self);
        }
        self.next - self.start
    }

    /// Hands out `size` bytes at the lowest multiple of `align` that is not
    /// handed out yet. `None`, with nothing changed, exactly when they do
    /// not fit the arena.
    pub fn allocate(&mut self, size: u64, align: u64) -> (result: Option<u64>)
        requires
            align > 0,
        ensures
            final(self).start() == old(self).start(),
            final(self).end() == old(self).end(),
            match result {
                Some(at) => {
                    &&& at == aligned_up(old(self).next(), align as int)
                    &&& old(self).next() <= at
                    &&& at % align == 0
                    &&& at + size <= old(self).end()
                    &&& final(self).next() == at + size
                },
                None => {
                    &&& aligned_up(old(self).next(), align as int) + size > old(self).end()
                    &&& final(self).next() == old(self).next()
                },
            },
    {
        proof {
            use_type_invariant(&*self);
            lemma_aligned_up(self.next as int, align as int);
        }
        let padded = self.next as u128 + (align as u128 - 1);
        assert(padded / (align as u128) * (align as u128) <= padded) by (nonlinear_arith)
            requires
                align > 0,
        ;
        let at = padded / (align as u128) * (align as u128);
        let last = at + size as u128;
        if last > self.end as u128 {
            return None;
        }
        self.next = last as u64;
        Some(at as u64)
    }
}

/// The lowest multiple of `align` at or above `addr` is a multiple of
/// `align`, is at or above `addr`, and is less than `align` above it.
pub proof fn lemma_aligned_up(addr: int, align: int)
    requires
        0 <= addr,
        0 < align,
    ensures
        aligned_up(addr, align) % align == 0,
        addr <= aligned_up(addr, align) < addr + align,
{
    let q = (addr + align - 1) / align;
    vstd::arithmetic::div_mod::lemma_fundamental_div_mod(addr + align - 1, align);
    vstd::arithmetic::div_mod::lemma_mod_bound(addr + align - 1, align);
    vstd::arithmetic::div_mod::lemma_mod_multiples_basic(q, align);
    assert(q * align == align * q) by (nonlinear_arith);
}

} // verus!
