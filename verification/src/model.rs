//! The arena as a state machine over addresses: where the cursors stand, and
//! what one allocation does to them.

use crate::align::{align_up, lemma_align_up_is_least, padding};
use crate::layout::Request;
use crate::windows::COMMIT_BLOCK_SIZE;
use crate::VIRT_ALLOC_SIZE;
use vstd::prelude::*;

verus! {

/// A range of addresses: `size` bytes from `addr` on.
#[derive(Clone, Copy, Debug)]
pub struct Region {
    pub addr: usize,
    pub size: usize,
}

/// What one allocation hands out, and what has to be done to the memory
/// before the caller may touch it.
#[derive(Clone, Copy, Debug)]
pub struct Allocation {
    /// Address of the first byte.
    pub addr: usize,
    /// Number of bytes.
    pub size: usize,
    /// Whether every byte of the block is to be set to zero.
    pub zeroed: bool,
    /// The range that must be backed by physical memory first. Empty where
    /// the block lies in memory that is backed already.
    pub commit: Region,
}

impl Allocation {
    /// Does to the bytes of the block what the allocation calls for: sets
    /// every one of them to zero where the block is to be zeroed, and leaves
    /// them all as they are where it is not.
    pub fn prepare(&self, block: &mut [u8])
        ensures
            final(block)@.len() == old(block)@.len(),
            self.zeroed ==> forall|i: int| 0 <= i < final(block)@.len() ==> final(block)@[i] == 0,
            !self.zeroed ==> final(block)@ == old(block)@,
    {
        if self.zeroed {
            let len: usize = block.len();
            let mut i: usize = 0;
            while i < len
                invariant
                    len == block@.len(),
                    i <= len,
                    forall|j: int| 0 <= j < i ==> block@[j] == 0,
                decreases len - i,
            {
                block[i] = 0;
                i += 1;
            }
        }
    }
}

/// The state of an arena: the address its reservation starts at, the offset
/// of the allocation cursor from there, and the offset up to which the
/// reservation is backed by physical memory.
pub struct State {
    pub base: nat,
    pub used: nat,
    pub committed: nat,
}

impl State {
    /// The reservation lies in the address space and does not start at
    /// null; the allocation cursor is within the backed part, the backed
    /// part within the reservation; and whole blocks are backed.
    pub open spec fn wf(self) -> bool {
        &&& 0 < self.base
        &&& self.base + VIRT_ALLOC_SIZE <= usize::MAX
        &&& self.used <= self.committed <= VIRT_ALLOC_SIZE
        &&& self.committed % (COMMIT_BLOCK_SIZE as nat) == 0
    }

    /// A new arena at `base` on a host that backs reserved memory by
    /// itself when it is first touched: all of it counts as backed.
    pub open spec fn overcommitted(base: nat) -> State {
        State { base, used: 0, committed: VIRT_ALLOC_SIZE as nat }
    }

    /// A new arena at `base` on a host where memory is backed on request
    /// only: nothing is backed yet.
    pub open spec fn reserved(base: nat) -> State {
        State { base, used: 0, committed: 0 }
    }

    /// The address of the allocation cursor.
    pub open spec fn cursor(self) -> nat {
        self.base + self.used
    }

    /// The address one past the reservation.
    pub open spec fn limit(self) -> nat {
        self.base + VIRT_ALLOC_SIZE as nat
    }

    /// Where a block for `r` goes: the least address at or after the cursor
    /// that is a multiple of the alignment.
    pub open spec fn place(self, r: Request) -> nat {
        align_up(self.cursor(), r.align)
    }

    /// Whether a block for `r` still lies within the reservation.
    pub open spec fn fits(self, r: Request) -> bool {
        self.place(r) + r.size <= self.limit()
    }

    /// The offset up to which memory is backed once the cursor stands at the
    /// offset `used`: unchanged where that is covered, else the least
    /// multiple of the block size that covers it.
    pub open spec fn cover(self, used: nat) -> nat {
        if used <= self.committed {
            self.committed
        } else {
            align_up(used, COMMIT_BLOCK_SIZE as nat)
        }
    }

    /// The state after a block for `r` was handed out: the cursor stands
    /// right behind the block, and the backed part covers it.
    pub open spec fn after(self, r: Request) -> State {
        let used = (self.place(r) + r.size - self.base) as nat;
        State { base: self.base, used, committed: self.cover(used) }
    }

    /// The state after a reset: the cursor is back at the start. What was
    /// backed stays backed.
    pub open spec fn reset(self) -> State {
        State { base: self.base, used: 0, committed: self.committed }
    }

    /// Whether `a` is what an allocation for `r` hands out in this state:
    /// the block at `place(r)`, and to be backed first, the range from the
    /// old end of the backed part to the new one.
    pub open spec fn grants(self, r: Request, zeroed: bool, a: Allocation) -> bool {
        &&& a.addr == self.place(r)
        &&& a.size == r.size
        &&& a.zeroed == zeroed
        &&& a.commit.addr == self.base + self.committed
        &&& a.commit.size == self.after(r).committed - self.committed
    }
}

/// An allocation that fits leaves a well-formed state, in which the cursor
/// has not moved back and nothing that was backed has been given up.
pub proof fn lemma_allocation_keeps_wf(s: State, r: Request)
    requires
        s.wf(),
        r.align > 0,
        s.fits(r),
    ensures
        s.after(r).wf(),
        s.used <= s.after(r).used,
        s.after(r).used == s.used + padding(s.cursor(), r.align) + r.size,
        s.committed <= s.after(r).committed,
{
    lemma_align_up_is_least(s.cursor(), r.align);
    lemma_align_up_is_least(s.after(r).used, COMMIT_BLOCK_SIZE as nat);
}

} // verus!
