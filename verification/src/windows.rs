//! The arena on hosts where reserved memory has to be backed on request.

use crate::align::lemma_align_up_is_unique;
use crate::bump::{block_fits, bump, reservable};
use crate::layout::{lemma_pow2_positive, Layout};
use crate::model::{lemma_allocation_keeps_wf, Allocation, Region, State};
use crate::VirtArenaRaw;
use crate::VIRT_ALLOC_SIZE;
use vstd::prelude::*;

verus! {

/// Size in bytes of the blocks in which memory is backed.
pub const COMMIT_BLOCK_SIZE: usize = 1024;

/// An arena that keeps track of how far its reservation is backed by
/// physical memory, and asks for more, in whole blocks, whenever the cursor
/// moves past that point.
pub struct VirtArena {
    start: usize,
    used: usize,
    committed: usize,
}

impl VirtArena {
    /// The arena over the reservation that starts at `start`, with the
    /// cursor at the start and nothing backed.
    pub fn new(start: usize) -> (arena: VirtArena)
        requires
            reservable(start),
        ensures
            arena@ == State::reserved(start as nat),
            arena@.wf(),
    {
        VirtArena { start, used: 0, committed: 0 }
    }
}

impl VirtArenaRaw for VirtArena {
    closed spec fn view(&self) -> State {
        State {
            base: self.start as nat,
            used: self.used as nat,
            committed: self.committed as nat,
        }
    }

    fn bytes_used(&self) -> (n: usize) {
        self.used
    }

    fn reset(&mut self) {
        self.used = 0;
    }

    fn release(self) -> (r: Region) {
        Region { addr: self.start, size: VIRT_ALLOC_SIZE as usize }
    }

    fn fits(&self, layout: Layout) -> (b: bool) {
        block_fits(self.start, self.used, layout)
    }

    fn alloc_layout(&mut self, layout: Layout) -> (a: Allocation) {
        let size: usize = layout.size();
        proof {
            lemma_pow2_positive(layout@.align as int);
            lemma_allocation_keeps_wf(self@, layout@);
        }
        let (addr, next) = bump(self.start, self.used, layout);
        self.used = next;
        let from: usize = self.committed;
        let mut upto: usize = from;
        while upto < next
            invariant
                next <= VIRT_ALLOC_SIZE <= usize::MAX,
                from <= upto <= VIRT_ALLOC_SIZE,
                upto % COMMIT_BLOCK_SIZE == 0,
                upto == from || upto < next + COMMIT_BLOCK_SIZE,
            decreases VIRT_ALLOC_SIZE - upto,
        {
            upto = upto + COMMIT_BLOCK_SIZE;
        }
        proof {
            if from < next {
                lemma_align_up_is_unique(next as nat, COMMIT_BLOCK_SIZE as nat, upto as nat);
            }
        }
        self.committed = upto;
        Allocation {
            addr,
            size,
            zeroed: false,
            commit: Region { addr: self.start + from, size: upto - from },
        }
    }
}

} // verus!
