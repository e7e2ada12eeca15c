//! The arena on hosts that back reserved memory by themselves when it is
//! first touched.

use crate::bump::{block_fits, bump, reservable};
use crate::layout::{lemma_pow2_positive, Layout};
use crate::model::{lemma_allocation_keeps_wf, Allocation, Region, State};
use crate::VirtArenaRaw;
use crate::VIRT_ALLOC_SIZE;
use vstd::prelude::*;

verus! {

/// An arena whose whole reservation is usable from the start: an allocation
/// never asks for memory to be backed.
pub struct VirtArena {
    start: usize,
    used: usize,
}

impl VirtArena {
    /// The arena over the reservation that starts at `start`, with the
    /// cursor at the start.
    pub fn new(start: usize) -> (arena: VirtArena)
        requires
            reservable(start),
        ensures
            arena@ == State::overcommitted(start as nat),
            arena@.wf(),
    {
        VirtArena { start, used: 0 }
    }
}

impl VirtArenaRaw for VirtArena {
    closed spec fn view(&self) -> State {
        State { base: self.start as nat, used: self.used as nat, committed: VIRT_ALLOC_SIZE as nat }
    }

    fn bytes_used(&self) -> (n: usize) {
        self.used
    }

    fn reset(&mut self) {
        self.used = 0;
    }

    fn release(self) -> (r: Region) {
        Region { addr: self.start, size: VIRT_ALLOC_SIZE as usize }
    }

    fn fits(&self, layout: Layout) -> (b: bool) {
        block_fits(self.start, self.used, layout)
    }

    fn alloc_layout(&mut self, layout: Layout) -> (a: Allocation) {
        let size: usize = layout.size();
        proof {
            lemma_pow2_positive(layout@.align as int);
            lemma_allocation_keeps_wf(self@, layout@);
        }
        let (addr, next) = bump(self.start, self.used, layout);
        self.used = next;
        Allocation {
            addr,
            size,
            zeroed: false,
            commit: Region { addr: self.start + VIRT_ALLOC_SIZE as usize, size: 0 },
        }
    }
}

} // verus!
