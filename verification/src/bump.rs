//! The bump step on plain offsets: where the next block goes, and whether it
//! still lies within the reservation.

use crate::align::{align_up, lemma_align_up_is_least, padding_for};
use crate::layout::Layout;
use crate::VIRT_ALLOC_SIZE;
use vstd::prelude::*;

verus! {

/// Whether a reservation can start at `start`: the address is not null, and
/// the reservation ends within the address space.
pub open spec fn spec_reservable(start: usize) -> bool {
    0 < start && start + VIRT_ALLOC_SIZE <= usize::MAX
}

/// Whether a reservation can start at `start`.
#[verifier::when_used_as_spec(spec_reservable)]
pub fn reservable(start: usize) -> (b: bool)
    ensures
        b == spec_reservable(start),
{
    let top: u64 = usize::MAX as u64;
    start != 0 && top >= VIRT_ALLOC_SIZE && start as u64 <= top - VIRT_ALLOC_SIZE
}

/// Whether a block of the layout `layout`, placed at the first aligned
/// address at or after the offset `used` of the reservation at `start`, ends
/// within the reservation.
pub fn block_fits(start: usize, used: usize, layout: Layout) -> (b: bool)
    requires
        reservable(start),
        used <= VIRT_ALLOC_SIZE,
    ensures
        b == (align_up((start + used) as nat, layout@.align) + layout@.size <= start
            + VIRT_ALLOC_SIZE),
{
    let room: u64 = VIRT_ALLOC_SIZE - used as u64;
    let pad: usize = padding_for(start + used, layout.align());
    pad as u64 <= room && layout.size() as u64 <= room - pad as u64
}

/// Places a block of the layout `layout` at the first aligned address at or
/// after the offset `used` of the reservation at `start`. Returns the
/// address of the block and the offset right behind it.
pub fn bump(start: usize, used: usize, layout: Layout) -> (r: (usize, usize))
    requires
        reservable(start),
        used <= VIRT_ALLOC_SIZE,
        align_up((start + used) as nat, layout@.align) + layout@.size <= start + VIRT_ALLOC_SIZE,
    ensures
        r.0 == align_up((start + used) as nat, layout@.align),
        r.0 as nat % layout@.align == 0,
        start + used <= r.0,
        r.1 == r.0 + layout@.size - start,
        used <= r.1 <= VIRT_ALLOC_SIZE,
{
    let pad: usize = padding_for(start + used, layout.align());
    proof {
        lemma_align_up_is_least((start + used) as nat, layout@.align);
    }
    let addr: usize = start + used + pad;
    (addr, used + pad + layout.size())
}

} // verus!
