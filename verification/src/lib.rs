//! A bump-pointer arena over one large reserved range of virtual addresses.
//!
//! The arena decides where each block goes and which part of the reservation
//! has to be backed by physical memory before the block is used. It holds
//! addresses, never memory: reserving the range, backing it and giving it
//! back are left to the caller, who is told by each
//! [`Allocation`](model::Allocation) what is due, and who lends the bytes of
//! a block to [`Allocation::prepare`](model::Allocation::prepare) to have
//! them cleared where that is asked for.

use vstd::prelude::*;

pub mod align;
pub mod bump;
pub mod laws;
pub mod layout;
pub mod model;
pub mod unix;
pub mod windows;

use crate::layout::{Layout, Request};
use crate::model::{Allocation, Region, State};

verus! {

/// Size in bytes of the address range that every arena reserves: 128 GiB.
pub const VIRT_ALLOC_SIZE: u64 = 0x20_0000_0000;

/// What an arena is made of: a cursor over a reserved range that hands out
/// blocks by layout.
pub trait VirtArenaRaw: Sized {
    /// The state of the arena.
    spec fn view(&self) -> State;

    /// The number of bytes between the start of the reservation and the
    /// cursor.
    fn bytes_used(&self) -> (n: usize)
        requires
            self@.wf(),
        ensures
            n == self@.used,
    ;

    /// Moves the cursor back to the start of the reservation. Nothing else
    /// changes: no block is cleared, and what was backed stays backed.
    fn reset(&mut self)
        requires
            old(self)@.wf(),
        ensures
            final(self)@ == old(self)@.reset(),
            final(self)@.used == 0,
            final(self)@.wf(),
    ;

    /// Ends the arena. Returns what is to be given back to the host: the
    /// whole reserved range, in one piece, however much of it is backed.
    fn release(self) -> (r: Region)
        requires
            self@.wf(),
        ensures
            r.addr == self@.base,
            r.size == VIRT_ALLOC_SIZE,
    ;

    /// Whether a block of the layout `layout` still lies within the
    /// reservation.
    fn fits(&self, layout: Layout) -> (b: bool)
        requires
            self@.wf(),
        ensures
            b == self@.fits(layout@),
    ;

    /// Hands out a block of the layout `layout`, at the least aligned
    /// address at or after the cursor, and moves the cursor right behind it.
    fn alloc_layout(&mut self, layout: Layout) -> (a: Allocation)
        requires
            old(self)@.wf(),
            old(self)@.fits(layout@),
        ensures
            old(self)@.grants(layout@, false, a),
            a.addr as nat % layout@.align == 0,
            old(self)@.cursor() <= a.addr,
            a.addr + a.size == final(self)@.cursor(),
            final(self)@ == old(self)@.after(layout@),
            old(self)@.used <= final(self)@.used,
            final(self)@.wf(),
    ;

    /// Hands out a block as `alloc_layout` does, to be filled with zeros.
    fn alloc_zeroed(&mut self, layout: Layout) -> (a: Allocation)
        requires
            old(self)@.wf(),
            old(self)@.fits(layout@),
        ensures
            old(self)@.grants(layout@, true, a),
            a.addr as nat % layout@.align == 0,
            old(self)@.cursor() <= a.addr,
            a.addr + a.size == final(self)@.cursor(),
            final(self)@ == old(self)@.after(layout@),
            old(self)@.used <= final(self)@.used,
            final(self)@.wf(),
    {
        let a = self.alloc_layout(layout);
        Allocation { addr: a.addr, size: a.size, zeroed: true, commit: a.commit }
    }
}

/// A memory arena that places values in one contiguous reserved range of
/// virtual addresses.
pub struct VirtArena<R: VirtArenaRaw>(R);

impl<R: VirtArenaRaw> VirtArena<R> {
    /// The state of the arena.
    pub closed spec fn view(&self) -> State {
        self.0@
    }

    /// The arena on top of `raw`.
    pub fn new(raw: R) -> (arena: Self)
        ensures
            arena@ == raw@,
    {
        VirtArena(raw)
    }

    /// Whether a block of the layout `layout` still lies within the
    /// reservation.
    pub fn fits(&self, layout: Layout) -> (b: bool)
        requires
            self@.wf(),
        ensures
            b == self@.fits(layout@),
    {
        self.0.fits(layout)
    }

    /// Hands out a block of the layout `layout`.
    pub fn alloc_layout(&mut self, layout: Layout) -> (a: Allocation)
        requires
            old(self)@.wf(),
            old(self)@.fits(layout@),
        ensures
            old(self)@.grants(layout@, false, a),
            a.addr as nat % layout@.align == 0,
            old(self)@.cursor() <= a.addr,
            a.addr + a.size == final(self)@.cursor(),
            final(self)@ == old(self)@.after(layout@),
            old(self)@.used <= final(self)@.used,
            final(self)@.wf(),
    {
        self.0.alloc_layout(layout)
    }

    /// Hands out a block for one `T`, to be filled with zeros.
    pub fn alloc_zeroed<T>(&mut self) -> (a: Allocation)
        requires
            old(self)@.wf(),
            old(self)@.fits(Request::of::<T>()),
        ensures
            old(self)@.grants(Request::of::<T>(), true, a),
            a.addr as nat % vstd::layout::align_of::<T>() == 0,
            old(self)@.cursor() <= a.addr,
            a.addr + a.size == final(self)@.cursor(),
            final(self)@ == old(self)@.after(Request::of::<T>()),
            old(self)@.used <= final(self)@.used,
            final(self)@.wf(),
    {
        let layout = Layout::new::<T>();
        self.0.alloc_zeroed(layout)
    }

    /// Hands out a block for `count` values of type `T` side by side, to be
    /// filled with zeros.
    pub fn alloc_slice_zeroed<T>(&mut self, count: usize) -> (a: Allocation)
        requires
            old(self)@.wf(),
            Request::array::<T>(count as nat).wf(),
            old(self)@.fits(Request::array::<T>(count as nat)),
        ensures
            old(self)@.grants(Request::array::<T>(count as nat), true, a),
            a.addr as nat % vstd::layout::align_of::<T>() == 0,
            old(self)@.cursor() <= a.addr,
            a.addr + a.size == final(self)@.cursor(),
            a.size == count * vstd::layout::size_of::<T>(),
            final(self)@ == old(self)@.after(Request::array::<T>(count as nat)),
            old(self)@.used <= final(self)@.used,
            final(self)@.wf(),
    {
        let layout = Layout::array::<T>(count).unwrap();
        self.0.alloc_zeroed(layout)
    }

    /// Hands out a block for one `T`. Its bytes are left as they are.
    pub fn alloc_uninit<T>(&mut self) -> (a: Allocation)
        requires
            old(self)@.wf(),
            old(self)@.fits(Request::of::<T>()),
        ensures
            old(self)@.grants(Request::of::<T>(), false, a),
            a.addr as nat % vstd::layout::align_of::<T>() == 0,
            old(self)@.cursor() <= a.addr,
            a.addr + a.size == final(self)@.cursor(),
            final(self)@ == old(self)@.after(Request::of::<T>()),
            old(self)@.used <= final(self)@.used,
            final(self)@.wf(),
    {
        let layout = Layout::new::<T>();
        self.0.alloc_layout(layout)
    }

    /// Hands out a block for `count` values of type `T` side by side. Its
    /// bytes are left as they are.
    pub fn alloc_slice_uninit<T>(&mut self, count: usize) -> (a: Allocation)
        requires
            old(self)@.wf(),
            Request::array::<T>(count as nat).wf(),
            old(self)@.fits(Request::array::<T>(count as nat)),
        ensures
            old(self)@.grants(Request::array::<T>(count as nat), false, a),
            a.addr as nat % vstd::layout::align_of::<T>() == 0,
            old(self)@.cursor() <= a.addr,
            a.addr + a.size == final(self)@.cursor(),
            a.size == count * vstd::layout::size_of::<T>(),
            final(self)@ == old(self)@.after(Request::array::<T>(count as nat)),
            old(self)@.used <= final(self)@.used,
            final(self)@.wf(),
    {
        let layout = Layout::array::<T>(count).unwrap();
        self.0.alloc_layout(layout)
    }

    /// Hands out a block for one `T`, then calls `fun` once. Returns the
    /// block together with the value that `fun` made, which is to be moved
    /// into the block.
    pub fn alloc_with<T>(&mut self, fun: impl FnOnce() -> T) -> (p: (Allocation, T))
        requires
            old(self)@.wf(),
            old(self)@.fits(Request::of::<T>()),
            fun.requires(()),
        ensures
            old(self)@.grants(Request::of::<T>(), false, p.0),
            p.0.addr as nat % vstd::layout::align_of::<T>() == 0,
            old(self)@.cursor() <= p.0.addr,
            p.0.addr + p.0.size == final(self)@.cursor(),
            fun.ensures((), p.1),
            final(self)@ == old(self)@.after(Request::of::<T>()),
            old(self)@.used <= final(self)@.used,
            final(self)@.wf(),
    {
        let a = self.alloc_uninit::<T>();
        (a, fun())
    }

    /// Hands out a block for one `T`. Returns the block together with
    /// `val`, which is to be moved into the block.
    pub fn alloc_value<T>(&mut self, val: T) -> (p: (Allocation, T))
        requires
            old(self)@.wf(),
            old(self)@.fits(Request::of::<T>()),
        ensures
            old(self)@.grants(Request::of::<T>(), false, p.0),
            p.0.addr as nat % vstd::layout::align_of::<T>() == 0,
            old(self)@.cursor() <= p.0.addr,
            p.0.addr + p.0.size == final(self)@.cursor(),
            p.1 == val,
            final(self)@ == old(self)@.after(Request::of::<T>()),
            old(self)@.used <= final(self)@.used,
            final(self)@.wf(),
    {
        self.alloc_with(move || -> (v: T)
            ensures
                v == val,
            { val })
    }

    /// The number of bytes handed out since the arena was made or last
    /// reset, the padding before each block included.
    pub fn bytes_used(&self) -> (n: usize)
        requires
            self@.wf(),
        ensures
            n == self@.used,
    {
        self.0.bytes_used()
    }

    /// Moves the cursor back to the start of the reservation, so that the
    /// blocks handed out so far will be handed out again. The memory is not
    /// touched.
    pub fn reset(&mut self)
        requires
            old(self)@.wf(),
        ensures
            final(self)@ == old(self)@.reset(),
            final(self)@.used == 0,
            final(self)@.wf(),
    {
        self.0.reset()
    }

    /// Ends the arena. Returns what is to be given back to the host: the
    /// whole reserved range, in one piece, however much of it is backed.
    pub fn release(self) -> (r: Region)
        requires
            self@.wf(),
        ensures
            r.addr == self@.base,
            r.size == VIRT_ALLOC_SIZE,
    {
        self.0.release()
    }
}

} // verus!
