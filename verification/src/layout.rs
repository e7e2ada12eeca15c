//! The size and alignment of a block of memory.

use crate::align::{align_up, lemma_align_up_is_least};
use vstd::arithmetic::power2::is_pow2;
use vstd::layout::{align_of, layout_for_type_is_valid, size_of};
use vstd::prelude::*;

verus! {

/// What an allocation asks for: `size` bytes, the first of them at an address
/// that is a multiple of `align`.
pub struct Request {
    pub size: nat,
    pub align: nat,
}

impl Request {
    /// The alignment is a power of two, and the size rounded up to the
    /// alignment does not exceed `isize::MAX`.
    pub open spec fn wf(self) -> bool {
        &&& is_pow2(self.align as int)
        &&& align_up(self.size, self.align) <= isize::MAX
    }

    /// The request for one value of type `T`.
    pub open spec fn of<T>() -> Request {
        Request { size: size_of::<T>(), align: align_of::<T>() }
    }

    /// The request for `count` values of type `T` side by side.
    pub open spec fn array<T>(count: nat) -> Request {
        Request { size: count * size_of::<T>(), align: align_of::<T>() }
    }
}

/// A power of two is positive.
pub proof fn lemma_pow2_positive(n: int)
    requires
        is_pow2(n),
    ensures
        n > 0,
{
    reveal(is_pow2);
}

/// For a positive alignment, rounding `size` up stays within `limit` exactly
/// when `size` is at most the largest multiple of `align` within `limit`.
pub proof fn lemma_round_up_within(size: nat, align: nat, limit: nat)
    requires
        align > 0,
    ensures
        align_up(size, align) <= limit <==> size <= limit - limit % align,
{
    lemma_align_up_is_least(size, align);
    let a = align as int;
    let l = limit as int;
    let top = l - l % a;
    assert(top % a == 0 && 0 <= top <= l && l - top < a) by (nonlinear_arith)
        requires
            a > 0,
            l >= 0,
            top == l - l % a,
    ;
    let up = align_up(size, align) as int;
    if size <= top {
        assert((top as nat) % align == 0);
        assert(up <= top);
    }
    if up <= l {
        assert(up <= top) by (nonlinear_arith)
            requires
                a > 0,
                up % a == 0,
                top % a == 0,
                up <= l,
                l - top < a,
        ;
    }
}

/// Whether `n` is a power of two.
pub fn is_power_of_two(n: usize) -> (b: bool)
    ensures
        b == is_pow2(n as int),
{
    if n == 0 {
        proof {
            reveal(is_pow2);
        }
        return false;
    }
    let mut m: usize = n;
    while m % 2 == 0
        invariant
            m > 0,
            is_pow2(m as int) == is_pow2(n as int),
        decreases m,
    {
        proof {
            reveal(is_pow2);
        }
        m = m / 2;
    }
    proof {
        reveal(is_pow2);
    }
    m == 1
}

/// The largest size that a layout with the alignment `align` can have: the
/// largest multiple of `align` within `isize::MAX`.
fn max_size_for_align(align: usize) -> (max: usize)
    requires
        align > 0,
    ensures
        max == isize::MAX - (isize::MAX as int) % (align as int),
{
    let top: usize = isize::MAX as usize;
    let rem: usize = top % align;
    assert(rem <= top) by (nonlinear_arith)
        requires
            align > 0,
            rem == top % align,
    ;
    top - rem
}

/// The size and alignment of a block of memory. Every value is well formed:
/// the constructors admit no other.
#[derive(Clone, Copy, Debug)]
pub struct Layout {
    size: usize,
    align: usize,
}

impl View for Layout {
    type V = Request;

    closed spec fn view(&self) -> Request {
        Request { size: self.size as nat, align: self.align as nat }
    }
}

impl Layout {
    #[verifier::type_invariant]
    spec fn inv(self) -> bool {
        self@.wf()
    }

    /// The layout of `size` bytes aligned to `align`, if there is one: the
    /// alignment must be a power of two and the size, rounded up to it, must
    /// not exceed `isize::MAX`.
    pub fn from_size_align(size: usize, align: usize) -> (r: Option<Layout>)
        ensures
            r is Some <==> (Request { size: size as nat, align: align as nat }).wf(),
            r is Some ==> r->0@ == (Request { size: size as nat, align: align as nat }),
    {
        if !is_power_of_two(align) {
            return None;
        }
        proof {
            lemma_pow2_positive(align as int);
            lemma_round_up_within(size as nat, align as nat, isize::MAX as nat);
        }
        if size > max_size_for_align(align) {
            return None;
        }
        Some(Layout { size, align })
    }

    /// The layout of one value of type `T`.
    pub fn new<T>() -> (l: Layout)
        ensures
            l@ == Request::of::<T>(),
    {
        layout_for_type_is_valid::<T>();
        let size: usize = core::mem::size_of::<T>();
        let align: usize = core::mem::align_of::<T>();
        proof {
            lemma_round_up_within(size as nat, align as nat, isize::MAX as nat);
        }
        Layout { size, align }
    }

    /// The layout of `count` values of type `T` side by side, if there is
    /// one: the product of `count` and the size of `T`, rounded up to the
    /// alignment of `T`, must not exceed `isize::MAX`.
    pub fn array<T>(count: usize) -> (r: Option<Layout>)
        ensures
            r is Some <==> Request::array::<T>(count as nat).wf(),
            r is Some ==> r->0@ == Request::array::<T>(count as nat),
    {
        layout_for_type_is_valid::<T>();
        let elem: usize = core::mem::size_of::<T>();
        let align: usize = core::mem::align_of::<T>();
        proof {
            lemma_round_up_within((count * elem) as nat, align as nat, isize::MAX as nat);
        }
        match elem.checked_mul(count) {
            Some(size) => {
                assert(size == count * elem) by (nonlinear_arith)
                    requires
                        size == elem * count,
                ;
                if size > max_size_for_align(align) {
                    None
                } else {
                    Some(Layout { size, align })
                }
            },
            None => {
                assert(count * elem > usize::MAX) by (nonlinear_arith)
                    requires
                        elem * count > usize::MAX,
                ;
                None
            },
        }
    }

    /// The number of bytes.
    pub fn size(&self) -> (n: usize)
        ensures
            n == self@.size,
            self@.wf(),
    {
        proof {
            use_type_invariant(self);
        }
        self.size
    }

    /// The alignment of the first byte: a power of two.
    pub fn align(&self) -> (n: usize)
        ensures
            n == self@.align,
            n > 0,
            self@.wf(),
    {
        proof {
            use_type_invariant(self);
            lemma_pow2_positive(self.align as int);
        }
        self.align
    }
}

} // verus!
