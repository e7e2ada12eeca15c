//! Rounding an address up to a multiple of an alignment.

use vstd::prelude::*;

verus! {

/// The number of bytes between `addr` and the next multiple of `align` at or
/// after it. Zero when `addr` is itself a multiple.
pub open spec fn padding(addr: nat, align: nat) -> nat {
    if addr % align == 0 {
        0
    } else {
        (align - addr % align) as nat
    }
}

/// `addr` rounded up to a multiple of `align`.
pub open spec fn align_up(addr: nat, align: nat) -> nat {
    addr + padding(addr, align)
}

/// `align_up(addr, align)` is the least multiple of `align` that is not below
/// `addr`: it is a multiple, it is at least `addr`, it is less than one
/// alignment away, and every multiple `m >= addr` is at least as large.
pub proof fn lemma_align_up_is_least(addr: nat, align: nat)
    requires
        align > 0,
    ensures
        align_up(addr, align) % align == 0,
        addr <= align_up(addr, align) < addr + align,
        forall|m: nat| addr <= m && #[trigger] (m % align) == 0 ==> align_up(addr, align) <= m,
{
    let a = align as int;
    let x = addr as int;
    let up = align_up(addr, align) as int;
    let q = x / a;
    assert(x == a * q + x % a && 0 <= x % a < a && a * (q + 1) == a * q + a) by (nonlinear_arith)
        requires
            a > 0,
            q == x / a,
    ;
    assert(up == a * q || up == a * (q + 1));
    assert(up % a == 0) by (nonlinear_arith)
        requires
            a > 0,
            up == a * q || up == a * (q + 1),
    ;
    assert forall|m: nat| addr <= m && #[trigger] (m % align) == 0 implies up <= m by {
        let k = (m as int) / a;
        assert(m as int == a * k) by (nonlinear_arith)
            requires
                a > 0,
                k == (m as int) / a,
                (m as int) % a == 0,
        ;
        if up != x {
            assert(a * (q + 1) <= a * k) by (nonlinear_arith)
                requires
                    a > 0,
                    a * q < a * k,
            ;
        }
    }
}

/// A multiple of `align` that lies in `[addr, addr + align)` is
/// `align_up(addr, align)`: there is only one.
pub proof fn lemma_align_up_is_unique(addr: nat, align: nat, m: nat)
    requires
        align > 0,
        m % align == 0,
        addr <= m < addr + align,
    ensures
        m == align_up(addr, align),
{
    lemma_align_up_is_least(addr, align);
    let up = align_up(addr, align);
    let a = align as int;
    assert(up == m) by (nonlinear_arith)
        requires
            a > 0,
            (up as int) % a == 0,
            (m as int) % a == 0,
            up <= m,
            m - up < a,
    ;
}

/// The padding that brings `addr` up to a multiple of `align`.
pub fn padding_for(addr: usize, align: usize) -> (pad: usize)
    requires
        align > 0,
    ensures
        pad == padding(addr as nat, align as nat),
        pad < align,
{
    let rem: usize = addr % align;
    if rem == 0 {
        0
    } else {
        align - rem
    }
}

} // verus!
