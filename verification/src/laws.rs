//! What holds of every run of allocations.

use crate::align::{lemma_align_up_is_least, padding};
use crate::layout::Request;
use crate::model::{lemma_allocation_keeps_wf, State};
use crate::VIRT_ALLOC_SIZE;
use vstd::layout::{align_of, size_of};
use vstd::prelude::*;

verus! {

/// The state that `s` has become when the first `n` of the requests `rs`
/// have been served, one after the other.
pub open spec fn state_at(s: State, rs: Seq<Request>, n: nat) -> State
    decreases n,
{
    if n == 0 {
        s
    } else {
        state_at(s, rs, (n - 1) as nat).after(rs[n - 1])
    }
}

/// The address of the block that the request `rs[i]` is served with.
pub open spec fn address(s: State, rs: Seq<Request>, i: nat) -> nat {
    state_at(s, rs, i).place(rs[i as int])
}

/// Whether the requests `rs`, served from `s` on, stay within the
/// reservation: each one has a positive alignment and fits when its turn
/// comes.
pub open spec fn admits(s: State, rs: Seq<Request>) -> bool {
    forall|i: nat|
        #![trigger state_at(s, rs, i)]
        #![trigger rs[i as int]]
        i < rs.len() ==> rs[i as int].align > 0 && state_at(s, rs, i).fits(rs[i as int])
}

/// The bytes that the first `n` requests take up together: for each one its
/// size and the padding in front of its block.
pub open spec fn spent(s: State, rs: Seq<Request>, n: nat) -> nat
    decreases n,
{
    if n == 0 {
        0
    } else {
        let before = state_at(s, rs, (n - 1) as nat);
        spent(s, rs, (n - 1) as nat) + padding(before.cursor(), rs[n - 1].align) + rs[n - 1].size
    }
}

/// Every state of a run that stays within the reservation is well formed
/// and has the base that the run began with.
pub proof fn lemma_run_wf(s: State, rs: Seq<Request>, n: nat)
    requires
        s.wf(),
        admits(s, rs),
        n <= rs.len(),
    ensures
        state_at(s, rs, n).wf(),
        state_at(s, rs, n).base == s.base,
    decreases n,
{
    if n > 0 {
        let m = (n - 1) as nat;
        lemma_run_wf(s, rs, m);
        lemma_allocation_keeps_wf(state_at(s, rs, m), rs[m as int]);
    }
}

/// The number of bytes used never goes down in the course of a run, and
/// neither does the extent of the backed memory.
pub proof fn lemma_used_is_monotone(s: State, rs: Seq<Request>, m: nat, n: nat)
    requires
        s.wf(),
        admits(s, rs),
        m <= n <= rs.len(),
    ensures
        state_at(s, rs, m).used <= state_at(s, rs, n).used,
        state_at(s, rs, m).committed <= state_at(s, rs, n).committed,
    decreases n,
{
    if m < n {
        let k = (n - 1) as nat;
        lemma_used_is_monotone(s, rs, m, k);
        lemma_run_wf(s, rs, k);
        lemma_allocation_keeps_wf(state_at(s, rs, k), rs[k as int]);
    }
}

/// The number of bytes used grows by exactly what the requests take up,
/// padding included. From a new or reset arena it is that sum.
pub proof fn lemma_used_is_sum(s: State, rs: Seq<Request>, n: nat)
    requires
        s.wf(),
        admits(s, rs),
        n <= rs.len(),
    ensures
        state_at(s, rs, n).used == s.used + spent(s, rs, n),
    decreases n,
{
    if n > 0 {
        let k = (n - 1) as nat;
        lemma_used_is_sum(s, rs, k);
        lemma_run_wf(s, rs, k);
        lemma_allocation_keeps_wf(state_at(s, rs, k), rs[k as int]);
    }
}

/// Each block of a run starts at a multiple of the alignment asked for, at
/// or after the cursor, and lies between the start of the reservation and
/// the cursor as it stands right after the allocation.
pub proof fn lemma_block_is_aligned_and_within(s: State, rs: Seq<Request>, i: nat)
    requires
        s.wf(),
        admits(s, rs),
        i < rs.len(),
    ensures
        address(s, rs, i) % rs[i as int].align == 0,
        s.base <= state_at(s, rs, i).cursor() <= address(s, rs, i),
        address(s, rs, i) + rs[i as int].size == state_at(s, rs, i + 1).cursor(),
        state_at(s, rs, i + 1).cursor() <= s.base + VIRT_ALLOC_SIZE,
{
    let before = state_at(s, rs, i);
    lemma_run_wf(s, rs, i);
    lemma_run_wf(s, rs, i + 1);
    lemma_align_up_is_least(before.cursor(), rs[i as int].align);
    lemma_allocation_keeps_wf(before, rs[i as int]);
}

/// No two blocks of a run overlap: the earlier one ends before the later
/// one starts.
pub proof fn lemma_blocks_are_disjoint(s: State, rs: Seq<Request>, i: nat, j: nat)
    requires
        s.wf(),
        admits(s, rs),
        i < j < rs.len(),
    ensures
        address(s, rs, i) + rs[i as int].size <= address(s, rs, j),
{
    lemma_block_is_aligned_and_within(s, rs, i);
    lemma_block_is_aligned_and_within(s, rs, j);
    lemma_used_is_monotone(s, rs, i + 1, j);
    lemma_run_wf(s, rs, i + 1);
    lemma_run_wf(s, rs, j);
}

/// Where the blocks of a run go depends on the base and on the cursor it
/// starts from, not on how far memory is backed: two states that agree on
/// those serve the same requests with the same blocks.
pub proof fn lemma_addresses_follow_cursor(s: State, t: State, rs: Seq<Request>, n: nat)
    requires
        s.base == t.base,
        s.used == t.used,
    ensures
        state_at(s, rs, n).base == state_at(t, rs, n).base,
        state_at(s, rs, n).used == state_at(t, rs, n).used,
        address(s, rs, n) == address(t, rs, n),
        state_at(s, rs, n).fits(rs[n as int]) == state_at(t, rs, n).fits(rs[n as int]),
    decreases n,
{
    if n > 0 {
        lemma_addresses_follow_cursor(s, t, rs, (n - 1) as nat);
    }
}

/// After a reset an arena serves a sequence of requests with the very
/// blocks that it would have served it with when it was new, whatever it
/// has handed out in between.
pub proof fn lemma_reset_replays(fresh: State, now: State, rs: Seq<Request>, i: nat)
    requires
        fresh.used == 0,
        now.base == fresh.base,
    ensures
        address(now.reset(), rs, i) == address(fresh, rs, i),
        state_at(now.reset(), rs, i).used == state_at(fresh, rs, i).used,
        admits(fresh, rs) ==> admits(now.reset(), rs),
{
    lemma_addresses_follow_cursor(now.reset(), fresh, rs, i);
    if admits(fresh, rs) {
        assert forall|k: nat| k < rs.len() implies (#[trigger] state_at(now.reset(), rs, k)).fits(
            rs[k as int],
        ) by {
            lemma_addresses_follow_cursor(now.reset(), fresh, rs, k);
        }
    }
}

/// A request for no bytes moves the cursor by the padding alone, to the
/// address of the empty block.
pub proof fn lemma_empty_block_costs_padding(s: State, r: Request)
    requires
        s.wf(),
        r.align > 0,
        r.size == 0,
        s.fits(r),
    ensures
        s.after(r).cursor() == s.place(r),
        s.after(r).used == s.used + padding(s.cursor(), r.align),
{
    lemma_allocation_keeps_wf(s, r);
}

/// The elements of a block for several values of a type lie side by side,
/// each at a multiple of the alignment of the type when the block is.
pub proof fn lemma_array_elements_are_aligned<T>(addr: nat, i: nat)
    requires
        addr % align_of::<T>() == 0,
    ensures
        (addr + i * size_of::<T>()) % align_of::<T>() == 0,
{
    broadcast use vstd::layout::group_align_properties;

    let a = align_of::<T>() as int;
    let n = size_of::<T>() as int;
    let x = addr as int;
    let k = n / a;
    let m = x / a;
    assert(n == a * k && x == a * m) by (nonlinear_arith)
        requires
            a > 0,
            n % a == 0,
            x % a == 0,
            k == n / a,
            m == x / a,
    ;
    let q = m + i * k;
    assert(x + i * n == a * q) by (nonlinear_arith)
        requires
            n == a * k,
            x == a * m,
            q == m + i * k,
    ;
    assert((a * q) % a == 0) by (nonlinear_arith)
        requires
            a > 0,
    ;
}

/// The backed part always covers what is in use, and the ranges that the
/// allocations of a run ask to have backed follow one another without
/// overlap: no byte is backed twice.
pub proof fn lemma_commits_never_repeat(s: State, rs: Seq<Request>, i: nat, j: nat)
    requires
        s.wf(),
        admits(s, rs),
        i < j < rs.len(),
    ensures
        state_at(s, rs, j).used <= state_at(s, rs, j).committed,
        s.committed <= state_at(s, rs, i).committed,
        state_at(s, rs, i + 1).committed <= state_at(s, rs, j).committed,
{
    lemma_run_wf(s, rs, j);
    lemma_used_is_monotone(s, rs, 0, i);
    lemma_used_is_monotone(s, rs, i + 1, j);
}

/// Where the whole reservation counts as backed, no allocation asks for
/// memory to be backed.
pub proof fn lemma_overcommitted_never_commits(s: State, r: Request)
    requires
        s.wf(),
        s.committed == VIRT_ALLOC_SIZE,
        r.align > 0,
        s.fits(r),
    ensures
        s.after(r).committed == s.committed,
{
    lemma_allocation_keeps_wf(s, r);
}

} // verus!
