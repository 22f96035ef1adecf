//! The laws of the counter protocol, proved over the store model.
//!
//! The handle operations' contracts state each single step exactly; the proof
//! functions here state what whole sequences of steps add up to: the counters
//! track the live handles, destruction of the payload and deallocation of the
//! block happen at the right moments and only then, and copy-on-write keeps
//! siblings isolated.

use vstd::prelude::*;

use crate::block::{
    blk, has_payload, live, step_alloc, step_clone_strong, step_clone_weak, step_drop_strong,
    step_drop_weak, step_store, step_upgrade, strong_at, unique, value_at, weak_at, wf_slot,
    wf_view, CcBox,
};

verus! {

/// One event in the life of one block's handles of one kind: a handle comes
/// to exist (a clone, a downgrade, a successful upgrade), or a live handle is
/// dropped.
pub enum HandleOp {
    Acquire,
    Release,
}

/// What one event does to the number of live handles of its kind.
pub open spec fn op_delta(op: HandleOp) -> int {
    match op {
        HandleOp::Acquire => 1,
        HandleOp::Release => -1,
    }
}

/// The net change in live handles over a sequence of events.
pub open spec fn op_net(ops: Seq<HandleOp>) -> int
    decreases ops.len(),
{
    if ops.len() == 0 {
        0
    } else {
        op_delta(ops[0]) + op_net(ops.drop_first())
    }
}

/// The store after the strong-handle events in `ops` hit slot `i` in order.
pub open spec fn apply_strong_ops<T>(
    v: Seq<Option<CcBox<T>>>,
    i: int,
    ops: Seq<HandleOp>,
) -> Seq<Option<CcBox<T>>>
    decreases ops.len(),
{
    if ops.len() == 0 {
        v
    } else {
        apply_strong_ops(
            match ops[0] {
                HandleOp::Acquire => step_clone_strong(v, i),
                HandleOp::Release => step_drop_strong(v, i),
            },
            i,
            ops.drop_first(),
        )
    }
}

/// The store after the weak-handle events in `ops` hit slot `i` in order.
pub open spec fn apply_weak_ops<T>(
    v: Seq<Option<CcBox<T>>>,
    i: int,
    ops: Seq<HandleOp>,
) -> Seq<Option<CcBox<T>>>
    decreases ops.len(),
{
    if ops.len() == 0 {
        v
    } else {
        apply_weak_ops(
            match ops[0] {
                HandleOp::Acquire => step_clone_weak(v, i),
                HandleOp::Release => step_drop_weak(v, i),
            },
            i,
            ops.drop_first(),
        )
    }
}

/// Splitting the net change of a prefix after its first event.
proof fn lemma_net_cons(ops: Seq<HandleOp>, k: int)
    requires
        ops.len() >= 1,
        0 <= k <= ops.len() - 1,
    ensures
        op_net(ops.take(k + 1)) == op_delta(ops[0]) + op_net(ops.drop_first().take(k)),
{
    assert(ops.take(k + 1).drop_first() =~= ops.drop_first().take(k));
    assert(ops.take(k + 1)[0] == ops[0]);
}

/// For every sequence of clone and drop events on the strong handles of one
/// block — each event adding or removing exactly one live handle — the strong
/// count moves in lockstep with the handles: afterwards it equals the
/// starting count plus the net number of handles created, provided at least
/// one handle stays live throughout (and the count stays representable).
/// Nothing else changes: not the payload, not the weak count, no other slot.
/// Starting from construction, where one handle exists and the count is 1,
/// the count therefore always equals the number of live strong handles.
pub proof fn lemma_strong_count_tracks_handles<T>(
    v: Seq<Option<CcBox<T>>>,
    i: int,
    ops: Seq<HandleOp>,
)
    requires
        live(v, i),
        forall|k: int|
            0 <= k <= ops.len() ==> 1 <= strong_at(v, i) + op_net(#[trigger] ops.take(k))
                <= usize::MAX,
    ensures
        ({
            let w = apply_strong_ops(v, i, ops);
            &&& live(w, i)
            &&& strong_at(w, i) == strong_at(v, i) + op_net(ops)
            &&& weak_at(w, i) == weak_at(v, i)
            &&& blk(w, i).value == blk(v, i).value
            &&& w.len() == v.len()
            &&& forall|j: int| 0 <= j < v.len() && j != i ==> w[j] == v[j]
        }),
    decreases ops.len(),
{
    if ops.len() == 0 {
        assert(apply_strong_ops(v, i, ops) == v);
    } else {
        let s0 = strong_at(v, i);
        assert(ops.take(0) =~= Seq::<HandleOp>::empty());
        assert(1 <= s0 + op_net(ops.take(0)) <= usize::MAX);
        lemma_net_cons(ops, 0);
        assert(ops.drop_first().take(0) =~= Seq::<HandleOp>::empty());
        assert(op_net(ops.take(1)) == op_delta(ops[0]));
        assert(1 <= s0 + op_net(ops.take(1)) <= usize::MAX);
        let w0 = match ops[0] {
            HandleOp::Acquire => step_clone_strong(v, i),
            HandleOp::Release => step_drop_strong(v, i),
        };
        assert(live(w0, i) && strong_at(w0, i) == s0 + op_delta(ops[0]));
        let tail = ops.drop_first();
        assert forall|k: int| 0 <= k <= tail.len() implies 1 <= strong_at(w0, i) + op_net(
            #[trigger] tail.take(k),
        ) <= usize::MAX by {
            lemma_net_cons(ops, k);
            assert(1 <= s0 + op_net(ops.take(k + 1)) <= usize::MAX);
        }
        lemma_strong_count_tracks_handles(w0, i, tail);
        assert(op_net(ops) == op_delta(ops[0]) + op_net(tail));
        let w = apply_strong_ops(v, i, ops);
        assert(w == apply_strong_ops(w0, i, tail));
        assert forall|j: int| 0 <= j < v.len() && j != i implies w[j] == v[j] by {
            assert(w0[j] == v[j]);
        }
    }
}

/// For every sequence of downgrade, clone and drop events on the weak handles
/// of one block — each event adding or removing exactly one live weak handle —
/// the weak count moves in lockstep with the handles: afterwards it equals
/// the starting count plus the net number of weak handles created, provided
/// the count stays at least one throughout (which the implicit unit guarantees
/// while any strong handle is live). Nothing else changes: not the payload,
/// not the strong count, no other slot. The externally observed weak count —
/// `weak_count`, the count less the implicit unit — therefore always equals
/// the number of live weak handles.
pub proof fn lemma_weak_count_tracks_handles<T>(
    v: Seq<Option<CcBox<T>>>,
    i: int,
    ops: Seq<HandleOp>,
)
    requires
        live(v, i),
        forall|k: int|
            0 <= k <= ops.len() ==> 1 <= weak_at(v, i) + op_net(#[trigger] ops.take(k))
                <= usize::MAX,
    ensures
        ({
            let w = apply_weak_ops(v, i, ops);
            &&& live(w, i)
            &&& weak_at(w, i) == weak_at(v, i) + op_net(ops)
            &&& strong_at(w, i) == strong_at(v, i)
            &&& blk(w, i).value == blk(v, i).value
            &&& w.len() == v.len()
            &&& forall|j: int| 0 <= j < v.len() && j != i ==> w[j] == v[j]
        }),
    decreases ops.len(),
{
    if ops.len() == 0 {
        assert(apply_weak_ops(v, i, ops) == v);
    } else {
        let s0 = weak_at(v, i);
        assert(ops.take(0) =~= Seq::<HandleOp>::empty());
        assert(1 <= s0 + op_net(ops.take(0)) <= usize::MAX);
        lemma_net_cons(ops, 0);
        assert(ops.drop_first().take(0) =~= Seq::<HandleOp>::empty());
        assert(op_net(ops.take(1)) == op_delta(ops[0]));
        assert(1 <= s0 + op_net(ops.take(1)) <= usize::MAX);
        let w0 = match ops[0] {
            HandleOp::Acquire => step_clone_weak(v, i),
            HandleOp::Release => step_drop_weak(v, i),
        };
        assert(live(w0, i) && weak_at(w0, i) == s0 + op_delta(ops[0]));
        let tail = ops.drop_first();
        assert forall|k: int| 0 <= k <= tail.len() implies 1 <= weak_at(w0, i) + op_net(
            #[trigger] tail.take(k),
        ) <= usize::MAX by {
            lemma_net_cons(ops, k);
            assert(1 <= s0 + op_net(ops.take(k + 1)) <= usize::MAX);
        }
        lemma_weak_count_tracks_handles(w0, i, tail);
        assert(op_net(ops) == op_delta(ops[0]) + op_net(tail));
        let w = apply_weak_ops(v, i, ops);
        assert(w == apply_weak_ops(w0, i, tail));
        assert forall|j: int| 0 <= j < v.len() && j != i implies w[j] == v[j] by {
            assert(w0[j] == v[j]);
        }
    }
}

/// Uniqueness is exactly one strong handle and no external weak handle: the
/// strong count is 1 and the weak count, the implicit unit excluded, is 0.
pub proof fn lemma_unique_iff_counts<T>(v: Seq<Option<CcBox<T>>>, i: int)
    requires
        wf_view(v),
        live(v, i),
        strong_at(v, i) >= 1,
    ensures
        unique(v, i) <==> (strong_at(v, i) == 1 && weak_at(v, i) - 1 == 0),
{
}

/// Dropping the last strong handle while weak handles remain destroys the
/// payload but not the block: the block stays allocated with the implicit
/// weak unit released, any upgrade attempted afterwards yields nothing and
/// changes nothing, and the block is deallocated exactly when the last weak
/// handle is dropped.
pub proof fn lemma_last_strong_drop_defers_dealloc<T>(v: Seq<Option<CcBox<T>>>, i: int)
    requires
        wf_view(v),
        live(v, i),
        strong_at(v, i) == 1,
        weak_at(v, i) >= 2,
    ensures
        ({
            let w = step_drop_strong(v, i);
            &&& live(w, i)
            &&& !has_payload(w, i)
            &&& strong_at(w, i) == 0
            &&& weak_at(w, i) == weak_at(v, i) - 1
            &&& step_upgrade(w, i) == w
            &&& (weak_at(w, i) >= 2 ==> live(step_drop_weak(w, i), i))
            &&& (weak_at(w, i) == 1 ==> !live(step_drop_weak(w, i), i))
        }),
{
    assert(wf_slot(v, i));
}

/// Copy-on-write isolation: on a shared block, re-pointing one handle at a
/// fresh duplicate of the payload and then mutating through it never affects
/// the value observed through a sibling handle taken beforehand; a handle of
/// the fresh block — as every clone made afterwards is — observes exactly the
/// mutated value, and the fresh block is unique.
pub proof fn lemma_cow_isolates_siblings<T>(v: Seq<Option<CcBox<T>>>, i: int, d: T, x: T)
    requires
        wf_view(v),
        live(v, i),
        strong_at(v, i) >= 2,
    ensures
        ({
            let n = v.len() as int;
            let w = step_store(step_drop_strong(step_alloc(v, d), i), n, x);
            &&& live(w, i) && live(w, n)
            &&& value_at(w, i) == value_at(v, i)
            &&& strong_at(w, i) == strong_at(v, i) - 1
            &&& value_at(w, n) == x
            &&& unique(w, n)
        }),
{
    assert(wf_slot(v, i));
    let n = v.len() as int;
    let a = step_alloc(v, d);
    assert(a[i] == v[i]);
    assert(strong_at(a, i) == strong_at(v, i));
}

} // verus!
