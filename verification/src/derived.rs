//! The derived operations: introspection of the counters, the uniqueness
//! test, and the consuming operations built on it. All of them work purely
//! through the counter protocol; only `try_unwrap` touches allocation.

use vstd::prelude::*;

use crate::block::{
    is_strong, lemma_wf_store, lemma_wf_update, step_free, step_store, strong_at, unique,
    value_at, weak_at, wf_slot,
};
use crate::heap::CcHeap;
use crate::strong::Cc;

verus! {

/// The number of live weak handles on this value, the implicit unit excluded:
/// observers see only the externally created ones.
pub fn weak_count<T>(heap: &CcHeap<T>, this: &Cc) -> (r: usize)
    requires
        heap.wf(),
        is_strong(heap@, this.id()),
    ensures
        r as int == weak_at(heap@, this.id()) - 1,
{
    proof {
        assert(wf_slot(heap@, this.id()));
    }
    heap.weak(this.slot) - 1
}

/// The number of live strong handles on this value.
pub fn strong_count<T>(heap: &CcHeap<T>, this: &Cc) -> (r: usize)
    requires
        heap.wf(),
        is_strong(heap@, this.id()),
    ensures
        r as int == strong_at(heap@, this.id()),
{
    heap.strong(this.slot)
}

/// True exactly when no other handle shares the block: one strong handle and
/// no weak handle beside the implicit unit. Equivalently, `strong_count` is 1
/// and `weak_count` is 0.
pub fn is_unique<T>(heap: &CcHeap<T>, rc: &Cc) -> (r: bool)
    requires
        heap.wf(),
        is_strong(heap@, rc.id()),
    ensures
        r == unique(heap@, rc.id()),
{
    weak_count(heap, rc) == 0 && strong_count(heap, rc) == 1
}

/// Unwraps the contained value if the handle is unique: the payload is moved
/// out and the block deallocated outright, leaving no residual block. On a
/// shared handle, the handle itself is returned unchanged and the store is
/// untouched.
pub fn try_unwrap<T>(heap: &mut CcHeap<T>, rc: Cc) -> (r: Result<T, Cc>)
    requires
        old(heap).wf(),
        is_strong(old(heap)@, rc.id()),
    ensures
        final(heap).wf(),
        unique(old(heap)@, rc.id()) ==> {
            &&& r is Ok
            &&& r->Ok_0 == value_at(old(heap)@, rc.id())
            &&& final(heap)@ == step_free(old(heap)@, rc.id())
        },
        !unique(old(heap)@, rc.id()) ==> {
            &&& r is Err
            &&& r->Err_0 == rc
            &&& final(heap)@ == old(heap)@
        },
{
    if is_unique(heap, &rc) {
        let ghost v0 = heap@;
        let i = rc.slot;
        proof {
            assert(wf_slot(v0, rc.id()));
        }
        let val = heap.take_value(i);
        heap.free_slot(i);
        proof {
            assert(heap@ =~= step_free(v0, rc.id()));
            lemma_wf_update(v0, rc.id(), None);
            assert(step_free(v0, rc.id()) == v0.update(rc.id(), None));
        }
        Ok(val)
    } else {
        Err(rc)
    }
}

/// A mutable borrow of the contained value if the handle is unique, nothing
/// otherwise. While the borrow lives, no other handle can observe the block,
/// so the mutation is unobservable elsewhere.
pub fn get_mut<'a, T>(heap: &'a mut CcHeap<T>, rc: &Cc) -> (r: Option<&'a mut T>)
    requires
        old(heap).wf(),
        is_strong(old(heap)@, rc.id()),
    ensures
        r is Some <==> unique(old(heap)@, rc.id()),
        r is None ==> final(heap)@ == old(heap)@,
        r is Some ==> *r.unwrap() == value_at(old(heap)@, rc.id()) && final(heap)@ == step_store(
            old(heap)@,
            rc.id(),
            *final(r.unwrap()),
        ),
        final(heap).wf(),
{
    if is_unique(heap, rc) {
        proof {
            assert(wf_slot(heap@, rc.id()));
            lemma_wf_store(heap@, rc.id());
        }
        Some(heap.value_mut(rc.slot))
    } else {
        None
    }
}

} // verus!
