//! The strong handle.
//!
//! A `Cc` is an owning reference to a shared block: one unit of the block's
//! strong count. It is deliberately neither `Copy` nor `Clone` — a new unit
//! comes to exist only through `clone_in`, `upgrade` or `new`, which adjust
//! the counters, and a unit goes away only through `drop_in`, which performs
//! the decrement-and-maybe-destroy protocol.

use vstd::prelude::*;

use crate::block::{
    blk, is_strong, lemma_wf_push, lemma_wf_store, lemma_wf_update, step_alloc,
    step_clone_strong, step_clone_weak, step_drop_strong, step_store, strong_at, unique, value_at,
    weak_at, wf_slot, CcBox,
};
use crate::derived::is_unique;
use crate::heap::CcHeap;
use crate::weak::Weak;

verus! {

/// An owning handle on a shared block: one unit of its strong count.
pub struct Cc {
    pub(crate) slot: usize,
}

impl Cc {
    /// The slot index of the block this handle refers to.
    pub open(crate) spec fn id(self) -> int {
        self.slot as int
    }

    /// Constructs a new `Cc`, allocating a fresh block in `heap` that holds
    /// `value` with `strong = 1` and the implicit weak unit.
    pub fn new<T>(heap: &mut CcHeap<T>, value: T) -> (h: Cc)
        requires
            old(heap).wf(),
        ensures
            final(heap).wf(),
            final(heap)@ == step_alloc(old(heap)@, value),
            h.id() == old(heap)@.len(),
    {
        let ghost v0 = heap@;
        let ghost gv = value;
        let slot = heap.allocate(value);
        proof {
            lemma_wf_push(v0, Some(CcBox { value: Some(gv), strong: 1, weak: 1 }));
        }
        Cc { slot }
    }

    /// Clones this handle: the block's strong count rises by one and a second
    /// handle to the same block is returned. The payload is not copied.
    pub fn clone_in<T>(&self, heap: &mut CcHeap<T>) -> (h: Cc)
        requires
            old(heap).wf(),
            is_strong(old(heap)@, self.id()),
            strong_at(old(heap)@, self.id()) < usize::MAX,
        ensures
            final(heap).wf(),
            final(heap)@ == step_clone_strong(old(heap)@, self.id()),
            h.id() == self.id(),
    {
        let ghost v0 = heap@;
        heap.inc_strong(self.slot);
        proof {
            lemma_wf_update(
                v0,
                self.id(),
                Some(
                    CcBox {
                        value: blk(v0, self.id()).value,
                        strong: (strong_at(v0, self.id()) + 1) as usize,
                        weak: blk(v0, self.id()).weak,
                    },
                ),
            );
        }
        Cc { slot: self.slot }
    }

    /// Downgrades this handle to a weak handle on the same block: the weak
    /// count rises by one, the strong count is untouched.
    pub fn downgrade<T>(&self, heap: &mut CcHeap<T>) -> (w: Weak)
        requires
            old(heap).wf(),
            is_strong(old(heap)@, self.id()),
            weak_at(old(heap)@, self.id()) < usize::MAX,
        ensures
            final(heap).wf(),
            final(heap)@ == step_clone_weak(old(heap)@, self.id()),
            w.id() == self.id(),
    {
        let ghost v0 = heap@;
        heap.inc_weak(self.slot);
        proof {
            lemma_wf_update(
                v0,
                self.id(),
                Some(
                    CcBox {
                        value: blk(v0, self.id()).value,
                        strong: blk(v0, self.id()).strong,
                        weak: (weak_at(v0, self.id()) + 1) as usize,
                    },
                ),
            );
        }
        Weak { slot: self.slot }
    }

    /// Borrows the payload. It exists as long as this handle does, by the
    /// strong-count invariant.
    pub fn get<'a, T>(&self, heap: &'a CcHeap<T>) -> (r: &'a T)
        requires
            heap.wf(),
            is_strong(heap@, self.id()),
        ensures
            *r == value_at(heap@, self.id()),
    {
        proof {
            assert(wf_slot(heap@, self.id()));
        }
        heap.value_ref(self.slot)
    }

    /// Copy-on-write access: a mutable borrow of a payload that is guaranteed
    /// not to be shared. On a unique handle, the borrow is into the handle's
    /// own block. On a shared one, `self` is first re-pointed at a freshly
    /// allocated block holding a duplicate of the payload, and the old strong
    /// unit is dropped; mutation through the borrow can then never affect
    /// another handle.
    pub fn make_unique<'a, T: Clone>(&mut self, heap: &'a mut CcHeap<T>) -> (r: &'a mut T)
        requires
            old(heap).wf(),
            is_strong(old(heap)@, old(self).id()),
        ensures
            final(heap).wf(),
            is_strong(final(heap)@, final(self).id()),
            unique(old(heap)@, old(self).id()) ==> {
                &&& *final(self) == *old(self)
                &&& *r == value_at(old(heap)@, old(self).id())
                &&& final(heap)@ == step_store(old(heap)@, old(self).id(), *final(r))
            },
            !unique(old(heap)@, old(self).id()) ==> {
                &&& final(self).id() == old(heap)@.len()
                &&& cloned::<T>(value_at(old(heap)@, old(self).id()), *r)
                &&& final(heap)@ == step_store(
                    step_drop_strong(step_alloc(old(heap)@, *r), old(self).id()),
                    old(heap)@.len() as int,
                    *final(r),
                )
            },
    {
        let ghost v0 = heap@;
        let ghost i0 = self.id();
        if !is_unique(heap, self) {
            proof {
                assert(wf_slot(v0, i0));
            }
            let dup = heap.value_ref(self.slot).clone();
            let ghost gd = dup;
            let fresh = heap.allocate(dup);
            proof {
                lemma_wf_push(v0, Some(CcBox { value: Some(gd), strong: 1, weak: 1 }));
            }
            let prior = Cc { slot: self.slot };
            self.slot = fresh;
            let _ = prior.drop_in(heap);
            proof {
                assert(value_at(heap@, self.id()) == gd);
                lemma_wf_store(heap@, self.id());
                assert(wf_slot(heap@, self.id()));
            }
            heap.value_mut(self.slot)
        } else {
            proof {
                assert(wf_slot(v0, i0));
                lemma_wf_store(heap@, self.id());
            }
            heap.value_mut(self.slot)
        }
    }

    /// Drops this handle: the strong count falls by one. Dropping the last
    /// strong handle destroys the payload — it is returned, so that the caller
    /// can release any handles stored inside it — then releases the implicit
    /// weak unit, and deallocates the block if no weak handle remains either.
    pub fn drop_in<T>(self, heap: &mut CcHeap<T>) -> (r: Option<T>)
        requires
            old(heap).wf(),
            is_strong(old(heap)@, self.id()),
        ensures
            final(heap).wf(),
            final(heap)@ == step_drop_strong(old(heap)@, self.id()),
            r == (if strong_at(old(heap)@, self.id()) == 1 {
                Some(value_at(old(heap)@, self.id()))
            } else {
                None::<T>
            }),
    {
        let ghost v0 = heap@;
        let ghost i0 = self.id();
        let i = self.slot;
        proof {
            assert(wf_slot(v0, i0));
        }
        heap.dec_strong(i);
        if heap.strong(i) == 0 {
            let val = heap.take_value(i);
            heap.dec_weak(i);
            if heap.weak(i) == 0 {
                heap.free_slot(i);
                proof {
                    assert(heap@ =~= step_drop_strong(v0, i0));
                    lemma_wf_update(v0, i0, None);
                    assert(step_drop_strong(v0, i0) == v0.update(i0, None));
                }
            } else {
                proof {
                    assert(heap@ =~= step_drop_strong(v0, i0));
                    lemma_wf_update(
                        v0,
                        i0,
                        Some(
                            CcBox {
                                value: None,
                                strong: 0,
                                weak: (weak_at(v0, i0) - 1) as usize,
                            },
                        ),
                    );
                }
            }
            Some(val)
        } else {
            proof {
                assert(heap@ =~= step_drop_strong(v0, i0));
                lemma_wf_update(
                    v0,
                    i0,
                    Some(
                        CcBox {
                            value: blk(v0, i0).value,
                            strong: (strong_at(v0, i0) - 1) as usize,
                            weak: blk(v0, i0).weak,
                        },
                    ),
                );
            }
            None
        }
    }
}

} // verus!
