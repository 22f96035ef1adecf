//! The weak handle.
//!
//! A `Weak` is a non-owning reference to a shared block: one unit of the
//! block's weak count, beside the implicit unit the strong group holds. It
//! never grants access to the payload; only a successful `upgrade` does, and
//! only while the payload still exists.

use vstd::prelude::*;

use crate::block::{
    blk, is_weak, lemma_wf_update, step_clone_weak, step_drop_weak, step_upgrade, strong_at,
    weak_at, CcBox,
};
use crate::heap::CcHeap;
use crate::strong::Cc;

verus! {

/// A non-owning handle on a shared block: one unit of its weak count.
pub struct Weak {
    pub(crate) slot: usize,
}

impl Weak {
    /// The slot index of the block this handle refers to.
    pub open(crate) spec fn id(self) -> int {
        self.slot as int
    }

    /// Upgrades this handle to a strong handle, if the payload still exists:
    /// `None` once the last strong handle is gone, otherwise one more strong
    /// unit and a fresh `Cc` on the same block. The check is made anew on
    /// every call.
    pub fn upgrade<T>(&self, heap: &mut CcHeap<T>) -> (r: Option<Cc>)
        requires
            old(heap).wf(),
            is_weak(old(heap)@, self.id()),
            strong_at(old(heap)@, self.id()) < usize::MAX,
        ensures
            final(heap).wf(),
            final(heap)@ == step_upgrade(old(heap)@, self.id()),
            r is Some <==> strong_at(old(heap)@, self.id()) >= 1,
            r is Some ==> r->Some_0.id() == self.id(),
    {
        let ghost v0 = heap@;
        if heap.strong(self.slot) == 0 {
            None
        } else {
            heap.inc_strong(self.slot);
            proof {
                lemma_wf_update(
                    v0,
                    self.id(),
                    Some(
                        CcBox {
                            value: blk(v0, self.id()).value,
                            strong: (strong_at(v0, self.id()) + 1) as usize,
                            weak: blk(v0, self.id()).weak,
                        },
                    ),
                );
            }
            Some(Cc { slot: self.slot })
        }
    }

    /// Clones this handle: the block's weak count rises by one.
    pub fn clone_in<T>(&self, heap: &mut CcHeap<T>) -> (w: Weak)
        requires
            old(heap).wf(),
            is_weak(old(heap)@, self.id()),
            weak_at(old(heap)@, self.id()) < usize::MAX,
        ensures
            final(heap).wf(),
            final(heap)@ == step_clone_weak(old(heap)@, self.id()),
            w.id() == self.id(),
    {
        let ghost v0 = heap@;
        heap.inc_weak(self.slot);
        proof {
            lemma_wf_update(
                v0,
                self.id(),
                Some(
                    CcBox {
                        value: blk(v0, self.id()).value,
                        strong: blk(v0, self.id()).strong,
                        weak: (weak_at(v0, self.id()) + 1) as usize,
                    },
                ),
            );
        }
        Weak { slot: self.slot }
    }

    /// Drops this handle: the weak count falls by one, and the block is
    /// deallocated when the count thereby reaches zero — which can only happen
    /// after the payload is gone and the implicit unit has been released.
    pub fn drop_in<T>(self, heap: &mut CcHeap<T>)
        requires
            old(heap).wf(),
            is_weak(old(heap)@, self.id()),
        ensures
            final(heap).wf(),
            final(heap)@ == step_drop_weak(old(heap)@, self.id()),
    {
        let ghost v0 = heap@;
        let ghost i0 = self.id();
        let i = self.slot;
        heap.dec_weak(i);
        if heap.weak(i) == 0 {
            heap.free_slot(i);
            proof {
                assert(heap@ =~= step_drop_weak(v0, i0));
                lemma_wf_update(v0, i0, None);
                assert(step_drop_weak(v0, i0) == v0.update(i0, None));
            }
        } else {
            proof {
                lemma_wf_update(
                    v0,
                    i0,
                    Some(
                        CcBox {
                            value: blk(v0, i0).value,
                            strong: blk(v0, i0).strong,
                            weak: (weak_at(v0, i0) - 1) as usize,
                        },
                    ),
                );
            }
        }
    }
}

} // verus!
