//! The store that owns the shared blocks, and the counter protocol.
//!
//! Every handle refers to a block by its slot index in one `CcHeap`. A slot is
//! allocated by `Cc::new` and set back to `None` exactly once, when the last
//! count reaches zero; slots are never reused, so a live handle's index always
//! denotes the block it was created for.

use vstd::prelude::*;

use crate::block::{
    blk, has_payload, is_strong, is_weak, lemma_wf_store, live, live_count, step_alloc,
    step_clone_strong, step_clone_weak, step_free, step_store, strong_at, value_at, weak_at,
    wf_slot, wf_view, CcBox,
};
use crate::strong::Cc;
use crate::weak::Weak;

verus! {

/// The store of shared blocks. All handle operations act on one store; a
/// handle created against one store must never be used against another.
pub struct CcHeap<T> {
    slots: Vec<Option<CcBox<T>>>,
}

impl<T> View for CcHeap<T> {
    type V = Seq<Option<CcBox<T>>>;

    closed spec fn view(&self) -> Seq<Option<CcBox<T>>> {
        self.slots@
    }
}

impl<T> CcHeap<T> {
    /// The store's invariant: every allocated block keeps `weak >= 1` and its
    /// payload exists exactly while `strong > 0`.
    pub open spec fn wf(&self) -> bool {
        wf_view(self@)
    }

    /// An empty store, holding no blocks.
    pub fn new() -> (heap: Self)
        ensures
            heap.wf(),
            heap@ == Seq::<Option<CcBox<T>>>::empty(),
    {
        CcHeap { slots: Vec::new() }
    }

    /// Replaces the payload of the block that `h` owns, handing the previous
    /// payload back; the counters are untouched. This models mutation through
    /// interior mutability of the payload: every handle sharing the block
    /// observes the new value.
    pub fn replace(&mut self, h: &Cc, value: T) -> (prev: T)
        requires
            old(self).wf(),
            is_strong(old(self)@, h.id()),
        ensures
            final(self).wf(),
            final(self)@ == step_store(old(self)@, h.id(), value),
            prev == value_at(old(self)@, h.id()),
    {
        let ghost v0 = self@;
        let ghost gv = value;
        proof {
            assert(wf_slot(v0, h.id()));
            lemma_wf_store(v0, h.id());
        }
        let prev = match &mut self.slots[h.slot] {
            Some(b) => {
                let prev_opt = b.value.take();
                b.value = Some(value);
                match prev_opt {
                    Some(x) => x,
                    None => unreached(),
                }
            },
            None => unreached(),
        };
        proof {
            assert(self@ =~= step_store(v0, h.id(), gv));
        }
        prev
    }

    /// The number of blocks not yet deallocated. Slots are never reused, so
    /// this is the store's entire footprint.
    pub fn live_blocks(&self) -> (n: usize)
        ensures
            n as int == live_count(self@, self@.len() as int),
    {
        let mut n: usize = 0;
        let mut j: usize = 0;
        while j < self.slots.len()
            invariant
                j <= self.slots@.len(),
                n <= j,
                n as int == live_count(self@, j as int),
            decreases self.slots@.len() - j,
        {
            match &self.slots[j] {
                Some(_) => {
                    n = n + 1;
                },
                None => {},
            }
            j = j + 1;
        }
        n
    }

    /// Whether `h` is currently an accounted strong handle on this store:
    /// its block is allocated and the strong count covers it.
    pub fn valid_strong(&self, h: &Cc) -> (r: bool)
        ensures
            r == is_strong(self@, h.id()),
    {
        h.slot < self.slots.len() && match &self.slots[h.slot] {
            Some(b) => b.strong >= 1,
            None => false,
        }
    }

    /// Whether `w` is currently an accounted weak handle on this store: its
    /// block is allocated and the weak count covers it beside the implicit
    /// unit.
    pub fn valid_weak(&self, w: &Weak) -> (r: bool)
        ensures
            r == is_weak(self@, w.id()),
    {
        w.slot < self.slots.len() && match &self.slots[w.slot] {
            Some(b) => b.weak >= 1 && (b.strong == 0 || b.weak >= 2),
            None => false,
        }
    }

    /// Allocates a fresh block holding `value`, with `strong = 1` and the
    /// implicit weak unit.
    pub(crate) fn allocate(&mut self, value: T) -> (i: usize)
        ensures
            final(self)@ == step_alloc(old(self)@, value),
            i as int == old(self)@.len(),
    {
        let i = self.slots.len();
        self.slots.push(Some(CcBox { value: Some(value), strong: 1, weak: 1 }));
        i
    }

    /// Reads the strong count of the block in slot `i`.
    pub(crate) fn strong(&self, i: usize) -> (r: usize)
        requires
            live(self@, i as int),
        ensures
            r as int == strong_at(self@, i as int),
    {
        match &self.slots[i] {
            Some(b) => b.strong,
            None => unreached(),
        }
    }

    /// Reads the weak count of the block in slot `i`.
    pub(crate) fn weak(&self, i: usize) -> (r: usize)
        requires
            live(self@, i as int),
        ensures
            r as int == weak_at(self@, i as int),
    {
        match &self.slots[i] {
            Some(b) => b.weak,
            None => unreached(),
        }
    }

    /// Raises the strong count of the block in slot `i` by one.
    pub(crate) fn inc_strong(&mut self, i: usize)
        requires
            live(old(self)@, i as int),
            strong_at(old(self)@, i as int) < usize::MAX,
        ensures
            final(self)@ == step_clone_strong(old(self)@, i as int),
    {
        match &mut self.slots[i] {
            Some(b) => {
                b.strong = b.strong + 1;
            },
            None => {
                proof {
                    assert(false);
                }
            },
        }
        proof {
            assert(self@ =~= step_clone_strong(old(self)@, i as int));
        }
    }

    /// Lowers the strong count of the block in slot `i` by one.
    pub(crate) fn dec_strong(&mut self, i: usize)
        requires
            live(old(self)@, i as int),
            strong_at(old(self)@, i as int) >= 1,
        ensures
            final(self)@ == old(self)@.update(
                i as int,
                Some(
                    CcBox {
                        value: blk(old(self)@, i as int).value,
                        strong: (strong_at(old(self)@, i as int) - 1) as usize,
                        weak: blk(old(self)@, i as int).weak,
                    },
                ),
            ),
    {
        match &mut self.slots[i] {
            Some(b) => {
                b.strong = b.strong - 1;
            },
            None => {
                proof {
                    assert(false);
                }
            },
        }
        proof {
            assert(self@ =~= old(self)@.update(
                i as int,
                Some(
                    CcBox {
                        value: blk(old(self)@, i as int).value,
                        strong: (strong_at(old(self)@, i as int) - 1) as usize,
                        weak: blk(old(self)@, i as int).weak,
                    },
                ),
            ));
        }
    }

    /// Raises the weak count of the block in slot `i` by one.
    pub(crate) fn inc_weak(&mut self, i: usize)
        requires
            live(old(self)@, i as int),
            weak_at(old(self)@, i as int) < usize::MAX,
        ensures
            final(self)@ == step_clone_weak(old(self)@, i as int),
    {
        match &mut self.slots[i] {
            Some(b) => {
                b.weak = b.weak + 1;
            },
            None => {
                proof {
                    assert(false);
                }
            },
        }
        proof {
            assert(self@ =~= step_clone_weak(old(self)@, i as int));
        }
    }

    /// Lowers the weak count of the block in slot `i` by one.
    pub(crate) fn dec_weak(&mut self, i: usize)
        requires
            live(old(self)@, i as int),
            weak_at(old(self)@, i as int) >= 1,
        ensures
            final(self)@ == old(self)@.update(
                i as int,
                Some(
                    CcBox {
                        value: blk(old(self)@, i as int).value,
                        strong: blk(old(self)@, i as int).strong,
                        weak: (weak_at(old(self)@, i as int) - 1) as usize,
                    },
                ),
            ),
    {
        match &mut self.slots[i] {
            Some(b) => {
                b.weak = b.weak - 1;
            },
            None => {
                proof {
                    assert(false);
                }
            },
        }
        proof {
            assert(self@ =~= old(self)@.update(
                i as int,
                Some(
                    CcBox {
                        value: blk(old(self)@, i as int).value,
                        strong: blk(old(self)@, i as int).strong,
                        weak: (weak_at(old(self)@, i as int) - 1) as usize,
                    },
                ),
            ));
        }
    }

    /// Moves the payload out of the block in slot `i`, leaving the counters
    /// untouched. This is the payload-destruction step of dropping the last
    /// strong handle: the caller receives the value instead of a destructor
    /// running, and is responsible for releasing any handles it contains.
    pub(crate) fn take_value(&mut self, i: usize) -> (r: T)
        requires
            live(old(self)@, i as int),
            has_payload(old(self)@, i as int),
        ensures
            r == value_at(old(self)@, i as int),
            final(self)@ == old(self)@.update(
                i as int,
                Some(
                    CcBox {
                        value: None,
                        strong: blk(old(self)@, i as int).strong,
                        weak: blk(old(self)@, i as int).weak,
                    },
                ),
            ),
    {
        let r = match &mut self.slots[i] {
            Some(b) => {
                match b.value.take() {
                    Some(x) => x,
                    None => unreached(),
                }
            },
            None => unreached(),
        };
        proof {
            assert(self@ =~= old(self)@.update(
                i as int,
                Some(
                    CcBox {
                        value: None,
                        strong: blk(old(self)@, i as int).strong,
                        weak: blk(old(self)@, i as int).weak,
                    },
                ),
            ));
        }
        r
    }

    /// Deallocates the block in slot `i`: the slot becomes and stays empty.
    pub(crate) fn free_slot(&mut self, i: usize)
        requires
            live(old(self)@, i as int),
        ensures
            final(self)@ == step_free(old(self)@, i as int),
    {
        let p = &mut self.slots[i];
        *p = None;
        proof {
            assert(self@ =~= step_free(old(self)@, i as int));
        }
    }

    /// Borrows the payload of the block in slot `i`.
    pub(crate) fn value_ref(&self, i: usize) -> (r: &T)
        requires
            live(self@, i as int),
            has_payload(self@, i as int),
        ensures
            *r == value_at(self@, i as int),
    {
        match &self.slots[i] {
            Some(b) => match &b.value {
                Some(x) => x,
                None => unreached(),
            },
            None => unreached(),
        }
    }

    /// Borrows the payload of the block in slot `i` mutably; the counters are
    /// untouched, and the block ends up holding whatever the caller leaves in
    /// the borrow.
    pub(crate) fn value_mut(&mut self, i: usize) -> (r: &mut T)
        requires
            live(old(self)@, i as int),
            has_payload(old(self)@, i as int),
        ensures
            *r == value_at(old(self)@, i as int),
            final(self)@ == step_store(old(self)@, i as int, *final(r)),
    {
        match &mut self.slots[i] {
            Some(b) => match &mut b.value {
                Some(x) => x,
                None => unreached(),
            },
            None => unreached(),
        }
    }
}

} // verus!
