//! The shared block: one heap slot holding a payload and the two liveness
//! counters, together with the specification-level model of a whole store of
//! such blocks and the transitions that the handle operations perform on it.
//!
//! The model of a store is a sequence of slots; a slot is `Some(block)` while
//! the block is allocated and `None` once it has been deallocated. The payload
//! inside a block is `Some(value)` while any strong handle is live and `None`
//! once the payload has been destroyed.

use vstd::prelude::*;

verus! {

/// One shared block: the payload (present exactly while `strong > 0`), the
/// count of live strong handles, and the count of live weak handles plus one
/// implicit unit held collectively by the strong handles while `strong > 0`.
pub struct CcBox<T> {
    pub value: Option<T>,
    pub strong: usize,
    pub weak: usize,
}

/// The block stored in slot `i`; meaningful only when `live(v, i)`.
pub open spec fn blk<T>(v: Seq<Option<CcBox<T>>>, i: int) -> CcBox<T> {
    v[i]->Some_0
}

/// Slot `i` exists and has not been deallocated.
pub open spec fn live<T>(v: Seq<Option<CcBox<T>>>, i: int) -> bool {
    0 <= i < v.len() && v[i] is Some
}

/// The strong count of the block in slot `i`.
pub open spec fn strong_at<T>(v: Seq<Option<CcBox<T>>>, i: int) -> int {
    blk(v, i).strong as int
}

/// The weak count of the block in slot `i`, the implicit unit included.
pub open spec fn weak_at<T>(v: Seq<Option<CcBox<T>>>, i: int) -> int {
    blk(v, i).weak as int
}

/// The payload of the block in slot `i`; meaningful only while it exists.
pub open spec fn value_at<T>(v: Seq<Option<CcBox<T>>>, i: int) -> T {
    blk(v, i).value->Some_0
}

/// The payload of the block in slot `i` has not been destroyed yet.
pub open spec fn has_payload<T>(v: Seq<Option<CcBox<T>>>, i: int) -> bool {
    blk(v, i).value is Some
}

/// A strong handle on slot `i` is accounted for: the slot is allocated and the
/// strong count covers at least this handle.
pub open spec fn is_strong<T>(v: Seq<Option<CcBox<T>>>, i: int) -> bool {
    live(v, i) && strong_at(v, i) >= 1
}

/// A weak handle on slot `i` is accounted for: the slot is allocated and the
/// weak count covers this handle, beside the implicit unit while the strong
/// group is alive.
pub open spec fn is_weak<T>(v: Seq<Option<CcBox<T>>>, i: int) -> bool {
    live(v, i) && weak_at(v, i) >= 1 && (strong_at(v, i) >= 1 ==> weak_at(v, i) >= 2)
}

/// Exactly one strong handle and no weak handle beside the implicit unit.
pub open spec fn unique<T>(v: Seq<Option<CcBox<T>>>, i: int) -> bool {
    strong_at(v, i) == 1 && weak_at(v, i) == 1
}

/// The invariant of one slot: an allocated block keeps `weak >= 1` (the
/// implicit unit while strong handles exist, a genuine weak unit afterwards),
/// and its payload exists exactly while `strong > 0`.
pub open spec fn wf_slot<T>(v: Seq<Option<CcBox<T>>>, i: int) -> bool {
    v[i] is Some ==> {
        &&& weak_at(v, i) >= 1
        &&& (has_payload(v, i) <==> strong_at(v, i) >= 1)
    }
}

/// The invariant of a whole store: every slot satisfies `wf_slot`.
pub open spec fn wf_view<T>(v: Seq<Option<CcBox<T>>>) -> bool {
    forall|i: int| 0 <= i < v.len() ==> #[trigger] wf_slot(v, i)
}

/// Allocating a fresh block: `strong = 1`, and `weak = 1` for the implicit
/// unit held by the strong group.
pub open spec fn step_alloc<T>(v: Seq<Option<CcBox<T>>>, x: T) -> Seq<Option<CcBox<T>>> {
    v.push(Some(CcBox { value: Some(x), strong: 1, weak: 1 }))
}

/// Cloning a strong handle: the strong count of its slot rises by one.
pub open spec fn step_clone_strong<T>(v: Seq<Option<CcBox<T>>>, i: int) -> Seq<Option<CcBox<T>>> {
    v.update(
        i,
        Some(
            CcBox {
                value: blk(v, i).value,
                strong: (strong_at(v, i) + 1) as usize,
                weak: blk(v, i).weak,
            },
        ),
    )
}

/// Dropping a strong handle. While other strong handles remain, only the
/// strong count falls. Dropping the last one destroys the payload and releases
/// the implicit weak unit; if no weak handle remains either, the block is
/// deallocated.
pub open spec fn step_drop_strong<T>(v: Seq<Option<CcBox<T>>>, i: int) -> Seq<Option<CcBox<T>>> {
    if strong_at(v, i) >= 2 {
        v.update(
            i,
            Some(
                CcBox {
                    value: blk(v, i).value,
                    strong: (strong_at(v, i) - 1) as usize,
                    weak: blk(v, i).weak,
                },
            ),
        )
    } else if weak_at(v, i) >= 2 {
        v.update(i, Some(CcBox { value: None, strong: 0, weak: (weak_at(v, i) - 1) as usize }))
    } else {
        v.update(i, None)
    }
}

/// Creating one more weak handle, by downgrading a strong handle or by cloning
/// a weak one: the weak count rises by one.
pub open spec fn step_clone_weak<T>(v: Seq<Option<CcBox<T>>>, i: int) -> Seq<Option<CcBox<T>>> {
    v.update(
        i,
        Some(
            CcBox {
                value: blk(v, i).value,
                strong: blk(v, i).strong,
                weak: (weak_at(v, i) + 1) as usize,
            },
        ),
    )
}

/// Dropping a weak handle: the weak count falls by one, and the block is
/// deallocated when the count reaches zero.
pub open spec fn step_drop_weak<T>(v: Seq<Option<CcBox<T>>>, i: int) -> Seq<Option<CcBox<T>>> {
    if weak_at(v, i) >= 2 {
        v.update(
            i,
            Some(
                CcBox {
                    value: blk(v, i).value,
                    strong: blk(v, i).strong,
                    weak: (weak_at(v, i) - 1) as usize,
                },
            ),
        )
    } else {
        v.update(i, None)
    }
}

/// Upgrading a weak handle: nothing changes while the payload is gone;
/// otherwise one more strong handle comes to exist.
pub open spec fn step_upgrade<T>(v: Seq<Option<CcBox<T>>>, i: int) -> Seq<Option<CcBox<T>>> {
    if strong_at(v, i) == 0 {
        v
    } else {
        step_clone_strong(v, i)
    }
}

/// Replacing the payload of a live block, the counters untouched. This models
/// mutation through interior mutability of the payload.
pub open spec fn step_store<T>(v: Seq<Option<CcBox<T>>>, i: int, x: T) -> Seq<Option<CcBox<T>>> {
    v.update(
        i,
        Some(CcBox { value: Some(x), strong: blk(v, i).strong, weak: blk(v, i).weak }),
    )
}

/// Deallocating slot `i` outright, as unwrapping a unique handle does.
pub open spec fn step_free<T>(v: Seq<Option<CcBox<T>>>, i: int) -> Seq<Option<CcBox<T>>> {
    v.update(i, None)
}

/// A store stays well formed when one slot is overwritten with a well-formed
/// slot; the overwritten slot's own invariant is exposed alongside.
pub proof fn lemma_wf_update<T>(v: Seq<Option<CcBox<T>>>, i: int, s: Option<CcBox<T>>)
    requires
        wf_view(v),
        0 <= i < v.len(),
    ensures
        wf_slot(v, i),
        wf_slot(v.update(i, s), i) ==> wf_view(v.update(i, s)),
{
    assert(wf_slot(v, i));
    let w = v.update(i, s);
    if wf_slot(w, i) {
        assert forall|j: int| 0 <= j < w.len() implies #[trigger] wf_slot(w, j) by {
            if j != i {
                assert(wf_slot(v, j));
                assert(w[j] == v[j]);
            }
        }
    }
}

/// A store stays well formed when a well-formed slot is appended.
pub proof fn lemma_wf_push<T>(v: Seq<Option<CcBox<T>>>, s: Option<CcBox<T>>)
    requires
        wf_view(v),
        wf_slot(v.push(s), v.len() as int),
    ensures
        wf_view(v.push(s)),
{
    let w = v.push(s);
    assert forall|j: int| 0 <= j < w.len() implies #[trigger] wf_slot(w, j) by {
        if j != v.len() {
            assert(wf_slot(v, j));
            assert(w[j] == v[j]);
        }
    }
}

/// Replacing the payload of a live block whose strong count is positive keeps
/// the store well formed, whatever value is stored.
pub proof fn lemma_wf_store<T>(v: Seq<Option<CcBox<T>>>, i: int)
    requires
        wf_view(v),
        live(v, i),
        strong_at(v, i) >= 1,
    ensures
        forall|x: T| wf_view(#[trigger] step_store(v, i, x)),
{
    assert forall|x: T| wf_view(#[trigger] step_store(v, i, x)) by {
        lemma_wf_update(
            v,
            i,
            Some(CcBox { value: Some(x), strong: blk(v, i).strong, weak: blk(v, i).weak }),
        );
        assert(wf_slot(step_store(v, i, x), i));
    }
}

/// The number of slots of `v` before `n` that still hold an allocated block.
pub open spec fn live_count<T>(v: Seq<Option<CcBox<T>>>, n: int) -> int
    decreases n,
{
    if n <= 0 {
        0
    } else {
        live_count(v, n - 1) + if v[n - 1] is Some {
            1int
        } else {
            0int
        }
    }
}

} // verus!
