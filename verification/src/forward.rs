//! Forwarding of payload capabilities: equality, ordering and default
//! construction of handles all delegate to the payload type, as operations
//! conditioned on the payload supporting the capability. Two handles compare
//! by their payloads, regardless of identity.

use core::cmp::Ordering;

use vstd::prelude::*;
use vstd::std_specs::cmp::{OrdSpec, PartialEqSpec, PartialOrdSpec};

use crate::block::{is_strong, step_alloc, value_at};
use crate::heap::CcHeap;
use crate::strong::Cc;

verus! {

/// Equality of two strong handles: true exactly when the payloads are equal.
pub fn eq_in<T: PartialEq>(heap: &CcHeap<T>, a: &Cc, b: &Cc) -> (r: bool)
    requires
        heap.wf(),
        is_strong(heap@, a.id()),
        is_strong(heap@, b.id()),
    ensures
        T::obeys_eq_spec() ==> r == value_at(heap@, a.id()).eq_spec(&value_at(heap@, b.id())),
{
    T::eq(a.get(heap), b.get(heap))
}

/// Inequality of two strong handles: true exactly when the payloads differ.
pub fn ne_in<T: PartialEq>(heap: &CcHeap<T>, a: &Cc, b: &Cc) -> (r: bool)
    requires
        heap.wf(),
        is_strong(heap@, a.id()),
        is_strong(heap@, b.id()),
    ensures
        T::obeys_eq_spec() ==> r == !value_at(heap@, a.id()).eq_spec(&value_at(heap@, b.id())),
{
    T::ne(a.get(heap), b.get(heap))
}

/// Partial comparison of two strong handles, by their payloads.
pub fn partial_cmp_in<T: PartialOrd>(heap: &CcHeap<T>, a: &Cc, b: &Cc) -> (r: Option<Ordering>)
    requires
        heap.wf(),
        is_strong(heap@, a.id()),
        is_strong(heap@, b.id()),
    ensures
        T::obeys_partial_cmp_spec() ==> r == value_at(heap@, a.id()).partial_cmp_spec(
            &value_at(heap@, b.id()),
        ),
{
    T::partial_cmp(a.get(heap), b.get(heap))
}

/// Less-than on two strong handles, by their payloads.
pub fn lt_in<T: PartialOrd>(heap: &CcHeap<T>, a: &Cc, b: &Cc) -> (r: bool)
    requires
        heap.wf(),
        is_strong(heap@, a.id()),
        is_strong(heap@, b.id()),
    ensures
        T::obeys_partial_cmp_spec() ==> (r <==> value_at(heap@, a.id()).partial_cmp_spec(
            &value_at(heap@, b.id()),
        ) == Some(Ordering::Less)),
{
    T::lt(a.get(heap), b.get(heap))
}

/// Less-than-or-equal on two strong handles, by their payloads.
pub fn le_in<T: PartialOrd>(heap: &CcHeap<T>, a: &Cc, b: &Cc) -> (r: bool)
    requires
        heap.wf(),
        is_strong(heap@, a.id()),
        is_strong(heap@, b.id()),
    ensures
        T::obeys_partial_cmp_spec() ==> (r <==> (value_at(heap@, a.id()).partial_cmp_spec(
            &value_at(heap@, b.id()),
        ) matches Some(Ordering::Less | Ordering::Equal))),
{
    T::le(a.get(heap), b.get(heap))
}

/// Greater-than on two strong handles, by their payloads.
pub fn gt_in<T: PartialOrd>(heap: &CcHeap<T>, a: &Cc, b: &Cc) -> (r: bool)
    requires
        heap.wf(),
        is_strong(heap@, a.id()),
        is_strong(heap@, b.id()),
    ensures
        T::obeys_partial_cmp_spec() ==> (r <==> value_at(heap@, a.id()).partial_cmp_spec(
            &value_at(heap@, b.id()),
        ) == Some(Ordering::Greater)),
{
    T::gt(a.get(heap), b.get(heap))
}

/// Greater-than-or-equal on two strong handles, by their payloads.
pub fn ge_in<T: PartialOrd>(heap: &CcHeap<T>, a: &Cc, b: &Cc) -> (r: bool)
    requires
        heap.wf(),
        is_strong(heap@, a.id()),
        is_strong(heap@, b.id()),
    ensures
        T::obeys_partial_cmp_spec() ==> (r <==> (value_at(heap@, a.id()).partial_cmp_spec(
            &value_at(heap@, b.id()),
        ) matches Some(Ordering::Greater | Ordering::Equal))),
{
    T::ge(a.get(heap), b.get(heap))
}

/// Total comparison of two strong handles, by their payloads.
pub fn cmp_in<T: Ord>(heap: &CcHeap<T>, a: &Cc, b: &Cc) -> (r: Ordering)
    requires
        heap.wf(),
        is_strong(heap@, a.id()),
        is_strong(heap@, b.id()),
    ensures
        T::obeys_cmp_spec() ==> r == value_at(heap@, a.id()).cmp_spec(&value_at(heap@, b.id())),
{
    T::cmp(a.get(heap), b.get(heap))
}

/// A fresh handle wrapping the payload type's default value.
pub fn default_in<T: Default>(heap: &mut CcHeap<T>) -> (h: Cc)
    requires
        old(heap).wf(),
    ensures
        final(heap).wf(),
        h.id() == old(heap)@.len(),
        final(heap)@ == step_alloc(old(heap)@, value_at(final(heap)@, h.id())),
{
    let value = T::default();
    Cc::new(heap, value)
}

} // verus!
