//! Scenario tests: the counters in lockstep with the live handles, deferred
//! deallocation, copy-on-write isolation, a self-referential cycle, and the
//! tracing hook.

use bacon_rajan_cc::{strong_count, weak_count, Cc, CcHeap, CcTrace, Tracer, Weak};

struct SelfRef {
    back: Option<Weak>,
}

struct Pair {
    first: Cc,
    second: Cc,
}

impl CcTrace for Pair {
    fn trace(&self, tracer: &mut Tracer) {
        tracer.visit(&self.first);
        tracer.visit(&self.second);
    }
}

#[test]
fn strong_count_follows_every_clone_and_drop() {
    let mut heap = CcHeap::new();
    let a = Cc::new(&mut heap, 11);
    assert_eq!(strong_count(&heap, &a), 1);
    let b = a.clone_in(&mut heap);
    assert_eq!(strong_count(&heap, &a), 2);
    let c = b.clone_in(&mut heap);
    assert_eq!(strong_count(&heap, &a), 3);
    let _ = b.drop_in(&mut heap);
    assert_eq!(strong_count(&heap, &a), 2);
    let d = c.clone_in(&mut heap);
    assert_eq!(strong_count(&heap, &a), 3);
    let _ = d.drop_in(&mut heap);
    let _ = c.drop_in(&mut heap);
    assert_eq!(strong_count(&heap, &a), 1);
}

#[test]
fn weak_count_follows_every_downgrade_clone_and_drop() {
    let mut heap = CcHeap::new();
    let a = Cc::new(&mut heap, 11);
    assert_eq!(weak_count(&heap, &a), 0);
    let w1 = a.downgrade(&mut heap);
    assert_eq!(weak_count(&heap, &a), 1);
    let w2 = w1.clone_in(&mut heap);
    assert_eq!(weak_count(&heap, &a), 2);
    let w3 = a.downgrade(&mut heap);
    assert_eq!(weak_count(&heap, &a), 3);
    w2.drop_in(&mut heap);
    assert_eq!(weak_count(&heap, &a), 2);
    w1.drop_in(&mut heap);
    w3.drop_in(&mut heap);
    assert_eq!(weak_count(&heap, &a), 0);
    assert_eq!(strong_count(&heap, &a), 1);
}

#[test]
fn unique_means_one_strong_and_no_external_weak() {
    let mut heap = CcHeap::new();
    let a = Cc::new(&mut heap, 4);
    assert_eq!(
        bacon_rajan_cc::is_unique(&heap, &a),
        strong_count(&heap, &a) == 1 && weak_count(&heap, &a) == 0,
    );
    let b = a.clone_in(&mut heap);
    assert_eq!(
        bacon_rajan_cc::is_unique(&heap, &a),
        strong_count(&heap, &a) == 1 && weak_count(&heap, &a) == 0,
    );
    let w = a.downgrade(&mut heap);
    let _ = b.drop_in(&mut heap);
    assert_eq!(
        bacon_rajan_cc::is_unique(&heap, &a),
        strong_count(&heap, &a) == 1 && weak_count(&heap, &a) == 0,
    );
    w.drop_in(&mut heap);
    assert!(bacon_rajan_cc::is_unique(&heap, &a));
}

#[test]
fn last_strong_drop_destroys_payload_but_defers_dealloc() {
    let mut heap = CcHeap::new();
    let x = Cc::new(&mut heap, 7);
    let w1 = x.downgrade(&mut heap);
    let w2 = w1.clone_in(&mut heap);
    assert_eq!(heap.live_blocks(), 1);

    let payload = x.drop_in(&mut heap);
    assert_eq!(payload, Some(7));
    // payload destroyed, but the block survives the weak handles
    assert_eq!(heap.live_blocks(), 1);
    assert!(w1.upgrade(&mut heap).is_none());

    w1.drop_in(&mut heap);
    assert_eq!(heap.live_blocks(), 1);
    assert!(w2.upgrade(&mut heap).is_none());

    w2.drop_in(&mut heap);
    assert_eq!(heap.live_blocks(), 0);
}

#[test]
fn try_unwrap_unique_leaves_no_block() {
    let mut heap = CcHeap::new();
    let x = Cc::new(&mut heap, 42);
    assert_eq!(heap.live_blocks(), 1);
    match bacon_rajan_cc::try_unwrap(&mut heap, x) {
        Ok(v) => assert_eq!(v, 42),
        Err(_) => panic!("a unique handle must unwrap"),
    }
    assert_eq!(heap.live_blocks(), 0);
}

#[test]
fn try_unwrap_shared_leaves_counts_untouched() {
    let mut heap = CcHeap::new();
    let x = Cc::new(&mut heap, 42);
    let y = x.clone_in(&mut heap);
    let w = x.downgrade(&mut heap);
    assert_eq!(strong_count(&heap, &y), 2);
    assert_eq!(weak_count(&heap, &y), 1);
    let x = match bacon_rajan_cc::try_unwrap(&mut heap, x) {
        Ok(_) => panic!("a shared handle must not unwrap"),
        Err(h) => h,
    };
    assert_eq!(*x.get(&heap), 42);
    assert_eq!(strong_count(&heap, &x), 2);
    assert_eq!(weak_count(&heap, &x), 1);
    assert_eq!(heap.live_blocks(), 1);
    let _ = w;
}

#[test]
fn make_unique_isolates_earlier_siblings_only() {
    let mut heap = CcHeap::new();
    let mut h1 = Cc::new(&mut heap, 10);
    let before = h1.clone_in(&mut heap);

    *h1.make_unique(&mut heap) = 99;
    let after = h1.clone_in(&mut heap);

    // the sibling made before the call is untouched ...
    assert_eq!(*before.get(&heap), 10);
    // ... the clone made after shares the mutated block
    assert_eq!(*after.get(&heap), 99);
    heap.replace(&h1, 123);
    assert_eq!(*after.get(&heap), 123);
    assert_eq!(*before.get(&heap), 10);
}

#[test]
fn counts_through_a_whole_life() {
    let mut heap = CcHeap::new();
    let h1 = Cc::new(&mut heap, 1);
    assert_eq!(strong_count(&heap, &h1), 1);
    assert_eq!(weak_count(&heap, &h1), 0);

    let h2 = h1.clone_in(&mut heap);
    assert_eq!(strong_count(&heap, &h1), 2);

    let w = h1.downgrade(&mut heap);
    assert_eq!(weak_count(&heap, &h1), 1);

    assert_eq!(h1.drop_in(&mut heap), None);
    assert_eq!(strong_count(&heap, &h2), 1);
    assert_eq!(*h2.get(&heap), 1);

    let h3 = w.upgrade(&mut heap).expect("the payload is still alive");
    assert_eq!(strong_count(&heap, &h2), 2);

    assert_eq!(h2.drop_in(&mut heap), None);
    assert_eq!(h3.drop_in(&mut heap), Some(1));
    // the payload is gone; only the weak handle keeps the block
    assert!(w.upgrade(&mut heap).is_none());
    assert_eq!(heap.live_blocks(), 1);
    w.drop_in(&mut heap);
    assert_eq!(heap.live_blocks(), 0);
}

#[test]
fn self_referential_cycle_is_freed_exactly_once() {
    let mut heap = CcHeap::new();
    let a = Cc::new(&mut heap, SelfRef { back: None });
    let tmp = a.clone_in(&mut heap);
    let back = tmp.downgrade(&mut heap);
    let _ = tmp.drop_in(&mut heap);
    heap.replace(&a, SelfRef { back: Some(back) });
    assert_eq!(strong_count(&heap, &a), 1);
    assert_eq!(weak_count(&heap, &a), 1);

    // the weak self-reference does not keep the payload alive
    let payload = a.drop_in(&mut heap).expect("the cycle's payload comes back");
    assert_eq!(heap.live_blocks(), 1);
    let w = payload.back.expect("the payload holds its own weak handle");
    assert!(w.upgrade(&mut heap).is_none());
    w.drop_in(&mut heap);
    // deallocated exactly once, nothing left over
    assert_eq!(heap.live_blocks(), 0);
}

#[test]
fn replace_hands_back_the_previous_payload() {
    let mut heap = CcHeap::new();
    let a = Cc::new(&mut heap, 5);
    let prev = heap.replace(&a, 20);
    assert_eq!(prev, 5);
    assert_eq!(*a.get(&heap), 20);
}

#[test]
fn validity_of_handles_is_observable() {
    let mut heap = CcHeap::new();
    let a = Cc::new(&mut heap, 9);
    assert!(heap.valid_strong(&a));
    let w = a.downgrade(&mut heap);
    assert!(heap.valid_weak(&w));
    let _ = a.drop_in(&mut heap);
    // the block survives for the weak handle alone
    assert!(heap.valid_weak(&w));
    w.drop_in(&mut heap);
    assert_eq!(heap.live_blocks(), 0);
}

#[test]
fn trace_reports_each_handle_field() {
    let mut heap = CcHeap::new();
    let first = Cc::new(&mut heap, 1);
    let second = Cc::new(&mut heap, 2);
    let pair = Pair { first, second };
    let mut tracer = Tracer::new();
    assert_eq!(tracer.visit_count(), 0);
    pair.trace(&mut tracer);
    assert_eq!(tracer.visit_count(), 2);
}
