//! The classic handle tests, run against an explicit store: every clone and
//! drop is an explicit call that takes the `CcHeap`.

use bacon_rajan_cc::{strong_count, weak_count, Cc, CcHeap, Weak};

struct Cycle {
    x: Option<Weak>,
}

#[test]
fn test_clone() {
    let mut heap = CcHeap::new();
    let x = Cc::new(&mut heap, 5);
    let y = x.clone_in(&mut heap);
    heap.replace(&x, 20);
    assert_eq!(*y.get(&heap), 20);
}

#[test]
fn test_simple() {
    let mut heap = CcHeap::new();
    let x = Cc::new(&mut heap, 5);
    assert_eq!(*x.get(&heap), 5);
}

#[test]
fn test_simple_clone() {
    let mut heap = CcHeap::new();
    let x = Cc::new(&mut heap, 5);
    let y = x.clone_in(&mut heap);
    assert_eq!(*x.get(&heap), 5);
    assert_eq!(*y.get(&heap), 5);
}

#[test]
fn test_destructor() {
    let mut heap = CcHeap::new();
    let x = Cc::new(&mut heap, Box::new(5));
    assert_eq!(**x.get(&heap), 5);
}

#[test]
fn test_live() {
    let mut heap = CcHeap::new();
    let x = Cc::new(&mut heap, 5);
    let y = x.downgrade(&mut heap);
    assert!(y.upgrade(&mut heap).is_some());
}

#[test]
fn test_dead() {
    let mut heap = CcHeap::new();
    let x = Cc::new(&mut heap, 5);
    let y = x.downgrade(&mut heap);
    let _ = x.drop_in(&mut heap);
    assert!(y.upgrade(&mut heap).is_none());
}

#[test]
fn weak_self_cyclic() {
    let mut heap = CcHeap::new();
    let a = Cc::new(&mut heap, Cycle { x: None });
    let tmp = a.clone_in(&mut heap);
    let b = tmp.downgrade(&mut heap);
    let _ = tmp.drop_in(&mut heap);
    heap.replace(&a, Cycle { x: Some(b) });

    // Dropping the only strong handle hands the payload back; releasing the
    // weak handle found inside it must deallocate the block, once.
    let payload = a.drop_in(&mut heap).expect("last strong drop returns the payload");
    if let Some(w) = payload.x {
        w.drop_in(&mut heap);
    }
}

#[test]
fn is_unique() {
    let mut heap = CcHeap::new();
    let x = Cc::new(&mut heap, 3);
    assert!(bacon_rajan_cc::is_unique(&heap, &x));
    let y = x.clone_in(&mut heap);
    assert!(!bacon_rajan_cc::is_unique(&heap, &x));
    let _ = y.drop_in(&mut heap);
    assert!(bacon_rajan_cc::is_unique(&heap, &x));
    let w = x.downgrade(&mut heap);
    assert!(!bacon_rajan_cc::is_unique(&heap, &x));
    w.drop_in(&mut heap);
    assert!(bacon_rajan_cc::is_unique(&heap, &x));
}

#[test]
fn test_strong_count() {
    let mut heap = CcHeap::new();
    let a = Cc::new(&mut heap, 0u32);
    assert!(strong_count(&heap, &a) == 1);
    let w = a.downgrade(&mut heap);
    assert!(strong_count(&heap, &a) == 1);
    let b = w.upgrade(&mut heap).expect("upgrade of live rc failed");
    assert!(strong_count(&heap, &b) == 2);
    assert!(strong_count(&heap, &a) == 2);
    w.drop_in(&mut heap);
    let _ = a.drop_in(&mut heap);
    assert!(strong_count(&heap, &b) == 1);
    let c = b.clone_in(&mut heap);
    assert!(strong_count(&heap, &b) == 2);
    assert!(strong_count(&heap, &c) == 2);
}

#[test]
fn test_weak_count() {
    let mut heap = CcHeap::new();
    let a = Cc::new(&mut heap, 0u32);
    assert!(strong_count(&heap, &a) == 1);
    assert!(weak_count(&heap, &a) == 0);
    let w = a.downgrade(&mut heap);
    assert!(strong_count(&heap, &a) == 1);
    assert!(weak_count(&heap, &a) == 1);
    w.drop_in(&mut heap);
    assert!(strong_count(&heap, &a) == 1);
    assert!(weak_count(&heap, &a) == 0);
    let c = a.clone_in(&mut heap);
    assert!(strong_count(&heap, &a) == 2);
    assert!(weak_count(&heap, &a) == 0);
    let _ = c.drop_in(&mut heap);
}

#[test]
fn try_unwrap() {
    let mut heap = CcHeap::new();
    let x = Cc::new(&mut heap, 3);
    match bacon_rajan_cc::try_unwrap(&mut heap, x) {
        Ok(v) => assert_eq!(v, 3),
        Err(_) => panic!("a unique handle must unwrap"),
    }
    let x = Cc::new(&mut heap, 4);
    let _y = x.clone_in(&mut heap);
    match bacon_rajan_cc::try_unwrap(&mut heap, x) {
        Ok(_) => panic!("a shared handle must not unwrap"),
        Err(h) => assert_eq!(*h.get(&heap), 4),
    }
    let x = Cc::new(&mut heap, 5);
    let _w = x.downgrade(&mut heap);
    match bacon_rajan_cc::try_unwrap(&mut heap, x) {
        Ok(_) => panic!("a weakly observed handle must not unwrap"),
        Err(h) => assert_eq!(*h.get(&heap), 5),
    }
}

#[test]
fn get_mut() {
    let mut heap = CcHeap::new();
    let x = Cc::new(&mut heap, 3);
    *bacon_rajan_cc::get_mut(&mut heap, &x).unwrap() = 4;
    assert_eq!(*x.get(&heap), 4);
    let y = x.clone_in(&mut heap);
    assert!(bacon_rajan_cc::get_mut(&mut heap, &x).is_none());
    let _ = y.drop_in(&mut heap);
    assert!(bacon_rajan_cc::get_mut(&mut heap, &x).is_some());
    let _w = x.downgrade(&mut heap);
    assert!(bacon_rajan_cc::get_mut(&mut heap, &x).is_none());
}

#[test]
fn test_cowrc_clone_make_unique() {
    let mut heap = CcHeap::new();
    let mut cow0 = Cc::new(&mut heap, 75);
    let mut cow1 = cow0.clone_in(&mut heap);
    let mut cow2 = cow1.clone_in(&mut heap);

    assert!(75 == *cow0.make_unique(&mut heap));
    assert!(75 == *cow1.make_unique(&mut heap));
    assert!(75 == *cow2.make_unique(&mut heap));

    *cow0.make_unique(&mut heap) += 1;
    *cow1.make_unique(&mut heap) += 2;
    *cow2.make_unique(&mut heap) += 3;

    assert!(76 == *cow0.get(&heap));
    assert!(77 == *cow1.get(&heap));
    assert!(78 == *cow2.get(&heap));

    // none should point to the same backing block
    assert!(*cow0.get(&heap) != *cow1.get(&heap));
    assert!(*cow0.get(&heap) != *cow2.get(&heap));
    assert!(*cow1.get(&heap) != *cow2.get(&heap));
}

#[test]
fn test_cowrc_clone_unique2() {
    let mut heap = CcHeap::new();
    let mut cow0 = Cc::new(&mut heap, 75);
    let cow1 = cow0.clone_in(&mut heap);
    let cow2 = cow1.clone_in(&mut heap);

    assert!(75 == *cow0.get(&heap));
    assert!(75 == *cow1.get(&heap));
    assert!(75 == *cow2.get(&heap));

    *cow0.make_unique(&mut heap) += 1;

    assert!(76 == *cow0.get(&heap));
    assert!(75 == *cow1.get(&heap));
    assert!(75 == *cow2.get(&heap));

    // cow1 and cow2 should share the same contents
    // cow0 should have a unique reference
    assert!(*cow0.get(&heap) != *cow1.get(&heap));
    assert!(*cow0.get(&heap) != *cow2.get(&heap));
    assert!(*cow1.get(&heap) == *cow2.get(&heap));
}

#[test]
fn test_cowrc_clone_weak() {
    let mut heap = CcHeap::new();
    let mut cow0 = Cc::new(&mut heap, 75);
    let cow1_weak = cow0.downgrade(&mut heap);

    assert!(75 == *cow0.get(&heap));
    let up = cow1_weak.upgrade(&mut heap).unwrap();
    assert!(75 == *up.get(&heap));
    let _ = up.drop_in(&mut heap);

    *cow0.make_unique(&mut heap) += 1;

    assert!(76 == *cow0.get(&heap));
    assert!(cow1_weak.upgrade(&mut heap).is_none());
}
