//! The tracing extension point.
//!
//! A payload type that wants to cooperate with a future cycle collector
//! implements `CcTrace`: its `trace` reports every reference-counted handle
//! the value directly contains to the given `Tracer`, once each. No collection
//! algorithm is part of this crate; the trait and the tracer are the hook an
//! external collector would use.

use vstd::prelude::*;

use crate::strong::Cc;

verus! {

/// Records the handles reported during one traversal, by slot index.
pub struct Tracer {
    visited: Vec<usize>,
}

impl Tracer {
    /// The slot indices reported so far, in order.
    pub closed spec fn seen(&self) -> Seq<int> {
        self.visited@.map_values(|s: usize| s as int)
    }

    /// A tracer that has recorded nothing yet.
    pub fn new() -> (t: Tracer)
        ensures
            t.seen() == Seq::<int>::empty(),
    {
        let t = Tracer { visited: Vec::new() };
        proof {
            assert(t.seen() =~= Seq::<int>::empty());
        }
        t
    }

    /// Reports one directly-held strong handle.
    pub fn visit(&mut self, h: &Cc)
        ensures
            final(self).seen() == old(self).seen().push(h.id()),
    {
        self.visited.push(h.slot);
        proof {
            assert(self.seen() =~= old(self).seen().push(h.id()));
        }
    }

    /// How many handles have been reported so far.
    pub fn visit_count(&self) -> (n: usize)
        ensures
            n as int == self.seen().len(),
    {
        self.visited.len()
    }
}

/// The trace capability: a payload type that implements it calls
/// `tracer.visit` once for every reference-counted handle it directly
/// contains. What an implementor reports is its own affair; this crate only
/// provides the hook.
pub trait CcTrace {
    fn trace(&self, tracer: &mut Tracer);
}

} // verus!
