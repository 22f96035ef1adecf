//! Thread-confined reference-counted handles with deterministic destruction.
//!
//! A `Cc` is an owning (strong) handle on a shared, immutable-by-default
//! value; a `Weak` is a non-owning handle that can observe whether the value
//! still exists and, while it does, be upgraded to a `Cc`. Because the
//! counters are plain integers, the handles are valid only within one logical
//! thread of control.
//!
//! Instead of raw heap pointers, the blocks live in an explicit store, the
//! `CcHeap`: a handle is a slot index into it, and every operation takes the
//! store as an argument. The store's state — which slots hold a block, each
//! block's payload and its two counters — is the specification model, and
//! every operation's contract states exactly how it moves that state.

pub mod block;
pub mod derived;
pub mod forward;
pub mod heap;
pub mod laws;
pub mod strong;
pub mod trace;
pub mod weak;

pub use block::CcBox;
pub use derived::{get_mut, is_unique, strong_count, try_unwrap, weak_count};
pub use forward::{cmp_in, default_in, eq_in, ge_in, gt_in, le_in, lt_in, ne_in, partial_cmp_in};
pub use heap::CcHeap;
pub use strong::Cc;
pub use trace::{CcTrace, Tracer};
pub use weak::Weak;
