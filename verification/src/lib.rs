//! A double-ended queue that can be sliced at any time without preparation.
//!
//! The elements of a `LinearDeque` are always contiguous, so the whole
//! content is one slice, even when the deque is not mutable. Each end keeps
//! its own reserved space, accounted as the free slots of a linear buffer
//! before and after the elements: two counters beside a `Vec` that holds
//! the elements.
pub mod deque;
pub mod eq;
pub mod io;
pub mod iter;
pub mod laws;
pub mod layout;
pub mod order;
pub mod traits;

pub use deque::LinearDeque;
pub use iter::{Drain, IntoIter};
pub use layout::SetReservedSpace;
