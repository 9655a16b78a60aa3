//! Growable struct-of-arrays containers.
//!
//! A `Soa2<A, B>` behaves like a dynamic array of pairs `(A, B)`, but keeps
//! each tuple field in its own contiguous buffer, so that walking a single
//! field is cache-dense.  `Soa3` and `Soa4` do the same for triples and
//! quadruples.  All columns of one container share a single [`unadorned::Extent`],
//! the `{length, capacity}` pair that every mutating operation plans against
//! once and then commits to after driving each column through the same step.

pub mod laws;
pub mod soa2;
pub mod soa3;
pub mod soa4;
pub mod unadorned;

pub use soa2::Soa2;
pub use soa3::Soa3;
pub use soa4::Soa4;
