//! A minimal entity-component storage engine.
//!
//! Entities are dense integer handles; the identity of an entity is its
//! positional index into every component column.  Each kind of component is
//! kept in a column of its own: a vector of optional slots, one slot per
//! entity.  The `World` owns the entity counter and the columns, keyed by a
//! runtime tag that stands for the component's type identity, and enforces a
//! runtime single-writer borrow discipline on each column.

use vstd::prelude::*;

pub mod column;
pub mod component;
pub mod errors;
pub mod join;
pub mod laws;
pub mod view;
pub mod world;

verus! {

pub use column::Column;
pub use component::Component;
pub use errors::WorldError;
pub use join::join_indices;
pub use view::ColumnMut;
pub use world::World;

} // verus!
