//! The trait that ties a component value to the type identity of its column.

use vstd::prelude::*;

verus! {

/// A component universe: a type whose values carry a runtime tag naming the
/// kind of component they are.
///
/// The world stores one column per distinct tag, so the tag plays the role of
/// a type identity: two kinds of component that happen to hold the same data
/// are still kept apart as long as their tags differ.  Implementors promise
/// that the tag of a value is exactly its specification-level tag, so that
/// contracts can speak of which column a value belongs to.
pub trait Component: Sized {
    /// The tag of this value, as contracts see it.
    spec fn tag_spec(&self) -> u64;

    /// The tag of this value.  It must agree with [`Component::tag_spec`].
    fn tag(&self) -> (t: u64)
        ensures
            t == self.tag_spec(),
    ;
}

} // verus!
