//! The builder protocol: an editable draft representation of an entity.
//!
//! A builder captures every field of the entity it was loaded from — also
//! the ones a UI exposes no widget for — so that materializing an unedited
//! draft reproduces the original entity exactly. Builders are pure value
//! transformers: equal draft states always build equal entities.

use vstd::prelude::*;

verus! {

/// A draft representation of entities of type `T`.
///
/// The draft state is the builder's view; what a draft materializes to is a
/// function of that state alone, so `build` neither mutates the builder nor
/// consults anything outside it.
pub trait Builder<T: View>: View + Sized {
    /// The entity value a draft in state `v` materializes to.
    spec fn built_of(v: Self::V) -> T::V;

    /// The cleared draft state.
    spec fn empty_view() -> Self::V;

    /// The draft state that loading an entity of value `v` for editing
    /// produces.
    spec fn draft_of(v: T::V) -> Self::V;

    /// The entity values that survive a load-for-edit round trip intact.
    /// Most implementations keep every value; one that collapses a
    /// degenerate field on loading excludes exactly the values carrying it.
    spec fn faithful(v: T::V) -> bool;

    /// Loads an existing entity into a fresh draft for editing.
    fn from_entity(entity: &T) -> (b: Self)
        ensures
            b@ == Self::draft_of(entity@),
    ;

    /// Materializes the current draft into a new, independent entity.
    fn build(&self) -> (t: T)
        ensures
            t@ == Self::built_of(self@),
    ;

    /// Resets the draft to the cleared state; clearing twice equals
    /// clearing once.
    fn clear(&mut self)
        ensures
            final(self)@ == Self::empty_view(),
    ;

    /// Round-trip identity: materializing an unedited draft loaded from an
    /// entity reproduces that entity's value, field for field.
    proof fn round_trip(v: T::V)
        requires
            Self::faithful(v),
        ensures
            Self::built_of(Self::draft_of(v)) == v,
    ;
}

} // verus!
