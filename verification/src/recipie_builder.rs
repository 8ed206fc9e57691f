//! The editable draft of a [`Recipie`]: every field of the recipe,
//! editable in place; loading captures all of them, so an unedited draft
//! builds back the original recipe exactly.

use vstd::prelude::*;

use crate::builder::Builder;
use crate::ingredient::{clone_strings, string_views};
use crate::recipie::{clone_components, component_views, Component, ComponentView, Recipie, RecipieView};

verus! {

/// The mathematical value of a [`RecipieBuilder`].
#[verifier::ext_equal]
pub struct RecipieBuilderView {
    pub name: Seq<char>,
    pub description: Seq<char>,
    pub short_description: Seq<char>,
    pub notes: Seq<char>,
    pub components: Seq<ComponentView>,
    pub instructions: Seq<Seq<char>>,
}

/// An editable draft of a recipe.
#[derive(Debug)]
pub struct RecipieBuilder {
    pub name: String,
    pub description: String,
    pub short_description: String,
    pub notes: String,
    pub components: Vec<Component>,
    pub instructions: Vec<String>,
}

impl View for RecipieBuilder {
    type V = RecipieBuilderView;

    open spec fn view(&self) -> RecipieBuilderView {
        RecipieBuilderView {
            name: self.name@,
            description: self.description@,
            short_description: self.short_description@,
            notes: self.notes@,
            components: component_views(self.components@),
            instructions: string_views(self.instructions@),
        }
    }
}

impl Clone for RecipieBuilder {
    fn clone(&self) -> (r: Self)
        ensures
            r@ == self@,
    {
        let r = RecipieBuilder {
            name: self.name.clone(),
            description: self.description.clone(),
            short_description: self.short_description.clone(),
            notes: self.notes.clone(),
            components: clone_components(&self.components),
            instructions: clone_strings(&self.instructions),
        };
        proof {
            assert(r@ =~= self@);
        }
        r
    }
}

impl Default for RecipieBuilder {
    /// The cleared draft: every text empty, no components, no instructions.
    fn default() -> (r: Self)
        ensures
            r@ == <RecipieBuilder as Builder<Recipie>>::empty_view(),
    {
        let r = RecipieBuilder {
            name: String::new(),
            description: String::new(),
            short_description: String::new(),
            notes: String::new(),
            components: Vec::new(),
            instructions: Vec::new(),
        };
        proof {
            assert(r@ =~= <RecipieBuilder as Builder<Recipie>>::empty_view());
        }
        r
    }
}

impl RecipieBuilder {
    /// A fresh, cleared draft.
    pub fn new() -> (r: RecipieBuilder)
        ensures
            r@ == <RecipieBuilder as Builder<Recipie>>::empty_view(),
    {
        RecipieBuilder::default()
    }
}

impl Builder<Recipie> for RecipieBuilder {
    open spec fn built_of(v: RecipieBuilderView) -> RecipieView {
        RecipieView {
            name: v.name,
            description: v.description,
            short_description: v.short_description,
            notes: v.notes,
            components: v.components,
            instructions: v.instructions,
        }
    }

    open spec fn empty_view() -> RecipieBuilderView {
        RecipieBuilderView {
            name: Seq::empty(),
            description: Seq::empty(),
            short_description: Seq::empty(),
            notes: Seq::empty(),
            components: Seq::empty(),
            instructions: Seq::empty(),
        }
    }

    open spec fn draft_of(v: RecipieView) -> RecipieBuilderView {
        RecipieBuilderView {
            name: v.name,
            description: v.description,
            short_description: v.short_description,
            notes: v.notes,
            components: v.components,
            instructions: v.instructions,
        }
    }

    open spec fn faithful(v: RecipieView) -> bool {
        true
    }

    fn from_entity(entity: &Recipie) -> (b: Self) {
        let b = RecipieBuilder {
            name: entity.name.clone(),
            description: entity.description.clone(),
            short_description: entity.short_description.clone(),
            notes: entity.notes.clone(),
            components: clone_components(&entity.components),
            instructions: clone_strings(&entity.instructions),
        };
        proof {
            assert(b@ =~= Self::draft_of(entity@));
        }
        b
    }

    fn build(&self) -> (t: Recipie) {
        let t = Recipie {
            name: self.name.clone(),
            description: self.description.clone(),
            short_description: self.short_description.clone(),
            notes: self.notes.clone(),
            components: clone_components(&self.components),
            instructions: clone_strings(&self.instructions),
        };
        proof {
            assert(t@ =~= Self::built_of(self@));
        }
        t
    }

    fn clear(&mut self) {
        self.name = String::new();
        self.description = String::new();
        self.short_description = String::new();
        self.notes = String::new();
        self.components = Vec::new();
        self.instructions = Vec::new();
        proof {
            assert(self@ =~= Self::empty_view());
        }
    }

    proof fn round_trip(v: RecipieView) {
        assert(Self::built_of(Self::draft_of(v)) =~= v);
    }
}

} // verus!
