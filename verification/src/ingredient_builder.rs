//! The editable draft of an [`Ingredient`].
//!
//! The draft holds tags as plain strings for the editing widgets, while the
//! entity holds tag values; loading captures every field, so an unedited
//! draft builds back the original ingredient exactly.

use vstd::prelude::*;

use crate::builder::Builder;
use crate::ingredient::{
    clone_strings, string_views, tag_texts, Ingredient, IngredientTag, IngredientView, Quality,
};

verus! {

/// The mathematical value of an [`IngredientBuilder`].
#[verifier::ext_equal]
pub struct IngredientBuilderView {
    pub name: Seq<char>,
    pub quality: Quality,
    pub tags: Seq<Seq<char>>,
    pub stock: u16,
    pub is_liquor: bool,
}

/// An editable draft of an ingredient.
#[derive(Debug)]
pub struct IngredientBuilder {
    pub name: String,
    pub quality: Quality,
    pub tags: Vec<String>,
    pub stock: u16,
    pub is_liquor: bool,
}

impl View for IngredientBuilder {
    type V = IngredientBuilderView;

    open spec fn view(&self) -> IngredientBuilderView {
        IngredientBuilderView {
            name: self.name@,
            quality: self.quality,
            tags: string_views(self.tags@),
            stock: self.stock,
            is_liquor: self.is_liquor,
        }
    }
}

impl Clone for IngredientBuilder {
    fn clone(&self) -> (r: Self)
        ensures
            r@ == self@,
    {
        let r = IngredientBuilder {
            name: self.name.clone(),
            quality: self.quality,
            tags: clone_strings(&self.tags),
            stock: self.stock,
            is_liquor: self.is_liquor,
        };
        proof {
            assert(r@ =~= self@);
        }
        r
    }
}

impl Default for IngredientBuilder {
    /// The cleared draft: empty name, wildcard quality, no tags, zero
    /// stock, not liquor.
    fn default() -> (r: Self)
        ensures
            r@ == <IngredientBuilder as Builder<Ingredient>>::empty_view(),
    {
        let r = IngredientBuilder {
            name: String::new(),
            quality: Quality::Any,
            tags: Vec::new(),
            stock: 0,
            is_liquor: false,
        };
        proof {
            assert(r@ =~= <IngredientBuilder as Builder<Ingredient>>::empty_view());
        }
        r
    }
}

/// The tag values with the given texts, in order.
fn strings_to_tags(strings: &Vec<String>) -> (r: Vec<IngredientTag>)
    ensures
        tag_texts(r@) == string_views(strings@),
        r@.len() == strings@.len(),
{
    let mut out: Vec<IngredientTag> = Vec::new();
    let mut i: usize = 0;
    while i < strings.len()
        invariant
            i <= strings@.len(),
            out@.len() == i,
            forall|k: int| 0 <= k < i ==> (#[trigger] out@[k])@ == strings@[k]@,
        decreases strings@.len() - i,
    {
        out.push(IngredientTag { value: strings[i].clone() });
        i = i + 1;
    }
    proof {
        assert(tag_texts(out@) =~= string_views(strings@));
    }
    out
}

/// The texts of the given tags, in order.
fn tags_to_strings(tags: &Vec<IngredientTag>) -> (r: Vec<String>)
    ensures
        string_views(r@) == tag_texts(tags@),
        r@.len() == tags@.len(),
{
    let mut out: Vec<String> = Vec::new();
    let mut i: usize = 0;
    while i < tags.len()
        invariant
            i <= tags@.len(),
            out@.len() == i,
            forall|k: int| 0 <= k < i ==> (#[trigger] out@[k])@ == tags@[k]@,
        decreases tags@.len() - i,
    {
        out.push(tags[i].value.clone());
        i = i + 1;
    }
    proof {
        assert(string_views(out@) =~= tag_texts(tags@));
    }
    out
}

impl Builder<Ingredient> for IngredientBuilder {
    open spec fn built_of(v: IngredientBuilderView) -> IngredientView {
        IngredientView {
            name: v.name,
            quality: v.quality,
            tags: v.tags,
            stock: v.stock,
            is_liquor: v.is_liquor,
        }
    }

    open spec fn empty_view() -> IngredientBuilderView {
        IngredientBuilderView {
            name: Seq::empty(),
            quality: Quality::Any,
            tags: Seq::empty(),
            stock: 0,
            is_liquor: false,
        }
    }

    open spec fn draft_of(v: IngredientView) -> IngredientBuilderView {
        IngredientBuilderView {
            name: v.name,
            quality: v.quality,
            tags: v.tags,
            stock: v.stock,
            is_liquor: v.is_liquor,
        }
    }

    open spec fn faithful(v: IngredientView) -> bool {
        true
    }

    fn from_entity(entity: &Ingredient) -> (b: Self) {
        let b = IngredientBuilder {
            name: entity.name.clone(),
            quality: entity.quality,
            tags: tags_to_strings(&entity.tags),
            stock: entity.stock,
            is_liquor: entity.is_liquor,
        };
        proof {
            assert(b@ =~= Self::draft_of(entity@));
        }
        b
    }

    fn build(&self) -> (t: Ingredient) {
        let t = Ingredient {
            name: self.name.clone(),
            quality: self.quality,
            tags: strings_to_tags(&self.tags),
            stock: self.stock,
            is_liquor: self.is_liquor,
        };
        proof {
            assert(t@ =~= Self::built_of(self@));
        }
        t
    }

    fn clear(&mut self) {
        self.name = String::new();
        self.quality = Quality::Any;
        self.tags = Vec::new();
        self.stock = 0;
        self.is_liquor = false;
        proof {
            assert(self@ =~= Self::empty_view());
        }
    }

    proof fn round_trip(v: IngredientView) {
        assert(Self::built_of(Self::draft_of(v)) =~= v);
    }
}

} // verus!
