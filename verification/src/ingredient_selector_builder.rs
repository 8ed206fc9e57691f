//! The editable draft of an [`IngredientSelector`].
//!
//! The draft holds the name criterion as a plain text field: an empty text
//! means no name criterion. That collapses a selector whose name criterion
//! is the empty string into one with no name criterion at all — the one
//! selector value a load-for-edit round trip does not preserve.

use vstd::prelude::*;

use crate::builder::Builder;
use crate::ingredient::{clone_tags, tag_texts, IngredientTag, Quality};
use crate::ingredient_store::{IngredientSelector, SelectorView};

verus! {

/// The mathematical value of an [`IngredientSelectorBuilder`].
#[verifier::ext_equal]
pub struct SelectorBuilderView {
    pub name: Seq<char>,
    pub quality: Option<Quality>,
    pub tags: Option<Seq<Seq<char>>>,
    pub in_stock: Option<bool>,
    pub is_liquor: Option<bool>,
}

/// An editable draft of an ingredient selector.
#[derive(Debug)]
pub struct IngredientSelectorBuilder {
    pub name: String,
    pub quality: Option<Quality>,
    pub tags: Option<Vec<IngredientTag>>,
    pub in_stock: Option<bool>,
    pub is_liquor: Option<bool>,
}

impl View for IngredientSelectorBuilder {
    type V = SelectorBuilderView;

    open spec fn view(&self) -> SelectorBuilderView {
        SelectorBuilderView {
            name: self.name@,
            quality: self.quality,
            tags: match self.tags {
                Some(t) => Some(tag_texts(t@)),
                None => None,
            },
            in_stock: self.in_stock,
            is_liquor: self.is_liquor,
        }
    }
}

impl Clone for IngredientSelectorBuilder {
    fn clone(&self) -> (r: Self)
        ensures
            r@ == self@,
    {
        let r = IngredientSelectorBuilder {
            name: self.name.clone(),
            quality: self.quality,
            tags: match &self.tags {
                Some(t) => Some(clone_tags(t)),
                None => None,
            },
            in_stock: self.in_stock,
            is_liquor: self.is_liquor,
        };
        proof {
            assert(r@ =~= self@);
        }
        r
    }
}

impl Default for IngredientSelectorBuilder {
    /// The cleared draft: empty name text and no other criteria.
    fn default() -> (r: Self)
        ensures
            r@ == <IngredientSelectorBuilder as Builder<IngredientSelector>>::empty_view(),
    {
        let r = IngredientSelectorBuilder {
            name: String::new(),
            quality: None,
            tags: None,
            in_stock: None,
            is_liquor: None,
        };
        proof {
            assert(r@ =~= <IngredientSelectorBuilder as Builder<
                IngredientSelector,
            >>::empty_view());
        }
        r
    }
}

impl Builder<IngredientSelector> for IngredientSelectorBuilder {
    open spec fn built_of(v: SelectorBuilderView) -> SelectorView {
        SelectorView {
            name: if v.name.len() == 0 {
                None
            } else {
                Some(v.name)
            },
            quality: v.quality,
            tags: v.tags,
            in_stock: v.in_stock,
            is_liquor: v.is_liquor,
        }
    }

    open spec fn empty_view() -> SelectorBuilderView {
        SelectorBuilderView {
            name: Seq::empty(),
            quality: None,
            tags: None,
            in_stock: None,
            is_liquor: None,
        }
    }

    open spec fn draft_of(v: SelectorView) -> SelectorBuilderView {
        SelectorBuilderView {
            name: match v.name {
                Some(n) => n,
                None => Seq::empty(),
            },
            quality: v.quality,
            tags: v.tags,
            in_stock: v.in_stock,
            is_liquor: v.is_liquor,
        }
    }

    open spec fn faithful(v: SelectorView) -> bool {
        v.name != Some(Seq::<char>::empty())
    }

    fn from_entity(entity: &IngredientSelector) -> (b: Self) {
        let b = IngredientSelectorBuilder {
            name: match &entity.name {
                Some(n) => n.clone(),
                None => String::new(),
            },
            quality: entity.quality,
            tags: match &entity.tags {
                Some(t) => Some(clone_tags(t)),
                None => None,
            },
            in_stock: entity.in_stock,
            is_liquor: entity.is_liquor,
        };
        proof {
            assert(b@ =~= Self::draft_of(entity@));
        }
        b
    }

    fn build(&self) -> (t: IngredientSelector) {
        let t = IngredientSelector {
            name: if self.name.as_str().is_empty() {
                None
            } else {
                Some(self.name.clone())
            },
            quality: self.quality,
            tags: match &self.tags {
                Some(t) => Some(clone_tags(t)),
                None => None,
            },
            in_stock: self.in_stock,
            is_liquor: self.is_liquor,
        };
        proof {
            assert(t@ =~= Self::built_of(self@));
        }
        t
    }

    fn clear(&mut self) {
        self.name = String::new();
        self.quality = None;
        self.tags = None;
        self.in_stock = None;
        self.is_liquor = None;
        proof {
            assert(self@ =~= Self::empty_view());
        }
    }

    proof fn round_trip(v: SelectorView) {
        match v.name {
            Some(n) => {
                if n.len() == 0 {
                    assert(n =~= Seq::<char>::empty());
                }
                assert(n.len() != 0);
                assert(Self::built_of(Self::draft_of(v)) =~= v);
            },
            None => {
                assert(Self::built_of(Self::draft_of(v)) =~= v);
            },
        }
    }
}

} // verus!
