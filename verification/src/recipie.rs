//! Recipes and their components.
//!
//! A component deliberately binds an ingredient *selector* — criteria, not a
//! concrete stock item — to a quantity, so substitutable ingredients ("any
//! gin") work automatically. A recipe is makeable exactly when every one of
//! its components resolves to at least one in-stock ingredient.

use vstd::prelude::*;

use crate::ingredient::{clone_strings, string_views, IngredientView};
use crate::ingredient_store::{
    lemma_matching_nonempty, IngredientSelector, IngredientStore, SelectorView,
};
use crate::measure::Measure;
use crate::store::{entities_of, views_of, Store};

verus! {

/// The mathematical value of a [`Component`].
#[verifier::ext_equal]
pub struct ComponentView {
    pub ingredient: SelectorView,
    pub amount: Measure,
}

/// One line of a recipe: criteria for the ingredient to use, and how much
/// of it.
#[derive(Debug)]
pub struct Component {
    pub ingredient: IngredientSelector,
    pub amount: Measure,
}

impl View for Component {
    type V = ComponentView;

    open spec fn view(&self) -> ComponentView {
        ComponentView { ingredient: self.ingredient@, amount: self.amount }
    }
}

impl Clone for Component {
    fn clone(&self) -> (r: Self)
        ensures
            r@ == self@,
    {
        Component { ingredient: self.ingredient.clone(), amount: self.amount }
    }
}

/// The mathematical value of a [`Recipie`]: every field, with strings as
/// character sequences.
#[verifier::ext_equal]
pub struct RecipieView {
    pub name: Seq<char>,
    pub description: Seq<char>,
    pub short_description: Seq<char>,
    pub notes: Seq<char>,
    pub components: Seq<ComponentView>,
    pub instructions: Seq<Seq<char>>,
}

impl RecipieView {
    /// The value of a freshly made, empty recipe.
    pub open spec fn empty() -> RecipieView {
        RecipieView {
            name: Seq::empty(),
            description: Seq::empty(),
            short_description: Seq::empty(),
            notes: Seq::empty(),
            components: Seq::empty(),
            instructions: Seq::empty(),
        }
    }
}

/// A recipe: descriptive text, an ordered list of components, and ordered
/// instruction steps. Sequence order is meaningful and preserved.
#[derive(Debug)]
pub struct Recipie {
    pub name: String,
    pub description: String,
    pub short_description: String,
    pub notes: String,
    pub components: Vec<Component>,
    pub instructions: Vec<String>,
}

/// The views of a component list, in order.
pub open spec fn component_views(s: Seq<Component>) -> Seq<ComponentView> {
    s.map_values(|c: Component| c@)
}

impl View for Recipie {
    type V = RecipieView;

    open spec fn view(&self) -> RecipieView {
        RecipieView {
            name: self.name@,
            description: self.description@,
            short_description: self.short_description@,
            notes: self.notes@,
            components: component_views(self.components@),
            instructions: string_views(self.instructions@),
        }
    }
}

/// Clones a component list element by element, preserving every value.
pub fn clone_components(components: &Vec<Component>) -> (r: Vec<Component>)
    ensures
        component_views(r@) == component_views(components@),
        r@.len() == components@.len(),
{
    let mut out: Vec<Component> = Vec::new();
    let mut i: usize = 0;
    while i < components.len()
        invariant
            i <= components@.len(),
            out@.len() == i,
            forall|k: int| 0 <= k < i ==> (#[trigger] out@[k])@ == components@[k]@,
        decreases components@.len() - i,
    {
        out.push(components[i].clone());
        i = i + 1;
    }
    proof {
        assert(component_views(out@) =~= component_views(components@));
    }
    out
}

impl Clone for Recipie {
    fn clone(&self) -> (r: Self)
        ensures
            r@ == self@,
    {
        let r = Recipie {
            name: self.name.clone(),
            description: self.description.clone(),
            short_description: self.short_description.clone(),
            notes: self.notes.clone(),
            components: clone_components(&self.components),
            instructions: clone_strings(&self.instructions),
        };
        proof {
            assert(r@ =~= self@);
        }
        r
    }
}

impl Default for Recipie {
    /// A freshly made recipe: every text empty, no components, no
    /// instructions.
    fn default() -> (r: Self)
        ensures
            r@ == RecipieView::empty(),
    {
        let r = Recipie {
            name: String::new(),
            description: String::new(),
            short_description: String::new(),
            notes: String::new(),
            components: Vec::new(),
            instructions: Vec::new(),
        };
        proof {
            assert(r@ =~= RecipieView::empty());
        }
        r
    }
}

/// The selector with its stock criterion forced to "in stock".
pub open spec fn in_stocked(sel: SelectorView) -> SelectorView {
    SelectorView { in_stock: Some(true), ..sel }
}

/// Whether a component resolves against the given stock: some ingredient
/// qualifies under the component's selector with the stock criterion
/// forced to "in stock".
pub open spec fn component_feasible(c: ComponentView, stock: Seq<IngredientView>) -> bool {
    exists|k: int| 0 <= k < stock.len() && in_stocked(c.ingredient).selects(stock[k])
}

impl Recipie {
    /// Whether the recipe is makeable from the store's current stock: every
    /// component must individually resolve to at least one in-stock
    /// ingredient; which one is a display-time choice, not checked here.
    pub fn can_make(&self, store: &IngredientStore) -> (r: bool)
        ensures
            r == forall|j: int|
                0 <= j < self@.components.len() ==> #[trigger] component_feasible(
                    self@.components[j],
                    entities_of(store.pairs()),
                ),
    {
        let ghost stock = entities_of(store.pairs());
        let n = self.components.len();
        let mut j: usize = 0;
        while j < n
            invariant
                j <= n == self@.components.len(),
                stock == entities_of(store.pairs()),
                forall|k: int| 0 <= k < j ==> #[trigger] component_feasible(
                    self@.components[k],
                    stock,
                ),
            decreases n - j,
        {
            let mut sel = self.components[j].ingredient.clone();
            sel.in_stock = Some(true);
            proof {
                assert(sel@ =~= in_stocked(self@.components[j as int].ingredient));
            }
            let found = store.select(&sel);
            proof {
                lemma_matching_nonempty(stock, sel@);
                assert(views_of(found@).len() == found@.len());
            }
            if found.is_empty() {
                proof {
                    assert(!component_feasible(self@.components[j as int], stock));
                }
                return false;
            }
            proof {
                assert(component_feasible(self@.components[j as int], stock));
            }
            j = j + 1;
        }
        true
    }
}

} // verus!
