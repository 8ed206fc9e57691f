//! The editable draft of a recipe [`Component`]: a selector draft paired
//! with a quantity.

use vstd::prelude::*;

use crate::builder::Builder;
use crate::ingredient_selector_builder::{IngredientSelectorBuilder, SelectorBuilderView};
use crate::measure::Measure;
use crate::recipie::{Component, ComponentView};
use crate::ingredient_store::IngredientSelector;

verus! {

/// The mathematical value of a [`ComponentBuilder`].
#[verifier::ext_equal]
pub struct ComponentBuilderView {
    pub selector: SelectorBuilderView,
    pub measure: Measure,
}

/// An editable draft of a recipe component.
#[derive(Debug)]
pub struct ComponentBuilder {
    pub selector: IngredientSelectorBuilder,
    pub measure: Measure,
}

impl View for ComponentBuilder {
    type V = ComponentBuilderView;

    open spec fn view(&self) -> ComponentBuilderView {
        ComponentBuilderView { selector: self.selector@, measure: self.measure }
    }
}

impl Clone for ComponentBuilder {
    fn clone(&self) -> (r: Self)
        ensures
            r@ == self@,
    {
        ComponentBuilder { selector: self.selector.clone(), measure: self.measure }
    }
}

impl Default for ComponentBuilder {
    /// The cleared draft: an empty selector draft and the default quantity.
    fn default() -> (r: Self)
        ensures
            r@ == <ComponentBuilder as Builder<Component>>::empty_view(),
    {
        ComponentBuilder {
            selector: IngredientSelectorBuilder::default(),
            measure: Measure::Taste,
        }
    }
}

impl Builder<Component> for ComponentBuilder {
    open spec fn built_of(v: ComponentBuilderView) -> ComponentView {
        ComponentView {
            ingredient: <IngredientSelectorBuilder as Builder<IngredientSelector>>::built_of(
                v.selector,
            ),
            amount: v.measure,
        }
    }

    open spec fn empty_view() -> ComponentBuilderView {
        ComponentBuilderView {
            selector: <IngredientSelectorBuilder as Builder<IngredientSelector>>::empty_view(),
            measure: Measure::Taste,
        }
    }

    open spec fn draft_of(v: ComponentView) -> ComponentBuilderView {
        ComponentBuilderView {
            selector: <IngredientSelectorBuilder as Builder<IngredientSelector>>::draft_of(
                v.ingredient,
            ),
            measure: v.amount,
        }
    }

    open spec fn faithful(v: ComponentView) -> bool {
        <IngredientSelectorBuilder as Builder<IngredientSelector>>::faithful(v.ingredient)
    }

    fn from_entity(entity: &Component) -> (b: Self) {
        ComponentBuilder {
            selector: IngredientSelectorBuilder::from_entity(&entity.ingredient),
            measure: entity.amount,
        }
    }

    fn build(&self) -> (t: Component) {
        Component { ingredient: self.selector.build(), amount: self.measure }
    }

    fn clear(&mut self) {
        self.selector = IngredientSelectorBuilder::default();
        self.measure = Measure::Taste;
    }

    proof fn round_trip(v: ComponentView) {
        <IngredientSelectorBuilder as Builder<IngredientSelector>>::round_trip(v.ingredient);
        assert(Self::built_of(Self::draft_of(v)) =~= v);
    }
}

} // verus!
