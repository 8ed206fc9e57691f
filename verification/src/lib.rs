//! Core data model of a bar-inventory application: ingredients and recipes,
//! identity-keyed entity stores with selector-based querying, editable draft
//! builders with round-trip guarantees, and recipe feasibility checking.

pub mod builder;
pub mod component_builder;
pub mod ingredient;
pub mod ingredient_builder;
pub mod ingredient_selector_builder;
pub mod ingredient_store;
pub mod measure;
pub mod recipie;
pub mod recipie_builder;
pub mod recipie_store;
pub mod store;

pub use ingredient::{Ingredient, IngredientTag, Quality};
