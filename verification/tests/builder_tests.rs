//! Builder round trips, clearing, and measure canonicalization.

use drink_solver::builder::Builder;
use drink_solver::component_builder::ComponentBuilder;
use drink_solver::ingredient::{Ingredient, IngredientTag, Quality};
use drink_solver::ingredient_builder::IngredientBuilder;
use drink_solver::ingredient_selector_builder::IngredientSelectorBuilder;
use drink_solver::ingredient_store::IngredientSelector;
use drink_solver::measure::Measure;
use drink_solver::recipie::{Component, Recipie};
use drink_solver::recipie_builder::RecipieBuilder;

fn sample_ingredient() -> Ingredient {
    Ingredient {
        name: "yuzu juice".into(),
        quality: Quality::High,
        tags: vec![IngredientTag { value: "Citrus".into() }, IngredientTag { value: "Sour".into() }],
        stock: 7,
        is_liquor: false,
    }
}

fn sample_selector() -> IngredientSelector {
    IngredientSelector {
        name: Some("yuzu juice".into()),
        quality: Some(Quality::High),
        tags: Some(vec![IngredientTag { value: "Citrus".into() }]),
        in_stock: Some(true),
        is_liquor: Some(false),
    }
}

fn sample_recipe() -> Recipie {
    Recipie {
        name: "gimlet".into(),
        description: "a sour, bracing classic".into(),
        short_description: "gin and lime".into(),
        notes: "best very cold".into(),
        components: vec![Component { ingredient: sample_selector(), amount: Measure::Oz(2000) }],
        instructions: vec!["shake".into(), "strain".into()],
    }
}

#[test]
fn ingredient_round_trip() {
    let e = sample_ingredient();
    let built = IngredientBuilder::from_entity(&e).build();
    assert_eq!(built.name, e.name);
    assert_eq!(built.quality, e.quality);
    assert_eq!(built.stock, e.stock);
    assert_eq!(built.is_liquor, e.is_liquor);
    let texts: Vec<&String> = built.tags.iter().map(|t| &t.value).collect();
    assert_eq!(texts, vec!["Citrus", "Sour"]);
}

#[test]
fn selector_round_trip() {
    let s = sample_selector();
    let built = IngredientSelectorBuilder::from_entity(&s).build();
    assert_eq!(built.name, Some("yuzu juice".to_string()));
    assert_eq!(built.quality, Some(Quality::High));
    assert_eq!(built.in_stock, Some(true));
    assert_eq!(built.is_liquor, Some(false));
    let texts: Vec<&String> = built.tags.as_ref().unwrap().iter().map(|t| &t.value).collect();
    assert_eq!(texts, vec!["Citrus"]);
}

#[test]
fn selector_builder_empty_name_means_no_criterion() {
    let mut b = IngredientSelectorBuilder::default();
    b.quality = Some(Quality::Low);
    let built = b.build();
    assert_eq!(built.name, None);
    assert_eq!(built.quality, Some(Quality::Low));
}

#[test]
fn component_round_trip() {
    let c = Component { ingredient: sample_selector(), amount: Measure::Shot(1000) };
    let built = ComponentBuilder::from_entity(&c).build();
    assert_eq!(built.amount, Measure::Shot(1000));
    assert_eq!(built.ingredient.name, Some("yuzu juice".to_string()));
    assert_eq!(built.ingredient.quality, Some(Quality::High));
}

#[test]
fn recipie_round_trip() {
    let r = sample_recipe();
    let built = RecipieBuilder::from_entity(&r).build();
    assert_eq!(built.name, r.name);
    assert_eq!(built.description, r.description);
    assert_eq!(built.short_description, r.short_description);
    assert_eq!(built.notes, r.notes);
    assert_eq!(built.instructions, r.instructions);
    assert_eq!(built.components.len(), 1);
    assert_eq!(built.components[0].amount, Measure::Oz(2000));
    assert_eq!(built.components[0].ingredient.name, Some("yuzu juice".to_string()));
}

#[test]
fn clear_resets_every_field_and_is_idempotent() {
    let mut b = IngredientBuilder::from_entity(&sample_ingredient());
    b.clear();
    assert_eq!(b.name, "");
    assert_eq!(b.quality, Quality::Any);
    assert!(b.tags.is_empty());
    assert_eq!(b.stock, 0);
    assert!(!b.is_liquor);
    b.clear();
    assert_eq!(b.name, "");
    assert_eq!(b.stock, 0);

    let mut rb = RecipieBuilder::from_entity(&sample_recipe());
    rb.clear();
    assert_eq!(rb.name, "");
    assert!(rb.components.is_empty());
    assert!(rb.instructions.is_empty());
    let empty = rb.build();
    assert_eq!(empty.name, "");
    assert!(empty.components.is_empty());
    assert!(empty.instructions.is_empty());
}

#[test]
fn recipie_builder_new_is_empty() {
    let b = RecipieBuilder::new();
    let r = b.build();
    assert_eq!(r.name, "");
    assert_eq!(r.description, "");
    assert_eq!(r.short_description, "");
    assert_eq!(r.notes, "");
    assert!(r.components.is_empty());
    assert!(r.instructions.is_empty());
}

#[test]
fn measure_to_oz_exact_values() {
    assert_eq!(Measure::Oz(250).to_oz(), Measure::Oz(250));
    assert_eq!(Measure::Ml(1000).to_oz(), Measure::Oz(33));
    assert_eq!(Measure::Shot(1000).to_oz(), Measure::Oz(1500));
    assert_eq!(Measure::Liter(1000).to_oz(), Measure::Oz(33814));
    assert_eq!(Measure::Handle(1000).to_oz(), Measure::Oz(50721));
    assert_eq!(Measure::Teaspoon(1000).to_oz(), Measure::Oz(166));
    assert_eq!(Measure::Tablespoon(1000).to_oz(), Measure::Oz(499));
    // Dash and Taste both canonicalize to the nominal 0.1 oz.
    assert_eq!(Measure::Dash(5000).to_oz(), Measure::Oz(100));
    assert_eq!(Measure::Taste.to_oz(), Measure::Oz(100));
}

#[test]
fn enumerated_variants() {
    assert_eq!(
        Quality::all(),
        vec![Quality::Low, Quality::Medium, Quality::High, Quality::Any]
    );
    let units = Measure::all_units();
    assert_eq!(units.len(), 9);
    assert_eq!(units[0], Measure::Oz(0));
    assert_eq!(units[8], Measure::Taste);
    assert_eq!(Quality::High.label(), "High");
    assert_eq!(Measure::Ml(500).unit_label(), "ml");
    assert_eq!(Measure::Taste.unit_label(), "to taste");
    assert_eq!(Quality::default(), Quality::Any);
    assert_eq!(Measure::default(), Measure::Taste);
}
