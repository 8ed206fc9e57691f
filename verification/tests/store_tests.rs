//! Store lifecycle: registration, deregistration, lookup, updates,
//! load-outcome handling, and recipe feasibility.

use drink_solver::ingredient::{Ingredient, IngredientTag, Quality};
use drink_solver::ingredient_store::{IngredientSelector, IngredientStore};
use drink_solver::measure::Measure;
use drink_solver::recipie::{Component, Recipie};
use drink_solver::recipie_store::RecipieStore;
use drink_solver::builder::Builder;
use drink_solver::ingredient_builder::IngredientBuilder;
use drink_solver::store::{LoadOutcome, Store};

fn plain(name: &str, quality: Quality) -> Ingredient {
    Ingredient { name: name.into(), quality, tags: vec![], stock: 0, is_liquor: false }
}

fn no_criteria() -> IngredientSelector {
    IngredientSelector { name: None, quality: None, tags: None, in_stock: None, is_liquor: None }
}

#[test]
fn test_recipie_mut() {
    let mut store = RecipieStore::default();
    let r = Recipie::default();
    let id = store.register(r.clone());
    {
        let r_opt = store.get_recipie(id);
        assert!(r_opt.is_some());
        let mut edited = r_opt.unwrap();
        edited.name = "New Name".into();
        edited.short_description = "New Short Description".into();
        edited.description = "New Description".into();
        edited.notes = "New Notes".into();
        assert!(store.update_entry(id, edited));
    }
    let new_r_opt = store.get_recipie(id);
    assert!(new_r_opt.is_some());
    let new_r = new_r_opt.unwrap();
    assert_ne!(r.name, new_r.name);
    assert_ne!(r.description, new_r.description);
    assert_ne!(r.short_description, new_r.short_description);
    assert_ne!(r.notes, new_r.notes);
}

#[test]
fn registration_monotonic() {
    let mut store = IngredientStore::new();
    assert_eq!(store.get_entries().len(), 0);
    let e = plain("foo", Quality::High);
    let id = store.register(e.clone());
    assert_eq!(store.get_entries().len(), 1);
    let back = store.get_entry(id).expect("registered entry must be present");
    assert_eq!(back.name, e.name);
    assert_eq!(back.quality, e.quality);
    assert_eq!(back.stock, e.stock);
    assert_eq!(back.is_liquor, e.is_liquor);
    assert_eq!(back.tags.len(), 0);

    // Registering an equal entity again adds a second copy under a new id.
    let id2 = store.register(e.clone());
    assert_ne!(id, id2);
    assert_eq!(store.get_entries().len(), 2);
}

#[test]
fn deregistration_idempotent() {
    let mut store = IngredientStore::new();
    let id = store.register(plain("foo", Quality::Low));
    let absent_id = id.wrapping_add(1);

    // An unknown id removes nothing and leaves the store unchanged.
    assert!(!store.deregister(absent_id));
    assert_eq!(store.get_entries().len(), 1);

    // A present id is removed exactly once.
    assert!(store.deregister(id));
    assert_eq!(store.get_entries().len(), 0);
    assert!(!store.deregister(id));
    assert_eq!(store.get_entries().len(), 0);
}

#[test]
fn update_entry_unknown_id() {
    let mut store = IngredientStore::new();
    let id = store.register(plain("foo", Quality::Low));
    assert!(!store.update_entry(id.wrapping_add(1), plain("bar", Quality::High)));
    assert_eq!(store.get_entry(id).unwrap().name, "foo");
}

#[test]
fn persistence_round_trip_entries() {
    let mut store = IngredientStore::new();
    store.register(Ingredient {
        name: "gin".into(),
        quality: Quality::High,
        tags: vec![IngredientTag { value: "Gin".into() }],
        stock: 2,
        is_liquor: true,
    });
    store.register(plain("tonic", Quality::Low));

    let dump = store.get_ingredient_entries();
    let reloaded =
        IngredientStore::from_load(LoadOutcome::Parsed(dump), "ingredient.json".to_string());

    let before = store.get_entries();
    let after = reloaded.get_entries();
    assert_eq!(before.len(), after.len());
    for (b, a) in before.iter().zip(after.iter()) {
        assert_eq!(b.name, a.name);
        assert_eq!(b.quality, a.quality);
        assert_eq!(b.stock, a.stock);
        assert_eq!(b.is_liquor, a.is_liquor);
        let b_tags: Vec<&String> = b.tags.iter().map(|t| &t.value).collect();
        let a_tags: Vec<&String> = a.tags.iter().map(|t| &t.value).collect();
        assert_eq!(b_tags, a_tags);
    }
    assert_eq!(reloaded.get_config_path(), Some("ingredient.json".to_string()));
}

#[test]
fn load_missing_file_falls_back_to_bound_empty_store() {
    let store = IngredientStore::from_load(LoadOutcome::Missing, "ingredient.json".to_string());
    assert_eq!(store.get_entries().len(), 0);
    assert_eq!(store.get_config_path(), Some("ingredient.json".to_string()));

    // The fallback store is usable.
    let mut store = store;
    let id = store.register(plain("foo", Quality::Any));
    assert!(store.get_entry(id).is_some());
}

#[test]
fn load_unreadable_file_falls_back_to_unbound_empty_store() {
    let store = RecipieStore::from_load(LoadOutcome::Unreadable, "recipie.json".to_string());
    assert_eq!(store.get_recipies().len(), 0);
    assert_eq!(store.get_config_path(), None);
}

#[test]
fn load_duplicate_ids_discarded_as_malformed() {
    let pairs = vec![(7u128, plain("a", Quality::Low)), (7u128, plain("b", Quality::High))];
    let store = IngredientStore::from_load(LoadOutcome::Parsed(pairs), "ingredient.json".into());
    assert_eq!(store.get_entries().len(), 0);
    assert_eq!(store.get_config_path(), Some("ingredient.json".to_string()));
}

#[test]
fn config_path_binding() {
    let mut store = IngredientStore::new();
    assert_eq!(store.get_config_path(), None);
    store.set_config_path("somewhere/ingredient.json".to_string());
    assert_eq!(store.get_config_path(), Some("somewhere/ingredient.json".to_string()));
    assert_eq!(IngredientStore::get_json_name(), "ingredient.json");
    assert_eq!(RecipieStore::get_json_name(), "recipie.json");
}

fn component_requiring(tag_text: &str) -> Component {
    Component {
        ingredient: IngredientSelector {
            name: None,
            quality: None,
            tags: Some(vec![IngredientTag { value: tag_text.into() }]),
            in_stock: None,
            is_liquor: None,
        },
        amount: Measure::Oz(1500),
    }
}

#[test]
fn feasibility_conjunction() {
    let mut stock = IngredientStore::new();
    stock.register(Ingredient {
        name: "gin".into(),
        quality: Quality::Medium,
        tags: vec![IngredientTag { value: "Gin".into() }],
        stock: 1,
        is_liquor: true,
    });

    let mut recipe = Recipie::default();
    recipe.name = "gin and nothing".into();
    recipe.components.push(component_requiring("Gin"));
    assert!(recipe.can_make(&stock));

    // One unresolvable component makes the whole recipe unmakeable.
    recipe.components.push(component_requiring("Sweet"));
    assert!(!recipe.can_make(&stock));
}

#[test]
fn feasibility_needs_stock() {
    let mut stock = IngredientStore::new();
    stock.register(Ingredient {
        name: "gin".into(),
        quality: Quality::Medium,
        tags: vec![IngredientTag { value: "Gin".into() }],
        stock: 0,
        is_liquor: true,
    });

    let mut recipe = Recipie::default();
    recipe.components.push(component_requiring("Gin"));
    // The only matching ingredient is out of stock.
    assert!(!recipe.can_make(&stock));

    // An empty recipe is trivially makeable.
    assert!(Recipie::default().can_make(&stock));
}

#[test]
fn build_from_registers_built_entity() {
    let mut store = IngredientStore::new();
    let mut b = IngredientBuilder::default();
    b.name = "cointreau".into();
    b.quality = Quality::High;
    b.is_liquor = true;
    let id = store.build_from(&b);
    let back = store.get_entry(id).unwrap();
    assert_eq!(back.name, "cointreau");
    assert_eq!(back.quality, Quality::High);
    assert!(back.is_liquor);
}

#[test]
fn ingredient_lookup_helpers() {
    let mut store = IngredientStore::new();
    store.register(plain("dupe", Quality::Low));
    store.register(plain("dupe", Quality::High));
    store.register(Ingredient {
        name: "novel".into(),
        quality: Quality::Any,
        tags: vec![IngredientTag { value: "Citrus".into() }, IngredientTag { value: "Sweet".into() }],
        stock: 0,
        is_liquor: false,
    });
    store.register(Ingredient {
        name: "other".into(),
        quality: Quality::Any,
        tags: vec![IngredientTag { value: "Sweet".into() }, IngredientTag { value: "Herbal".into() }],
        stock: 0,
        is_liquor: false,
    });

    let names = store.get_ingredient_names();
    assert_eq!(names, vec!["dupe", "dupe", "novel", "other"]);

    // The first ingredient under a duplicated name wins.
    let first = store.get_ingredient(&"dupe".to_string()).unwrap();
    assert_eq!(first.quality, Quality::Low);
    assert!(store.get_ingredient(&"fake".to_string()).is_none());

    // Tags are collected once each, at their first occurrence.
    let tags: Vec<String> = store.get_tags().into_iter().map(|t| t.value).collect();
    assert_eq!(tags, vec!["Citrus", "Sweet", "Herbal"]);

    // An empty selector still matches every entry ("show all").
    assert_eq!(store.select(&no_criteria()).len(), 4);
}
