//! Selector matching over the ingredient store: quality wildcards, exact
//! names, and tag subsets.

use drink_solver::ingredient::{Ingredient, IngredientTag, Quality};
use drink_solver::ingredient_store::{IngredientSelector, IngredientStore};
use drink_solver::store::Store;

fn plain(name: &str, quality: Quality) -> Ingredient {
    Ingredient { name: name.into(), quality, tags: vec![], stock: 0, is_liquor: false }
}

fn no_criteria() -> IngredientSelector {
    IngredientSelector { name: None, quality: None, tags: None, in_stock: None, is_liquor: None }
}

#[test]
fn ingredient_test_selector_quality() {
    // Setup
    let mut store = IngredientStore::default();
    let high_ingredient1 = plain("high_1", Quality::High);
    store.register(high_ingredient1);
    let high_ingredient2 = plain("high_2", Quality::High);
    store.register(high_ingredient2);
    let mid_ingredient1 = plain("mid_1", Quality::Medium);
    store.register(mid_ingredient1);
    let mid_ingredient2 = plain("mid_2", Quality::Medium);
    store.register(mid_ingredient2);
    let low_ingredient1 = plain("low_1", Quality::Low);
    store.register(low_ingredient1);
    let low_ingredient2 = plain("low_2", Quality::Low);
    store.register(low_ingredient2);

    // Specific quality check
    for qual in vec![Quality::Low, Quality::Medium, Quality::High] {
        let selector = IngredientSelector { quality: Some(qual), ..no_criteria() };
        let result = store.select(&selector);
        assert_eq!(result.len(), 2);
    }

    // Quality::Any or None should fetch everything
    let selector = IngredientSelector { quality: Some(Quality::Any), ..no_criteria() };
    let result = store.select(&selector);
    assert_eq!(result.len(), 6);
}

#[test]
fn ingredient_test_selector_any_quality() {
    let mut store = IngredientStore::default();
    let any = plain("any", Quality::Any);
    store.register(any);
    for qual in vec![
        Some(Quality::Any),
        Some(Quality::High),
        Some(Quality::Medium),
        Some(Quality::Low),
        None,
    ] {
        let selector = IngredientSelector { quality: qual, ..no_criteria() };
        let result = store.select(&selector);
        assert_eq!(result.len(), 1);
    }
    let high = plain("high", Quality::High);
    store.register(high);
    for qual in vec![Some(Quality::Any), Some(Quality::High), None] {
        let selector = IngredientSelector { quality: qual, ..no_criteria() };
        let result = store.select(&selector);
        assert_eq!(result.len(), 2);
    }
}

#[test]
fn ingredient_test_selector_name() {
    // Setup
    let mut store = IngredientStore::default();
    let dupe_1 = plain("dupe", Quality::Low);
    let dupe_2 = plain("dupe", Quality::High);
    let novel = plain("novel", Quality::Any);
    store.register(dupe_1);
    store.register(dupe_2);
    store.register(novel);

    // Check specific names
    let dupe_selector = IngredientSelector { name: Some("dupe".into()), ..no_criteria() };
    let dupe_result = store.select(&dupe_selector);
    assert_eq!(dupe_result.len(), 2);
    let novel_selector = IngredientSelector { name: Some("novel".into()), ..no_criteria() };
    let novel_result = store.select(&novel_selector);
    assert_eq!(novel_result.len(), 1);

    // Check that None gets everything
    let none_selector = no_criteria();
    let none_result = store.select(&none_selector);
    assert_eq!(none_result.len(), 3);

    // Check a bad name gets nothing
    let bad_selector = IngredientSelector { name: Some("fake".into()), ..no_criteria() };
    let bad_result = store.select(&bad_selector);
    assert_eq!(bad_result.len(), 0);
}

#[test]
fn ingredients_test_selector_quality() {
    let mut store = IngredientStore::new();
    store.register(plain("high_1", Quality::High));
    store.register(plain("high_2", Quality::High));
    store.register(plain("mid_1", Quality::Medium));
    store.register(plain("mid_2", Quality::Medium));
    store.register(plain("low_1", Quality::Low));
    store.register(plain("low_2", Quality::Low));

    for qual in vec![Quality::Low, Quality::Medium, Quality::High] {
        let selector = IngredientSelector { quality: Some(qual), ..no_criteria() };
        let result = store.select(&selector);
        assert_eq!(result.len(), 2);
    }

    let selector = IngredientSelector { quality: Some(Quality::Any), ..no_criteria() };
    let result = store.select(&selector);
    assert_eq!(result.len(), 6);
}

#[test]
fn ingredients_test_selector_any_quality() {
    let mut store = IngredientStore::new();
    store.register(plain("any", Quality::Any));
    for qual in vec![
        Some(Quality::Any),
        Some(Quality::High),
        Some(Quality::Medium),
        Some(Quality::Low),
        None,
    ] {
        let selector = IngredientSelector { quality: qual, ..no_criteria() };
        let result = store.select(&selector);
        println!("{:?}", qual);
        assert_eq!(result.len(), 1);
    }
    store.register(plain("high", Quality::High));
    for qual in vec![Some(Quality::Any), Some(Quality::High), None] {
        let selector = IngredientSelector { quality: qual, ..no_criteria() };
        let result = store.select(&selector);
        assert_eq!(result.len(), 2);
    }
}

#[test]
fn ingredients_test_selector_name() {
    let mut store = IngredientStore::new();
    store.register(plain("dupe", Quality::Low));
    store.register(plain("dupe", Quality::High));
    store.register(plain("novel", Quality::Any));

    let dupe_selector = IngredientSelector { name: Some("dupe".into()), ..no_criteria() };
    assert_eq!(store.select(&dupe_selector).len(), 2);
    let novel_selector = IngredientSelector { name: Some("novel".into()), ..no_criteria() };
    assert_eq!(store.select(&novel_selector).len(), 1);
    assert_eq!(store.select(&no_criteria()).len(), 3);
    let bad_selector = IngredientSelector { name: Some("fake".into()), ..no_criteria() };
    assert_eq!(store.select(&bad_selector).len(), 0);
}

fn tag(text: &str) -> IngredientTag {
    IngredientTag { value: text.into() }
}

#[test]
fn tag_subset_matches() {
    let mut store = IngredientStore::new();
    let gin = Ingredient {
        name: "fancy gin".into(),
        quality: Quality::High,
        tags: vec![tag("Gin"), tag("Citrus")],
        stock: 3,
        is_liquor: true,
    };
    store.register(gin);

    let needs_gin = IngredientSelector { tags: Some(vec![tag("Gin")]), ..no_criteria() };
    assert_eq!(store.select(&needs_gin).len(), 1);

    let needs_gin_sweet =
        IngredientSelector { tags: Some(vec![tag("Gin"), tag("Sweet")]), ..no_criteria() };
    assert_eq!(store.select(&needs_gin_sweet).len(), 0);
}

#[test]
fn stock_and_liquor_criteria() {
    let mut store = IngredientStore::new();
    let stocked = Ingredient {
        name: "tonic".into(),
        quality: Quality::Any,
        tags: vec![],
        stock: 4,
        is_liquor: false,
    };
    let empty_bottle = Ingredient {
        name: "vermouth".into(),
        quality: Quality::Any,
        tags: vec![],
        stock: 0,
        is_liquor: true,
    };
    store.register(stocked);
    store.register(empty_bottle);

    let in_stock = IngredientSelector { in_stock: Some(true), ..no_criteria() };
    let result = store.select(&in_stock);
    assert_eq!(result.len(), 1);
    assert_eq!(result[0].name, "tonic");

    let out_of_stock = IngredientSelector { in_stock: Some(false), ..no_criteria() };
    let result = store.select(&out_of_stock);
    assert_eq!(result.len(), 1);
    assert_eq!(result[0].name, "vermouth");

    let liquor = IngredientSelector { is_liquor: Some(true), ..no_criteria() };
    let result = store.select(&liquor);
    assert_eq!(result.len(), 1);
    assert_eq!(result[0].name, "vermouth");
}

#[test]
fn selector_is_match_direct() {
    let gin = Ingredient {
        name: "gin".into(),
        quality: Quality::Medium,
        tags: vec![tag("Gin")],
        stock: 1,
        is_liquor: true,
    };
    let exact = IngredientSelector {
        name: Some("gin".into()),
        quality: Some(Quality::Medium),
        tags: Some(vec![tag("Gin")]),
        in_stock: Some(true),
        is_liquor: Some(true),
    };
    assert!(exact.is_match(&gin));
    let wrong_name = IngredientSelector { name: Some("Gin".into()), ..no_criteria() };
    assert!(!wrong_name.is_match(&gin));
    assert!(no_criteria().is_match(&gin));
}
