use recipe_server::error::RecipeError;
use recipe_server::recipe::{JSONRecipe, RecipeStore};
use recipe_server::web::{get_recipe, join_strings, split_commas, GetRecipeParams, RecipePage};

fn body(id: &str, tags: &[&str]) -> JSONRecipe {
    JSONRecipe {
        id: id.to_string(),
        title: format!("title of {}", id),
        ingredients: "i".to_string(),
        instructions: "s".to_string(),
        source: "src".to_string(),
        tags: tags.iter().map(|t| t.to_string()).collect(),
    }
}

fn strings(v: &[&str]) -> Vec<String> {
    v.iter().map(|s| s.to_string()).collect()
}

#[test]
fn split_commas_splits_between_commas() {
    assert_eq!(split_commas(&"a,b".to_string()), strings(&["a", "b"]));
    assert_eq!(split_commas(&"beef".to_string()), strings(&["beef"]));
    assert_eq!(split_commas(&"".to_string()), strings(&[""]));
    assert_eq!(split_commas(&"a,,b".to_string()), strings(&["a", "", "b"]));
    assert_eq!(split_commas(&"a,b,".to_string()), strings(&["a", "b", ""]));
    assert_eq!(split_commas(&",x".to_string()), strings(&["", "x"]));
}

#[test]
fn join_strings_puts_separator_between() {
    assert_eq!(join_strings(&strings(&[]), ", "), "");
    assert_eq!(join_strings(&strings(&["x"]), ", "), "x");
    assert_eq!(join_strings(&strings(&["x", "y", "z"]), ", "), "x, y, z");
}

#[test]
fn split_then_join_restores_input() {
    for s in ["", "a", "a,b", "a,,b,", ",,"] {
        let pieces = split_commas(&s.to_string());
        assert_eq!(join_strings(&pieces, ","), s);
    }
}

fn sample_store() -> RecipeStore {
    let mut store = RecipeStore::new();
    store.add(body("A", &["beef", "grill"])).unwrap();
    store.add(body("B", &["beef", "soup"])).unwrap();
    store
}

#[test]
fn page_route_with_id_renders_that_recipe() {
    let store = sample_store();
    let params = GetRecipeParams { id: Some("A".to_string()), tags: None };
    match get_recipe(&store, &params).unwrap() {
        RecipePage::Page { recipe, tags } => {
            assert_eq!(recipe.id, "A");
            assert_eq!(recipe.title, "title of A");
            assert_eq!(tags, "beef, grill");
        }
        RecipePage::Redirect { .. } => panic!("expected a rendered page"),
    }
}

#[test]
fn page_route_with_missing_id_fails() {
    let store = sample_store();
    let params = GetRecipeParams { id: Some("zzz".to_string()), tags: None };
    let err = get_recipe(&store, &params).unwrap_err();
    assert!(matches!(err, RecipeError::NotFound));
}

#[test]
fn page_route_with_tags_redirects_to_match() {
    let store = sample_store();
    let params = GetRecipeParams { id: None, tags: Some("grill,dessert".to_string()) };
    for _ in 0..20 {
        match get_recipe(&store, &params).unwrap() {
            RecipePage::Redirect { id } => assert_eq!(id, "A"),
            RecipePage::Page { .. } => panic!("expected a redirect"),
        }
    }
}

#[test]
fn page_route_with_unmatched_tags_falls_back_to_random() {
    let store = sample_store();
    let params = GetRecipeParams { id: None, tags: Some("dessert".to_string()) };
    match get_recipe(&store, &params).unwrap() {
        RecipePage::Redirect { id } => assert!(id == "A" || id == "B"),
        RecipePage::Page { .. } => panic!("expected a redirect"),
    }
}

#[test]
fn page_route_without_params_redirects_to_some_recipe() {
    let store = sample_store();
    let params = GetRecipeParams { id: None, tags: None };
    match get_recipe(&store, &params).unwrap() {
        RecipePage::Redirect { id } => assert!(id == "A" || id == "B"),
        RecipePage::Page { .. } => panic!("expected a redirect"),
    }
}

#[test]
fn page_route_on_empty_store_fails() {
    let store = RecipeStore::new();
    let params = GetRecipeParams { id: None, tags: None };
    let err = get_recipe(&store, &params).unwrap_err();
    assert!(matches!(err, RecipeError::NotFound));
}
