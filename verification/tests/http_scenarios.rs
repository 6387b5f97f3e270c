use recipe_decider::recipe::Recipe;
use recipe_decider::router::{
    handle_http, Channel, STATUS_BAD_REQUEST, STATUS_CREATED, STATUS_METHOD_NOT_ALLOWED, STATUS_OK,
};
use recipe_decider::store::Store;

fn rec(name: &str, instructions: &str) -> Recipe {
    Recipe::new(name.to_string(), instructions.to_string())
}

#[test]
fn post_add_recipe_creates_and_broadcasts() {
    let mut store = Store::new();
    let e = handle_http(
        &mut store,
        "POST",
        Some("{\"name\":\"Soup\",\"instructions\":\"Boil.\"}"),
    );
    assert_eq!(e.http_status, Some(STATUS_CREATED));
    assert_eq!(
        e.http_body.as_deref(),
        Some("{\"RecipeAdded\":{\"recipe\":{\"name\":\"Soup\",\"instructions\":\"Boil.\"}}}")
    );
    assert_eq!(
        e.broadcast.as_deref(),
        Some("{\"NewRecipe\":{\"name\":\"Soup\",\"instructions\":\"Boil.\"}}")
    );
    assert!(e.snapshot.is_some());
    assert!(e.rpc_reply.is_none());
    assert_eq!(store.len(), 1);
    assert_eq!(store.list()[0].name, "Soup");
}

#[test]
fn post_roll_on_empty_store_reports_no_recipe() {
    let mut store = Store::new();
    let e = handle_http(&mut store, "POST", Some("{\"RollRecipe\": true}"));
    assert_eq!(e.http_status, Some(STATUS_OK));
    assert_eq!(e.http_body.as_deref(), Some("{\"RolledRecipe\":{\"recipe\":null}}"));
    assert!(e.broadcast.is_none());
    assert!(e.snapshot.is_none());
    assert!(store.is_empty());
}

#[test]
fn post_roll_on_filled_store_returns_a_record() {
    let mut store = Store::new();
    store.append(rec("Soup", "Boil."));
    let e = handle_http(&mut store, "POST", Some("{\"RollRecipe\":true}"));
    assert_eq!(e.http_status, Some(STATUS_OK));
    assert_eq!(
        e.http_body.as_deref(),
        Some("{\"RolledRecipe\":{\"recipe\":{\"name\":\"Soup\",\"instructions\":\"Boil.\"}}}")
    );
    assert!(e.snapshot.is_none());
    assert_eq!(store.len(), 1);
}

#[test]
fn post_delete_with_invalid_index_is_a_client_error() {
    let mut store = Store::new();
    store.append(rec("a", "1"));
    store.append(rec("b", "2"));
    let e = handle_http(&mut store, "POST", Some("{\"DeleteRecipe\":{\"index\":5}}"));
    assert_eq!(e.http_status, Some(STATUS_BAD_REQUEST));
    assert_eq!(e.http_body.as_deref(), Some("{\"error\":\"Invalid recipe index\"}"));
    assert!(e.broadcast.is_none());
    assert!(e.snapshot.is_none());
    assert_eq!(store.len(), 2);
}

#[test]
fn post_delete_with_valid_index_acknowledges_and_refreshes() {
    let mut store = Store::new();
    store.append(rec("a", "1"));
    store.append(rec("b", "2"));
    let e = handle_http(&mut store, "POST", Some("{\"DeleteRecipe\":{\"index\":0}}"));
    assert_eq!(e.http_status, Some(STATUS_OK));
    assert_eq!(e.http_body.as_deref(), Some("{\"RecipeDeleted\":{\"success\":true}}"));
    assert_eq!(
        e.broadcast.as_deref(),
        Some("{\"RecipesUpdated\":{\"recipes\":[{\"name\":\"b\",\"instructions\":\"2\"}]}}")
    );
    assert!(e.snapshot.is_some());
    assert_eq!(store.len(), 1);
    assert_eq!(store.list()[0].name, "b");
}

#[test]
fn get_lists_the_collection() {
    let mut store = Store::new();
    store.append(rec("Soup", "Boil."));
    let e = handle_http(&mut store, "GET", None);
    assert_eq!(e.http_status, Some(STATUS_OK));
    assert_eq!(
        e.http_body.as_deref(),
        Some("{\"Recipes\":[{\"name\":\"Soup\",\"instructions\":\"Boil.\"}]}")
    );
    assert!(e.broadcast.is_none());
    assert!(e.snapshot.is_none());
}

#[test]
fn get_on_empty_store_lists_nothing() {
    let mut store = Store::new();
    let e = handle_http(&mut store, "GET", Some("ignored"));
    assert_eq!(e.http_status, Some(STATUS_OK));
    assert_eq!(e.http_body.as_deref(), Some("{\"Recipes\":[]}"));
}

#[test]
fn malformed_post_is_a_client_error_without_mutation() {
    let mut store = Store::new();
    let e = handle_http(&mut store, "POST", Some("{\"bogus\":1}"));
    assert_eq!(e.http_status, Some(STATUS_BAD_REQUEST));
    assert_eq!(e.http_body.as_deref(), Some("{\"error\":\"Malformed request\"}"));
    assert!(e.broadcast.is_none());
    assert!(e.snapshot.is_none());
    assert!(store.is_empty());
}

#[test]
fn post_without_a_body_is_a_client_error() {
    let mut store = Store::new();
    let e = handle_http(&mut store, "POST", None);
    assert_eq!(e.http_status, Some(STATUS_BAD_REQUEST));
    assert!(e.http_body.is_none());
    assert!(store.is_empty());
}

#[test]
fn other_methods_are_refused() {
    let mut store = Store::new();
    for method in ["PUT", "DELETE", "PATCH", "HEAD"] {
        let e = handle_http(&mut store, method, None);
        assert_eq!(e.http_status, Some(STATUS_METHOD_NOT_ALLOWED));
        assert!(e.http_body.is_none());
    }
}

#[test]
fn websocket_roll_broadcasts_instead_of_replying() {
    let mut store = Store::new();
    store.append(rec("Soup", "Boil."));
    let e = recipe_decider::router::handle_payload(
        &mut store,
        "{\"RollRecipe\":true}",
        Channel::WebSocket,
    );
    assert!(e.http_status.is_none());
    assert!(e.http_body.is_none());
    assert_eq!(
        e.broadcast.as_deref(),
        Some("{\"RecipeRolled\":{\"recipe\":{\"name\":\"Soup\",\"instructions\":\"Boil.\"}}}")
    );
}

#[test]
fn websocket_add_relies_on_the_broadcast_alone() {
    let mut store = Store::new();
    let e = recipe_decider::router::handle_payload(
        &mut store,
        "{\"name\":\"Soup\",\"instructions\":\"Boil.\"}",
        Channel::WebSocket,
    );
    assert!(e.http_status.is_none());
    assert!(e.http_body.is_none());
    assert!(e.rpc_reply.is_none());
    assert_eq!(
        e.broadcast.as_deref(),
        Some("{\"NewRecipe\":{\"name\":\"Soup\",\"instructions\":\"Boil.\"}}")
    );
    assert!(e.snapshot.is_some());
    assert_eq!(store.len(), 1);
}

#[test]
fn tagged_add_works_over_the_request_channel() {
    let mut store = Store::new();
    let e = handle_http(
        &mut store,
        "POST",
        Some("{\"AddRecipe\":{\"name\":\"Stew\",\"instructions\":\"Simmer.\"}}"),
    );
    assert_eq!(e.http_status, Some(STATUS_CREATED));
    assert_eq!(store.len(), 1);
    assert_eq!(store.list()[0].name, "Stew");
}

#[test]
fn websocket_delete_refreshes_subscribers_only() {
    let mut store = Store::new();
    store.append(rec("a", "1"));
    store.append(rec("b", "2"));
    let e = recipe_decider::router::handle_payload(
        &mut store,
        "{\"DeleteRecipe\":{\"index\":1}}",
        Channel::WebSocket,
    );
    assert!(e.http_status.is_none());
    assert!(e.rpc_reply.is_none());
    assert_eq!(
        e.broadcast.as_deref(),
        Some("{\"RecipesUpdated\":{\"recipes\":[{\"name\":\"a\",\"instructions\":\"1\"}]}}")
    );
    assert!(e.snapshot.is_some());
    assert_eq!(store.len(), 1);
}

#[test]
fn websocket_garbage_is_dropped_silently() {
    let mut store = Store::new();
    let e = recipe_decider::router::handle_payload(&mut store, "not json", Channel::WebSocket);
    assert!(e.http_status.is_none());
    assert!(e.http_body.is_none());
    assert!(e.rpc_reply.is_none());
    assert!(e.broadcast.is_none());
    assert!(e.snapshot.is_none());
    assert!(store.is_empty());
}

#[test]
fn mutation_is_applied_exactly_once_per_request() {
    let mut store = Store::new();
    for _ in 0..3 {
        handle_http(
            &mut store,
            "POST",
            Some("{\"name\":\"Soup\",\"instructions\":\"Boil.\"}"),
        );
    }
    assert_eq!(store.len(), 3);
}
