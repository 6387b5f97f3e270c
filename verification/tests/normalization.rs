use recipe_decider::parse::normalize;
use recipe_decider::recipe::Recipe;
use recipe_decider::router::{handle_payload, Channel};
use recipe_decider::store::Store;
use recipe_decider::wire::{Command, WireError};

fn rec(name: &str, instructions: &str) -> Recipe {
    Recipe::new(name.to_string(), instructions.to_string())
}

#[test]
fn strict_unit_words_normalize_on_every_channel() {
    for loose in [true, false] {
        assert!(matches!(normalize("\"RollRecipe\"", loose), Ok(Command::RollRecipe)));
        assert!(matches!(normalize("\"GetRecipes\"", loose), Ok(Command::ListRecipes)));
    }
}

#[test]
fn tagged_add_normalizes_on_every_channel() {
    for loose in [true, false] {
        let cmd = normalize(
            "{\"AddRecipe\":{\"name\":\"Soup\",\"instructions\":\"Boil.\"}}",
            loose,
        )
        .unwrap();
        match cmd {
            Command::AddRecipe(r) => {
                assert_eq!(r.name, "Soup");
                assert_eq!(r.instructions, "Boil.");
            },
            _ => panic!("expected an addition"),
        }
    }
}

#[test]
fn bare_add_is_a_browser_shape_only() {
    let body = "{\"name\":\"Soup\",\"instructions\":\"Boil.\"}";
    assert!(matches!(normalize(body, true), Ok(Command::AddRecipe(_))));
    assert_eq!(normalize(body, false).unwrap_err(), WireError::MalformedRequest);
}

#[test]
fn roll_flag_is_a_browser_shape_only() {
    let body = "{\"RollRecipe\":true}";
    assert!(matches!(normalize(body, true), Ok(Command::RollRecipe)));
    assert_eq!(normalize(body, false).unwrap_err(), WireError::MalformedRequest);
    assert_eq!(
        normalize("{\"RollRecipe\":false}", true).unwrap_err(),
        WireError::MalformedRequest
    );
}

#[test]
fn delete_is_a_browser_shape_only() {
    let body = "{\"DeleteRecipe\":{\"index\":3}}";
    assert!(matches!(normalize(body, true), Ok(Command::DeleteRecipe(3))));
    assert_eq!(normalize(body, false).unwrap_err(), WireError::MalformedRequest);
}

#[test]
fn whitespace_between_tokens_is_insignificant() {
    assert!(matches!(
        normalize(" {\"RollRecipe\" : true } ", true),
        Ok(Command::RollRecipe)
    ));
    assert!(matches!(
        normalize("{ \"DeleteRecipe\" : { \"index\" : 12 } }", true),
        Ok(Command::DeleteRecipe(12))
    ));
    assert!(matches!(normalize("  \"GetRecipes\"  ", false), Ok(Command::ListRecipes)));
}

#[test]
fn escaped_characters_in_payloads_are_decoded() {
    let cmd = normalize(
        "{\"name\":\"say \\\"hi\\\"\",\"instructions\":\"a\\\\b\\nc\\td\"}",
        true,
    )
    .unwrap();
    match cmd {
        Command::AddRecipe(r) => {
            assert_eq!(r.name, "say \"hi\"");
            assert_eq!(r.instructions, "a\\b\nc\td");
        },
        _ => panic!("expected an addition"),
    }
}

#[test]
fn garbage_payloads_are_refused() {
    for body in [
        "",
        "   ",
        "not json",
        "{\"name\":\"Soup\"}",
        "{\"RollRecipe\":1}",
        "{\"DeleteRecipe\":{\"index\":-1}}",
        "{\"DeleteRecipe\":{\"index\":\"5\"}}",
        "{\"AddRecipe\":{\"name\":\"Soup\"}}",
        "{\"name\":\"Soup\",\"instructions\":\"Boil.\"} extra",
        "\"UnknownWord\"",
        "{\"DeleteRecipe\":{\"index\":99999999999999999999999999}}",
    ] {
        assert_eq!(
            normalize(body, true).unwrap_err(),
            WireError::MalformedRequest,
            "expected refusal for {body:?}"
        );
    }
}

#[test]
fn huge_but_valid_index_is_kept_as_given() {
    assert!(matches!(
        normalize("{\"DeleteRecipe\":{\"index\":18446744073709551615}}", true),
        Ok(Command::DeleteRecipe(u64::MAX))
    ));
}

#[test]
fn rpc_add_replies_typed_and_still_broadcasts() {
    let mut store = Store::new();
    let e = handle_payload(
        &mut store,
        "{\"AddRecipe\":{\"name\":\"Soup\",\"instructions\":\"Boil.\"}}",
        Channel::Rpc,
    );
    assert_eq!(e.rpc_reply.as_deref(), Some("\"RecipeAdded\""));
    assert!(e.http_status.is_none());
    assert_eq!(
        e.broadcast.as_deref(),
        Some("{\"NewRecipe\":{\"name\":\"Soup\",\"instructions\":\"Boil.\"}}")
    );
    assert!(e.snapshot.is_some());
    assert_eq!(store.len(), 1);
}

#[test]
fn rpc_get_recipes_replies_with_the_collection() {
    let mut store = Store::new();
    store.append(rec("Soup", "Boil."));
    let e = handle_payload(&mut store, "\"GetRecipes\"", Channel::Rpc);
    assert_eq!(
        e.rpc_reply.as_deref(),
        Some("{\"Recipes\":[{\"name\":\"Soup\",\"instructions\":\"Boil.\"}]}")
    );
    assert!(e.broadcast.is_none());
    assert!(e.snapshot.is_none());
}

#[test]
fn rpc_roll_replies_and_keeps_subscribers_in_sync() {
    let mut store = Store::new();
    store.append(rec("Soup", "Boil."));
    let e = handle_payload(&mut store, "\"RollRecipe\"", Channel::Rpc);
    assert_eq!(
        e.rpc_reply.as_deref(),
        Some("{\"RolledRecipe\":{\"name\":\"Soup\",\"instructions\":\"Boil.\"}}")
    );
    assert_eq!(
        e.broadcast.as_deref(),
        Some("{\"RecipeRolled\":{\"recipe\":{\"name\":\"Soup\",\"instructions\":\"Boil.\"}}}")
    );
    assert!(e.snapshot.is_none());
}

#[test]
fn rpc_roll_on_empty_store_replies_null() {
    let mut store = Store::new();
    let e = handle_payload(&mut store, "\"RollRecipe\"", Channel::Rpc);
    assert_eq!(e.rpc_reply.as_deref(), Some("{\"RolledRecipe\":null}"));
    assert_eq!(e.broadcast.as_deref(), Some("{\"RecipeRolled\":{\"recipe\":null}}"));
}

#[test]
fn rpc_refusal_mutates_nothing_and_replies_nothing() {
    let mut store = Store::new();
    let e = handle_payload(&mut store, "{\"DeleteRecipe\":{\"index\":0}}", Channel::Rpc);
    assert!(e.rpc_reply.is_none());
    assert!(e.http_status.is_none());
    assert!(e.broadcast.is_none());
    assert!(e.snapshot.is_none());
    assert!(store.is_empty());
}
