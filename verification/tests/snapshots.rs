use recipe_decider::parse::restore;
use recipe_decider::recipe::Recipe;
use recipe_decider::store::Store;

fn rec(name: &str, instructions: &str) -> Recipe {
    Recipe::new(name.to_string(), instructions.to_string())
}

fn fields(store: &Store) -> Vec<(String, String)> {
    store.list().into_iter().map(|r| (r.name, r.instructions)).collect()
}

#[test]
fn snapshot_restore_round_trip() {
    let mut store = Store::new();
    store.append(rec("Soup", "Boil."));
    store.append(rec("Salad", "Chop and toss"));
    let text = store.snapshot();
    let back = restore(&text);
    assert_eq!(fields(&store), fields(&back));
}

#[test]
fn snapshot_round_trip_keeps_awkward_characters() {
    let mut store = Store::new();
    store.append(rec("say \"hi\"", "line one\nline two"));
    store.append(rec("back\\slash", "tab\there\rreturn"));
    store.append(rec("crème brûlée", "chauffer à 180°"));
    store.append(rec("", ""));
    let text = store.snapshot();
    let back = restore(&text);
    assert_eq!(fields(&store), fields(&back));
}

#[test]
fn empty_store_round_trip() {
    let store = Store::new();
    let back = restore(&store.snapshot());
    assert!(back.is_empty());
}

#[test]
fn snapshot_has_the_versioned_shape() {
    let mut store = Store::new();
    store.append(rec("Soup", "Boil."));
    assert_eq!(
        store.snapshot(),
        "{\"V1\":{\"recipes\":[{\"name\":\"Soup\",\"instructions\":\"Boil.\"}]}}"
    );
}

#[test]
fn snapshot_is_well_formed_for_a_standard_reader() {
    let mut store = Store::new();
    store.append(rec("say \"hi\"", "line one\nline two"));
    store.append(rec("back\\slash", "tab\there"));
    let text = store.snapshot();
    let value: serde_json::Value = serde_json::from_str(&text).unwrap();
    let recipes = value.get("V1").unwrap().get("recipes").unwrap();
    assert_eq!(recipes.as_array().unwrap().len(), 2);
    let first = &recipes.as_array().unwrap()[0];
    assert_eq!(first.get("name").unwrap().as_str().unwrap(), "say \"hi\"");
    assert_eq!(first.get("instructions").unwrap().as_str().unwrap(), "line one\nline two");
}

#[test]
fn malformed_snapshots_yield_an_empty_store() {
    let cases = [
        "",
        "garbage",
        "{",
        "{\"V1\":",
        "{\"V1\":{\"recipes\":[",
        "{\"V1\":{\"recipes\":[{\"name\":\"Soup\",\"instr",
        "{\"V2\":{\"recipes\":[]}}",
        "{\"V1\":{\"recipes\":[]}} trailing",
        "[1,2,3]",
        "null",
        "\u{0}\u{1}\u{2}",
    ];
    for text in cases {
        let store = restore(text);
        assert!(store.is_empty(), "expected empty store for {text:?}");
    }
}

#[test]
fn truncated_own_snapshot_yields_an_empty_store() {
    let mut store = Store::new();
    store.append(rec("Soup", "Boil."));
    let text = store.snapshot();
    for cut in 1..text.len() {
        if !text.is_char_boundary(cut) {
            continue;
        }
        let truncated = &text[..cut];
        assert!(restore(truncated).is_empty(), "expected empty store for {truncated:?}");
    }
}
