use recipe_decider::recipe::Recipe;
use recipe_decider::store::{Store, StoreError};

fn rec(name: &str, instructions: &str) -> Recipe {
    Recipe::new(name.to_string(), instructions.to_string())
}

fn names(store: &Store) -> Vec<String> {
    store.list().into_iter().map(|r| r.name).collect()
}

#[test]
fn adds_keep_submission_order() {
    let mut store = Store::new();
    store.append(rec("pasta", "boil"));
    store.append(rec("salad", "chop"));
    store.append(rec("stew", "simmer"));
    assert_eq!(store.len(), 3);
    assert_eq!(names(&store), vec!["pasta", "salad", "stew"]);
    let listed = store.list();
    assert_eq!(listed[1].instructions, "chop");
}

#[test]
fn list_on_empty_store_is_empty() {
    let store = Store::new();
    assert!(store.is_empty());
    assert_eq!(store.list().len(), 0);
}

#[test]
fn remove_valid_index_shifts_down() {
    let mut store = Store::new();
    store.append(rec("a", "1"));
    store.append(rec("b", "2"));
    store.append(rec("c", "3"));
    let removed = store.remove_at(1).unwrap();
    assert_eq!(removed.name, "b");
    assert_eq!(store.len(), 2);
    assert_eq!(names(&store), vec!["a", "c"]);
}

#[test]
fn remove_invalid_index_is_refused_and_keeps_collection() {
    let mut store = Store::new();
    store.append(rec("a", "1"));
    store.append(rec("b", "2"));
    let r = store.remove_at(2);
    assert_eq!(r.unwrap_err(), StoreError::IndexOutOfRange);
    assert_eq!(store.len(), 2);
    assert_eq!(names(&store), vec!["a", "b"]);
}

#[test]
fn pick_random_on_empty_store_is_refused() {
    let mut store = Store::new();
    let r = store.pick_random();
    assert_eq!(r.unwrap_err(), StoreError::EmptyCollection);
}

#[test]
fn pick_random_returns_a_held_record() {
    let mut store = Store::new();
    store.append(rec("a", "1"));
    store.append(rec("b", "2"));
    for _ in 0..50 {
        let picked = store.pick_random().unwrap();
        assert!(picked.name == "a" || picked.name == "b");
    }
    assert_eq!(store.len(), 2);
}

#[test]
fn pick_random_is_roughly_uniform() {
    let mut store = Store::new();
    for i in 0..10 {
        store.append(rec(&i.to_string(), "cook"));
    }
    let draws = 10_000;
    let mut counts = [0u32; 10];
    for _ in 0..draws {
        let picked = store.pick_random().unwrap();
        let i: usize = picked.name.parse().unwrap();
        counts[i] += 1;
    }
    // Expected 1000 per record; a chi-square statistic over ten cells stays
    // far below this bound unless the draw is badly skewed.
    let expected = 1000.0_f64;
    let chi2: f64 = counts
        .iter()
        .map(|&c| {
            let d = c as f64 - expected;
            d * d / expected
        })
        .sum();
    assert!(chi2 < 100.0, "chi-square statistic too large: {chi2}, counts {counts:?}");
    let total: u32 = counts.iter().sum();
    assert_eq!(total, draws);
}
