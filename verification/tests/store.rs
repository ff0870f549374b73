use tuish::alias::{AliasStore, StoreError};

fn chars_of(s: &str) -> Vec<char> {
    s.chars().collect()
}

#[test]
fn add_keeps_insertion_order() {
    let mut store = AliasStore::new();
    store.add(chars_of("one"), chars_of("echo 1"), None);
    store.add(chars_of("two"), chars_of("echo 2"), Some('t'));
    assert_eq!(store.len(), 2);
    assert_eq!(store.get(0).name, chars_of("one"));
    assert_eq!(store.get(1).name, chars_of("two"));
    assert_eq!(store.get(1).keybind, Some('t'));
}

#[test]
fn update_command_replaces_only_the_command() {
    let mut store = AliasStore::new();
    store.add(chars_of("one"), chars_of("echo 1"), Some('o'));
    let r = store.update_command(0, chars_of("echo uno"));
    assert_eq!(r, Ok(()));
    assert_eq!(store.get(0).name, chars_of("one"));
    assert_eq!(store.get(0).command, chars_of("echo uno"));
    assert_eq!(store.get(0).keybind, Some('o'));
}

#[test]
fn update_command_rejects_bad_index() {
    let mut store = AliasStore::new();
    store.add(chars_of("one"), chars_of("echo 1"), None);
    let r = store.update_command(1, chars_of("nope"));
    assert_eq!(r, Err(StoreError::IndexOutOfRange));
    assert_eq!(store.get(0).command, chars_of("echo 1"));
}

#[test]
fn remove_preserves_order_of_rest() {
    let mut store = AliasStore::new();
    store.add(chars_of("a"), chars_of("1"), None);
    store.add(chars_of("b"), chars_of("2"), None);
    store.add(chars_of("c"), chars_of("3"), None);
    assert_eq!(store.remove(1), Ok(()));
    assert_eq!(store.len(), 2);
    assert_eq!(store.get(0).name, chars_of("a"));
    assert_eq!(store.get(1).name, chars_of("c"));
}

#[test]
fn remove_rejects_bad_index() {
    let mut store = AliasStore::new();
    assert_eq!(store.remove(0), Err(StoreError::IndexOutOfRange));
}

#[test]
fn find_by_keybind_returns_first_added_on_collision() {
    let mut store = AliasStore::new();
    store.add(chars_of("early"), chars_of("echo early"), Some('g'));
    store.add(chars_of("late"), chars_of("echo late"), Some('g'));
    assert_eq!(store.find_by_keybind('g'), Some(0));
}

#[test]
fn find_by_keybind_misses_cleanly() {
    let mut store = AliasStore::new();
    store.add(chars_of("one"), chars_of("echo 1"), Some('o'));
    store.add(chars_of("two"), chars_of("echo 2"), None);
    assert_eq!(store.find_by_keybind('z'), None);
    assert_eq!(store.find_by_keybind('o'), Some(0));
}

#[test]
fn find_by_keybind_moves_on_after_removal() {
    let mut store = AliasStore::new();
    store.add(chars_of("early"), chars_of("echo early"), Some('g'));
    store.add(chars_of("late"), chars_of("echo late"), Some('g'));
    assert_eq!(store.remove(0), Ok(()));
    assert_eq!(store.find_by_keybind('g'), Some(0));
    assert_eq!(store.get(0).name, chars_of("late"));
}
