use todo_list::item::TodoItem;
use todo_list::store::TodoStore;
use todo_list::timestamp::Timestamp;

fn item(title: &str) -> TodoItem {
    TodoItem {
        title: title.to_string(),
        description: format!("about {}", title),
        due_date: Timestamp { secs: 1893456000, nanos: 0 },
        created_at: Timestamp { secs: 1735689600, nanos: 5 },
        completed: false,
    }
}

#[test]
fn insert_assigns_ids_in_call_order() {
    let mut store = TodoStore::new();
    for (k, title) in ["a", "b", "c", "d"].iter().enumerate() {
        assert_eq!(store.insert(item(title)), k as u32);
    }
    assert_eq!(store.len(), 4);
    assert_eq!(store.get(2), Some(item("c")));
}

#[test]
fn view_after_insert_returns_same_item() {
    let mut store = TodoStore::new();
    store.insert(item("first"));
    let mut wanted = item("second");
    wanted.completed = true;
    wanted.due_date = Timestamp { secs: -86400, nanos: 999_999_999 };
    let id = store.insert(wanted.clone());
    assert_eq!(id, 1);
    let got = store.get(id).unwrap();
    assert_eq!(got.title, "second");
    assert_eq!(got.description, "about second");
    assert_eq!(got.due_date, Timestamp { secs: -86400, nanos: 999_999_999 });
    assert_eq!(got.created_at, Timestamp { secs: 1735689600, nanos: 5 });
    assert!(got.completed);
    assert_eq!(got, wanted);
}

#[test]
fn delete_then_view_is_not_found() {
    let mut store = TodoStore::new();
    store.insert(item("a"));
    store.insert(item("b"));
    store.delete(0);
    assert_eq!(store.get(0), None);
    assert_eq!(store.get(1), Some(item("b")));
    assert_eq!(store.len(), 1);
}

#[test]
fn delete_of_absent_id_changes_nothing() {
    let mut store = TodoStore::new();
    store.insert(item("a"));
    store.delete(7);
    assert_eq!(store.len(), 1);
    assert_eq!(store.get(0), Some(item("a")));
}

#[test]
fn list_is_ascending_regardless_of_insertion_order() {
    let mut store = TodoStore::new();
    store.update(5, item("five"));
    store.update(1, item("one"));
    store.update(3, item("three"));
    store.update(0, item("zero"));
    let listed = store.list();
    let ids: Vec<u32> = listed.iter().map(|e| e.0).collect();
    assert_eq!(ids, vec![0, 1, 3, 5]);
    assert_eq!(listed[2].1, item("three"));
}

#[test]
fn list_of_empty_store_is_empty() {
    let store = TodoStore::new();
    assert!(store.list().is_empty());
    assert_eq!(store.len(), 0);
}

#[test]
fn update_replaces_whole_record() {
    let mut store = TodoStore::new();
    store.insert(item("old"));
    store.update(0, item("new"));
    assert_eq!(store.get(0), Some(item("new")));
    assert_eq!(store.len(), 1);
}

#[test]
fn update_of_absent_id_inserts() {
    let mut store = TodoStore::new();
    store.update(42, item("x"));
    assert_eq!(store.get(42), Some(item("x")));
    assert_eq!(store.len(), 1);
}

#[test]
fn insert_after_delete_reuses_the_count_as_id() {
    let mut store = TodoStore::new();
    store.insert(item("a"));
    store.insert(item("b"));
    store.insert(item("c"));
    store.delete(0);
    let id = store.insert(item("d"));
    assert_eq!(id, 2);
    assert_eq!(store.get(2), Some(item("d")));
    assert_eq!(store.len(), 2);
}

#[test]
fn has_room_on_small_store() {
    let mut store = TodoStore::new();
    assert!(store.has_room());
    store.insert(item("a"));
    assert!(store.has_room());
}

#[test]
fn duplicate_and_with_completed() {
    let a = item("a");
    let b = a.duplicate();
    assert_eq!(a, b);
    let c = b.with_completed(true);
    assert!(c.completed);
    assert_eq!(c.title, "a");
    assert_eq!(c.with_completed(false), a);
}

#[test]
fn listing_depends_only_on_contents() {
    let mut first = TodoStore::new();
    first.update(2, item("two"));
    first.update(9, item("nine"));
    first.update(4, item("four"));
    let mut second = TodoStore::new();
    second.update(4, item("four"));
    second.update(2, item("two"));
    second.update(9, item("nine"));
    assert_eq!(first.list(), second.list());
}
