use todo_list::decimal::{format_id, parse_id};
use todo_list::item::TodoItem;
use todo_list::persist::{persisted_entries, restore};
use todo_list::store::TodoStore;
use todo_list::timestamp::Timestamp;

fn item(title: &str) -> TodoItem {
    TodoItem {
        title: title.to_string(),
        description: String::new(),
        due_date: Timestamp { secs: 1763683199, nanos: 0 },
        created_at: Timestamp { secs: 1735689600, nanos: 0 },
        completed: true,
    }
}

#[test]
fn format_id_writes_decimal() {
    assert_eq!(format_id(0), "0");
    assert_eq!(format_id(7), "7");
    assert_eq!(format_id(10), "10");
    assert_eq!(format_id(1203), "1203");
    assert_eq!(format_id(u32::MAX), "4294967295");
}

#[test]
fn parse_id_reads_as_std_does() {
    assert_eq!(parse_id("0"), Some(0));
    assert_eq!(parse_id("42"), Some(42));
    assert_eq!(parse_id("+42"), Some(42));
    assert_eq!(parse_id("007"), Some(7));
    assert_eq!(parse_id("4294967295"), Some(u32::MAX));
    assert_eq!(parse_id("4294967296"), None);
    assert_eq!(parse_id("99999999999999999999"), None);
    assert_eq!(parse_id(""), None);
    assert_eq!(parse_id("+"), None);
    assert_eq!(parse_id("-1"), None);
    assert_eq!(parse_id("12a"), None);
    assert_eq!(parse_id(" 1"), None);
    for k in [0u32, 1, 9, 10, 99, 100, 65535, u32::MAX] {
        assert_eq!(parse_id(&format_id(k)), k.to_string().parse::<u32>().ok());
        assert_eq!(format_id(k), k.to_string());
    }
}

#[test]
fn persisted_entries_are_decimal_keyed_and_ascending() {
    let mut store = TodoStore::new();
    store.update(10, item("ten"));
    store.update(2, item("two"));
    let entries = persisted_entries(&store);
    assert_eq!(entries.len(), 2);
    assert_eq!(entries[0].0, "2");
    assert_eq!(entries[0].1, item("two"));
    assert_eq!(entries[1].0, "10");
    assert_eq!(entries[1].1, item("ten"));
}

#[test]
fn persist_and_reload_gives_same_entries() {
    let mut store = TodoStore::new();
    store.insert(item("a"));
    store.insert(item("b"));
    store.insert(item("c"));
    store.delete(1);
    let entries = persisted_entries(&store);
    let reloaded = restore(&entries);
    assert_eq!(reloaded.len(), 2);
    assert_eq!(reloaded.get(0), Some(item("a")));
    assert_eq!(reloaded.get(1), None);
    assert_eq!(reloaded.get(2), Some(item("c")));
    assert_eq!(reloaded.list(), store.list());
}

#[test]
fn restore_drops_keys_that_are_not_ids() {
    let entries = vec![
        ("abc".to_string(), item("bad")),
        ("-3".to_string(), item("negative")),
        ("4294967296".to_string(), item("too large")),
        ("5".to_string(), item("five")),
    ];
    let store = restore(&entries);
    assert_eq!(store.len(), 1);
    assert_eq!(store.get(5), Some(item("five")));
}

#[test]
fn restore_keeps_the_later_of_two_keys_for_one_id() {
    let entries = vec![
        ("01".to_string(), item("first")),
        ("1".to_string(), item("second")),
    ];
    let store = restore(&entries);
    assert_eq!(store.len(), 1);
    assert_eq!(store.get(1), Some(item("second")));
}

#[test]
fn restore_of_nothing_is_empty() {
    let store = restore(&Vec::new());
    assert_eq!(store.len(), 0);
}
