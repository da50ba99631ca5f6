use todo_list::api::{changes_store, can_take_now, handle, not_found_message, Reply, Request};
use todo_list::item::TodoItem;
use todo_list::store::TodoStore;
use todo_list::timestamp::Timestamp;

fn wire_item() -> TodoItem {
    TodoItem {
        title: "A".to_string(),
        description: "B".to_string(),
        due_date: Timestamp::parse("2030-01-01T00:00:00Z").unwrap(),
        created_at: Timestamp::parse("2025-01-01T00:00:00Z").unwrap(),
        completed: false,
    }
}

#[test]
fn insert_then_view_over_requests() {
    let mut store = TodoStore::new();
    let req = Request::Insert { item: wire_item() };
    assert!(can_take_now(&store, &req));
    let reply = handle(&mut store, req);
    assert!(matches!(reply, Reply::Done));
    assert_eq!(reply.status(), 200);

    let reply = handle(&mut store, Request::View { id: 0 });
    assert_eq!(reply.status(), 200);
    match reply {
        Reply::Found { item } => assert_eq!(item, wire_item()),
        other => panic!("unexpected reply {:?}", other),
    }

    let reply = handle(&mut store, Request::View { id: 99 });
    assert_eq!(reply.status(), 404);
    match reply {
        Reply::NotFound { message } => assert_eq!(message, "Todo item with id 99 not found"),
        other => panic!("unexpected reply {:?}", other),
    }
}

#[test]
fn list_update_delete_over_requests() {
    let mut store = TodoStore::new();
    handle(&mut store, Request::Insert { item: wire_item() });
    let mut other = wire_item();
    other.title = "C".to_string();
    let reply = handle(&mut store, Request::Update { id: 3, item: other.clone() });
    assert!(matches!(reply, Reply::Done));
    let reply = handle(&mut store, Request::Delete { id: 0 });
    assert!(matches!(reply, Reply::Done));
    let reply = handle(&mut store, Request::Delete { id: 0 });
    assert_eq!(reply.status(), 200);
    match handle(&mut store, Request::List) {
        Reply::Listing { entries } => {
            assert_eq!(entries.len(), 1);
            assert_eq!(entries[0].0, "3");
            assert_eq!(entries[0].1, other);
        }
        other => panic!("unexpected reply {:?}", other),
    }
}

#[test]
fn only_changing_requests_are_persisted() {
    assert!(!changes_store(&Request::List));
    assert!(!changes_store(&Request::View { id: 1 }));
    assert!(changes_store(&Request::Insert { item: wire_item() }));
    assert!(changes_store(&Request::Update { id: 1, item: wire_item() }));
    assert!(changes_store(&Request::Delete { id: 1 }));
}

#[test]
fn not_found_message_names_the_id() {
    assert_eq!(not_found_message(0), "Todo item with id 0 not found");
    assert_eq!(not_found_message(4294967295), "Todo item with id 4294967295 not found");
}
