//! The request layer of the HTTP interface: each request as a value, what
//! it does to the store, and the reply that goes back.
use vstd::prelude::*;
use vstd::string::StringExecFns;
use crate::decimal::{decimal, format_id};
use crate::item::TodoItem;
use crate::persist::{encode_listing, keyed_view, persisted_entries};
use crate::store::{is_listing, lookup, next_id, TodoStore};

verus! {

/// A request to the store, as the HTTP routes carry it.
#[derive(Debug)]
pub enum Request {
    /// `GET /list`
    List,
    /// `GET /view/{id}`
    View { id: u32 },
    /// `POST /insert`
    Insert { item: TodoItem },
    /// `PUT /update/{id}`
    Update { id: u32, item: TodoItem },
    /// `DELETE /delete/{id}`
    Delete { id: u32 },
}

/// What goes back for a request.
#[derive(Debug)]
pub enum Reply {
    /// All entries, keyed by the decimal form of their ids, in ascending
    /// order of id.
    Listing { entries: Vec<(String, TodoItem)> },
    /// The item that was asked for.
    Found { item: TodoItem },
    /// No item stands under the id asked for; `message` says so.
    NotFound { message: String },
    /// The change was made; nothing is returned.
    Done,
}

/// HTTP status of a successful reply.
pub const STATUS_OK: u16 = 200;

/// HTTP status of a reply for an id that holds nothing.
pub const STATUS_NOT_FOUND: u16 = 404;

/// The text of the reply for an id that holds nothing.
pub open spec fn not_found_text(id: u32) -> Seq<char> {
    "Todo item with id "@ + decimal(id as nat) + " not found"@
}

/// Whether the store can take `req`: an insertion needs an id that fits in
/// a `u32`.
pub open spec fn can_take(m: Map<u32, TodoItem>, req: Request) -> bool {
    match req {
        Request::Insert { .. } => m.len() <= u32::MAX,
        _ => true,
    }
}

/// The store's entries after `req`.
pub open spec fn applied(m: Map<u32, TodoItem>, req: Request) -> Map<u32, TodoItem> {
    match req {
        Request::Insert { item } => m.insert(next_id(m), item),
        Request::Update { id, item } => m.insert(id, item),
        Request::Delete { id } => m.remove(id),
        _ => m,
    }
}

/// Whether `reply` is the one owed for `req` on a store holding `m`.
pub open spec fn answers(m: Map<u32, TodoItem>, req: Request, reply: Reply) -> bool {
    match req {
        Request::List => match reply {
            Reply::Listing { entries } => exists|l: Seq<(u32, TodoItem)>|
                is_listing(m, l) && keyed_view(entries@) == encode_listing(l),
            _ => false,
        },
        Request::View { id } => match lookup(m, id) {
            Some(item) => reply == Reply::Found { item },
            None => match reply {
                Reply::NotFound { message } => message@ == not_found_text(id),
                _ => false,
            },
        },
        _ => reply is Done,
    }
}

/// The message for an id that holds nothing.
pub fn not_found_message(id: u32) -> (r: String)
    ensures
        r@ == not_found_text(id),
{
    let mut s = String::new();
    s.append("Todo item with id ");
    let digits = format_id(id);
    s.append(digits.as_str());
    s.append(" not found");
    s
}

/// Whether `req` changes the store, so that its persisted form is to be
/// written again afterwards.
pub fn changes_store(req: &Request) -> (r: bool)
    ensures
        r == (req is Insert || req is Update || req is Delete),
{
    match req {
        Request::Insert { .. } | Request::Update { .. } | Request::Delete { .. } => true,
        _ => false,
    }
}

/// Whether `store` can take `req` now.
pub fn can_take_now(store: &TodoStore, req: &Request) -> (r: bool)
    ensures
        r == can_take(store@, *req),
{
    match req {
        Request::Insert { .. } => store.has_room(),
        _ => true,
    }
}

/// Carries out `req` on `store` and returns the reply.
pub fn handle(store: &mut TodoStore, req: Request) -> (r: Reply)
    requires
        can_take(old(store)@, req),
    ensures
        final(store)@ == applied(old(store)@, req),
        answers(old(store)@, req, r),
{
    match req {
        Request::List => Reply::Listing { entries: persisted_entries(store) },
        Request::View { id } => match store.get(id) {
            Some(item) => Reply::Found { item },
            None => Reply::NotFound { message: not_found_message(id) },
        },
        Request::Insert { item } => {
            store.insert(item);
            Reply::Done
        },
        Request::Update { id, item } => {
            store.update(id, item);
            Reply::Done
        },
        Request::Delete { id } => {
            store.delete(id);
            Reply::Done
        },
    }
}

impl Reply {
    /// The HTTP status of the reply: 404 for an id that holds nothing, 200
    /// otherwise.
    pub fn status(&self) -> (r: u16)
        ensures
            r == (if self is NotFound {
                STATUS_NOT_FOUND
            } else {
                STATUS_OK
            }),
    {
        match self {
            Reply::NotFound { .. } => STATUS_NOT_FOUND,
            _ => STATUS_OK,
        }
    }
}

} // verus!
