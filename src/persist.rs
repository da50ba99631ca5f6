//! The persisted form of a store: its entries with each id written as a
//! decimal key, as the JSON file's object keys are; and the store read back
//! from such keyed entries.
use vstd::prelude::*;
use crate::decimal::{decimal, format_id, lemma_parse_decimal, parse_id, parsed_id};
use crate::item::TodoItem;
use crate::store::{is_listing, lemma_listing_drop_last, TodoStore};

verus! {

/// A listing with each id replaced by its decimal form.
pub open spec fn encode_listing(l: Seq<(u32, TodoItem)>) -> Seq<(Seq<char>, TodoItem)> {
    l.map_values(|e: (u32, TodoItem)| (decimal(e.0 as nat), e.1))
}

/// The keys of keyed entries as character sequences.
pub open spec fn keyed_view(s: Seq<(String, TodoItem)>) -> Seq<(Seq<char>, TodoItem)> {
    s.map_values(|e: (String, TodoItem)| (e.0@, e.1))
}

/// The map that keyed entries give when read in order: an entry whose key
/// reads as an id is stored under it, a later entry replacing an earlier
/// one with the same id; an entry whose key does not read as an id is
/// dropped.
pub open spec fn restored(s: Seq<(Seq<char>, TodoItem)>) -> Map<u32, TodoItem>
    decreases s.len(),
{
    if s.len() == 0 {
        Map::empty()
    } else {
        let before = restored(s.drop_last());
        match parsed_id(s.last().0) {
            Some(id) => before.insert(id, s.last().1),
            None => before,
        }
    }
}

/// The entries of `store` in ascending order of id, each keyed by the
/// decimal form of its id.
pub fn persisted_entries(store: &TodoStore) -> (r: Vec<(String, TodoItem)>)
    ensures
        exists|l: Seq<(u32, TodoItem)>|
            is_listing(store@, l) && keyed_view(r@) == encode_listing(l),
{
    let listing = store.list();
    let mut r: Vec<(String, TodoItem)> = Vec::new();
    let mut i: usize = 0;
    while i < listing.len()
        invariant
            i <= listing.len(),
            r.len() == i,
            forall|j: int|
                0 <= j < i ==> (#[trigger] r@[j]).0@ == decimal(listing@[j].0 as nat) && r@[j].1
                    == listing@[j].1,
        decreases listing.len() - i,
    {
        let id = listing[i].0;
        let item = listing[i].1.duplicate();
        r.push((format_id(id), item));
        i = i + 1;
    }
    assert(keyed_view(r@) =~= encode_listing(listing@));
    r
}

/// The store that keyed entries describe, read in order as `restored`
/// says.
pub fn restore(entries: &Vec<(String, TodoItem)>) -> (r: TodoStore)
    ensures
        r@ == restored(keyed_view(entries@)),
{
    let mut store = TodoStore::new();
    let mut i: usize = 0;
    while i < entries.len()
        invariant
            i <= entries.len(),
            store@ == restored(keyed_view(entries@).take(i as int)),
        decreases entries.len() - i,
    {
        let ghost s = keyed_view(entries@);
        assert(s.take(i + 1).drop_last() =~= s.take(i as int));
        match parse_id(entries[i].0.as_str()) {
            Some(id) => {
                store.update(id, entries[i].1.duplicate());
            },
            None => {},
        }
        i = i + 1;
    }
    assert(keyed_view(entries@).take(entries.len() as int) =~= keyed_view(entries@));
    store
}

/// Writing a store's entries in persisted form and reading them back gives
/// the same entries: the same ids holding the same items, and no others.
pub proof fn lemma_persist_round_trip(m: Map<u32, TodoItem>, s: Seq<(Seq<char>, TodoItem)>)
    requires
        m.dom().finite(),
        exists|l: Seq<(u32, TodoItem)>| is_listing(m, l) && s == encode_listing(l),
    ensures
        restored(s) == m,
{
    let l = choose|l: Seq<(u32, TodoItem)>| is_listing(m, l) && s == encode_listing(l);
    lemma_restore_persisted(m, l);
}

/// Reading back the decimal-keyed form of a listing of `m` gives `m`.
proof fn lemma_restore_persisted(m: Map<u32, TodoItem>, l: Seq<(u32, TodoItem)>)
    requires
        m.dom().finite(),
        is_listing(m, l),
    ensures
        restored(encode_listing(l)) == m,
    decreases l.len(),
{
    if l.len() == 0 {
        m.dom().lemma_len0_is_empty();
        assert(m =~= Map::empty());
    } else {
        let last = l.last();
        let rest = l.drop_last();
        let m2 = m.remove(last.0);
        assert(encode_listing(l).drop_last() =~= encode_listing(rest));
        lemma_parse_decimal(last.0);
        lemma_listing_drop_last(m, l);
        lemma_restore_persisted(m2, rest);
        assert(restored(encode_listing(l)) =~= m);
    }
}

} // verus!
