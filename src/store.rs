//! The todo store: items under `u32` ids in an ordered map.
use vstd::prelude::*;
use std::collections::BTreeMap;
use crate::item::TodoItem;
use vstd::std_specs::iter::IteratorSpec;
use vstd::std_specs::cmp::OrdSpec;

verus! {

broadcast use vstd::std_specs::btree::group_btree_axioms, vstd::laws_cmp::group_laws_cmp;

/// Whether `s` lists the entries of `m`: each entry once, in ascending
/// order of id.
pub open spec fn is_listing(m: Map<u32, TodoItem>, s: Seq<(u32, TodoItem)>) -> bool {
    &&& s.len() == m.dom().len()
    &&& forall|i: int|
        0 <= i < s.len() ==> m.contains_key(#[trigger] s[i].0) && m[s[i].0] == s[i].1
    &&& forall|i: int, j: int| 0 <= i < j < s.len() ==> #[trigger] s[i].0 < #[trigger] s[j].0
    &&& forall|k: u32| #[trigger] m.contains_key(k) ==> exists|i: int| 0 <= i < s.len() && s[i].0 == k
}

/// What looking up `id` in `m` gives: the item stored there, if any.
pub open spec fn lookup(m: Map<u32, TodoItem>, id: u32) -> Option<TodoItem> {
    if m.contains_key(id) {
        Some(m[id])
    } else {
        None
    }
}

/// Whether the ids of a sequence of borrowed entries strictly increase.
pub open spec fn increasing_seq_keys(s: Seq<(&u32, &TodoItem)>) -> bool {
    forall|i: int, j: int| 0 <= i < j < s.len() ==> *s[i].0 < *s[j].0
}

/// The id that the next insertion into a store holding `m` receives: the
/// number of entries.
pub open spec fn next_id(m: Map<u32, TodoItem>) -> u32 {
    m.len() as u32
}

/// The map after inserting `items` one after another, starting from `m`,
/// each under the id that `insert` gives it.
pub open spec fn after_inserts(m: Map<u32, TodoItem>, items: Seq<TodoItem>) -> Map<u32, TodoItem>
    decreases items.len(),
{
    if items.len() == 0 {
        m
    } else {
        let before = after_inserts(m, items.drop_last());
        before.insert(next_id(before), items.last())
    }
}

proof fn lemma_after_inserts_from_empty(items: Seq<TodoItem>)
    requires
        items.len() <= u32::MAX + 1,
    ensures
        after_inserts(Map::empty(), items) == Map::new(
            |id: u32| id < items.len(),
            |id: u32| items[id as int],
        ),
        after_inserts(Map::empty(), items).dom().finite(),
        after_inserts(Map::empty(), items).len() == items.len(),
    decreases items.len(),
{
    let m = after_inserts(Map::empty(), items);
    if items.len() == 0 {
        assert(m =~= Map::new(|id: u32| id < items.len(), |id: u32| items[id as int]));
    } else {
        let prev = items.drop_last();
        lemma_after_inserts_from_empty(prev);
        let before = after_inserts(Map::empty(), prev);
        assert(next_id(before) == items.len() - 1);
        assert(!before.contains_key(next_id(before)));
        assert(m =~= Map::new(|id: u32| id < items.len(), |id: u32| items[id as int]));
    }
}

/// Inserting items one after another into an empty store, with no
/// deletion in between, gives the `k`-th insertion the id `k`; afterwards
/// each id `k` holds the `k`-th item and no other id holds anything.
pub proof fn lemma_sequential_ids(items: Seq<TodoItem>)
    requires
        items.len() <= u32::MAX + 1,
    ensures
        forall|k: int|
            0 <= k < items.len() ==> next_id(#[trigger] after_inserts(Map::empty(), items.take(k)))
                == k,
        after_inserts(Map::empty(), items) == Map::new(
            |id: u32| id < items.len(),
            |id: u32| items[id as int],
        ),
{
    lemma_after_inserts_from_empty(items);
    assert forall|k: int| 0 <= k < items.len() implies next_id(
        #[trigger] after_inserts(Map::empty(), items.take(k)),
    ) == k by {
        lemma_after_inserts_from_empty(items.take(k));
    }
}

/// Looking up the id that an insertion returned gives back the inserted
/// item, equal in every field.
pub proof fn lemma_get_after_insert(m: Map<u32, TodoItem>, item: TodoItem)
    requires
        m.len() <= u32::MAX,
    ensures
        lookup(m.insert(next_id(m), item), next_id(m)) == Some(item),
{
}

/// After deleting `id`, looking it up finds nothing.
pub proof fn lemma_get_after_delete(m: Map<u32, TodoItem>, id: u32)
    ensures
        lookup(m.remove(id), id) is None,
{
}

/// Setting aside the last entry of a listing of `m` leaves a listing of
/// `m` without that entry's id.
pub proof fn lemma_listing_drop_last(m: Map<u32, TodoItem>, l: Seq<(u32, TodoItem)>)
    requires
        m.dom().finite(),
        is_listing(m, l),
        l.len() > 0,
    ensures
        m.contains_key(l.last().0),
        m[l.last().0] == l.last().1,
        is_listing(m.remove(l.last().0), l.drop_last()),
{
    let last = l.last();
    let rest = l.drop_last();
    let m2 = m.remove(last.0);
    assert(m.contains_key(last.0));
    assert forall|k: u32| #[trigger] m2.contains_key(k) implies exists|i: int|
        0 <= i < rest.len() && rest[i].0 == k by {
        let i = choose|i: int| 0 <= i < l.len() && l[i].0 == k;
        assert(i != l.len() - 1);
        assert(rest[i].0 == k);
    }
    assert forall|i: int| 0 <= i < rest.len() implies m2.contains_key(#[trigger] rest[i].0)
        && m2[rest[i].0] == rest[i].1 by {
        assert(l[i] == rest[i]);
        assert(l[i].0 < l[l.len() - 1].0);
    }
    assert forall|i: int, j: int| 0 <= i < j < rest.len() implies #[trigger] rest[i].0
        < #[trigger] rest[j].0 by {
        assert(l[i] == rest[i] && l[j] == rest[j]);
    }
}

/// A store's listing depends on its entries alone, not on the order in
/// which they were stored: two listings of the same entries are equal.
pub proof fn lemma_listing_unique(m: Map<u32, TodoItem>, a: Seq<(u32, TodoItem)>, b: Seq<(u32, TodoItem)>)
    requires
        m.dom().finite(),
        is_listing(m, a),
        is_listing(m, b),
    ensures
        a == b,
    decreases a.len(),
{
    if a.len() == 0 {
        assert(a =~= b);
    } else {
        let ka = a.last().0;
        let kb = b.last().0;
        assert(m.contains_key(ka));
        assert(m.contains_key(kb));
        let i = choose|i: int| 0 <= i < a.len() && a[i].0 == kb;
        let j = choose|j: int| 0 <= j < b.len() && b[j].0 == ka;
        assert(i == a.len() - 1 || a[i].0 < ka);
        assert(j == b.len() - 1 || b[j].0 < kb);
        assert(ka == kb);
        lemma_listing_drop_last(m, a);
        lemma_listing_drop_last(m, b);
        lemma_listing_unique(m.remove(ka), a.drop_last(), b.drop_last());
        assert(a =~= b.drop_last().push(b.last()));
        assert(b =~= b.drop_last().push(b.last()));
    }
}

/// Items keyed by id. Reads and writes go through `&self` and `&mut self`,
/// so a caller that shares the store serialises access with one lock.
pub struct TodoStore {
    entries: BTreeMap<u32, TodoItem>,
}

impl View for TodoStore {
    type V = Map<u32, TodoItem>;

    closed spec fn view(&self) -> Map<u32, TodoItem> {
        self.entries@
    }
}

impl TodoStore {
    /// An empty store.
    pub fn new() -> (r: TodoStore)
        ensures
            r@ == Map::<u32, TodoItem>::empty(),
    {
        TodoStore { entries: BTreeMap::new() }
    }

    /// The store's entries form a finite map.
    pub proof fn lemma_finite(&self)
        ensures
            self@.dom().finite(),
    {
    }

    /// Number of entries.
    pub fn len(&self) -> (r: usize)
        ensures
            r == self@.len(),
    {
        self.entries.len()
    }

    /// Whether one more insertion can get an id: the number of entries
    /// fits in a `u32`.
    pub fn has_room(&self) -> (r: bool)
        ensures
            r == (self@.len() <= u32::MAX),
    {
        (self.entries.len() as u64) <= (u32::MAX as u64)
    }

    /// The item under `id`, if there is one.
    pub fn get(&self, id: u32) -> (r: Option<TodoItem>)
        ensures
            r == lookup(self@, id),
    {
        match self.entries.get(&id) {
            Some(item) => Some(item.duplicate()),
            None => None,
        }
    }

    /// Stores `item` under an id equal to the number of entries before the
    /// call, replacing what may already stand under that id, and returns
    /// the id.
    pub fn insert(&mut self, item: TodoItem) -> (r: u32)
        requires
            old(self)@.len() <= u32::MAX,
        ensures
            r == old(self)@.len(),
            r == next_id(old(self)@),
            final(self)@ == old(self)@.insert(r, item),
    {
        let id = self.entries.len() as u32;
        self.entries.insert(id, item);
        id
    }

    /// Replaces the whole record under `id` with `item`; where `id` holds
    /// nothing, the item is stored under it.
    pub fn update(&mut self, id: u32, item: TodoItem)
        ensures
            final(self)@ == old(self)@.insert(id, item),
    {
        self.entries.insert(id, item);
    }

    /// Removes what stands under `id`, if anything.
    pub fn delete(&mut self, id: u32)
        ensures
            final(self)@ == old(self)@.remove(id),
    {
        self.entries.remove(&id);
    }

    /// All entries, in ascending order of id.
    pub fn list(&self) -> (r: Vec<(u32, TodoItem)>)
        ensures
            is_listing(self@, r@),
    {
        let mut r: Vec<(u32, TodoItem)> = Vec::new();
        let iter = self.entries.iter();
        let ghost s = iter.remaining();
        assert(vstd::std_specs::btree::key_obeys_cmp_spec::<u32>());
        let ghost keys = s.map_values(|kv: (&u32, &TodoItem)| *kv.0);
        assert(vstd::std_specs::btree::increasing_seq(keys));
        assert(vstd::laws_cmp::obeys_cmp::<u32>());
        assert forall|i: int, j: int| 0 <= i < j < s.len() implies *s[i].0 < *s[j].0 by {
            assert(keys[i].cmp_spec(&keys[j]) is Less);
            assert(keys[i] == *s[i].0 && keys[j] == *s[j].0);
        }
        for kv in it: iter
            invariant
                it.seq() == s,
                increasing_seq_keys(s),
                s.len() == self@.dom().len(),
                forall|i: int|
                    #![trigger self@.contains_key(*s[i].0)]
                    0 <= i < s.len() ==> self@.contains_key(*s[i].0) && self@[*s[i].0] == *s[i].1,
                forall|k: u32| #[trigger] self@.contains_key(k) ==> s.contains((&k, &self@[k])),
                r.len() == it.index(),
                forall|j: int|
                    0 <= j < r.len() ==> r@[j].0 == *s[j].0 && r@[j].1 == *s[j].1,
        {
            let (k, v) = kv;
            r.push((*k, v.duplicate()));
        }
        assert(r@.len() == s.len());
        assert forall|i: int| 0 <= i < r@.len() implies self@.contains_key(#[trigger] r@[i].0)
            && self@[r@[i].0] == r@[i].1 by {
            assert(r@[i].0 == *s[i].0);
        }
        assert forall|i: int, j: int| 0 <= i < j < r@.len() implies #[trigger] r@[i].0
            < #[trigger] r@[j].0 by {
            assert(r@[i].0 == *s[i].0 && r@[j].0 == *s[j].0);
        }
        assert forall|k: u32| #[trigger] self@.contains_key(k) implies exists|i: int|
            0 <= i < r@.len() && r@[i].0 == k by {
            let i = choose|i: int| 0 <= i < s.len() && s[i] == (&k, &self@[k]);
            assert(r@[i].0 == k);
        }
        r
    }
}

} // verus!
