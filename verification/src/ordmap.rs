//! A map from names to values that remembers insertion order.
//!
//! Inserting a name that is present replaces its value and keeps its
//! position; inserting a new name appends it.
use vstd::prelude::*;

verus! {

/// A map from names to values in insertion order.
#[derive(Debug)]
pub struct OrderedMap<V> {
    pub entries: Vec<(String, V)>,
}

/// The position of `k` among the entries, or -1.
pub open spec fn key_index_from<V>(e: Seq<(Seq<char>, V)>, k: Seq<char>, i: int) -> int
    decreases e.len() - i,
{
    if 0 <= i < e.len() {
        if e[i].0 == k {
            i
        } else {
            key_index_from(e, k, i + 1)
        }
    } else {
        -1
    }
}

/// The position of `k` among the entries, or -1.
pub open spec fn key_index<V>(e: Seq<(Seq<char>, V)>, k: Seq<char>) -> int {
    key_index_from(e, k, 0)
}

/// The value of `k`, if present.
pub open spec fn map_get<V>(e: Seq<(Seq<char>, V)>, k: Seq<char>) -> Option<V> {
    if key_index(e, k) >= 0 {
        Some(e[key_index(e, k)].1)
    } else {
        None
    }
}

/// The entries after inserting `k` with value `v`.
pub open spec fn map_insert<V>(e: Seq<(Seq<char>, V)>, k: Seq<char>, v: V) -> Seq<(Seq<char>, V)> {
    if key_index(e, k) >= 0 {
        e.update(key_index(e, k), (k, v))
    } else {
        e.push((k, v))
    }
}

/// The entries without the one named `k` (the later ones move up).
pub open spec fn map_remove<V>(e: Seq<(Seq<char>, V)>, k: Seq<char>) -> Seq<(Seq<char>, V)> {
    if key_index(e, k) >= 0 {
        e.remove(key_index(e, k))
    } else {
        e
    }
}

pub proof fn lemma_key_index_from<V>(e: Seq<(Seq<char>, V)>, k: Seq<char>, i: int)
    requires
        0 <= i,
    ensures
        -1 <= key_index_from(e, k, i) < e.len(),
        key_index_from(e, k, i) >= 0 ==> e[key_index_from(e, k, i)].0 == k && i <= key_index_from(e, k, i),
        key_index_from(e, k, i) == -1 ==> forall|j: int| i <= j < e.len() ==> e[j].0 != k,
        key_index_from(e, k, i) >= 0 ==> forall|j: int| i <= j < key_index_from(e, k, i) ==> e[j].0 != k,
    decreases e.len() - i,
{
    if 0 <= i < e.len() && e[i].0 != k {
        lemma_key_index_from(e, k, i + 1);
    }
}

/// Two entry lists that agree, position by position, on which entries
/// have the name `k` find `k` at the same position.
pub proof fn lemma_key_index_same<V, W>(e1: Seq<(Seq<char>, V)>, e2: Seq<(Seq<char>, W)>, k: Seq<char>, i: int)
    requires
        0 <= i,
        e1.len() == e2.len(),
        forall|j: int| 0 <= j < e1.len() ==> ((#[trigger] e1[j]).0 == k) == (e2[j].0 == k),
    ensures
        key_index_from(e1, k, i) == key_index_from(e2, k, i),
    decreases e1.len() - i,
{
    if 0 <= i < e1.len() {
        lemma_key_index_same(e1, e2, k, i + 1);
    }
}

/// Appending an entry keeps the positions of the names already present.
pub proof fn lemma_key_index_push<V>(e: Seq<(Seq<char>, V)>, x: (Seq<char>, V), k: Seq<char>, i: int)
    requires
        0 <= i <= e.len(),
    ensures
        key_index_from(e.push(x), k, i) == if key_index_from(e, k, i) >= 0 {
            key_index_from(e, k, i)
        } else if x.0 == k {
            e.len() as int
        } else {
            -1
        },
    decreases e.len() - i,
{
    if i < e.len() {
        lemma_key_index_push(e, x, k, i + 1);
    } else {
        assert(key_index_from(e.push(x), k, i + 1) == -1);
        assert(e.push(x)[i] == x);
    }
}

/// What inserting does to lookups: the inserted name now has the inserted
/// value, and every other name keeps its value and its presence.
pub proof fn lemma_insert_get<V>(e: Seq<(Seq<char>, V)>, k: Seq<char>, v: V)
    ensures
        map_get(map_insert(e, k, v), k) == Some(v),
        key_index(map_insert(e, k, v), k) >= 0,
        key_index(map_insert(e, k, v), k) == if key_index(e, k) >= 0 { key_index(e, k) } else { e.len() as int },
        forall|k2: Seq<char>| k2 != k ==> #[trigger] map_get(map_insert(e, k, v), k2) == map_get(e, k2),
        forall|k2: Seq<char>| k2 != k ==> #[trigger] key_index(map_insert(e, k, v), k2) == key_index(e, k2),
        map_insert(e, k, v).len() == if key_index(e, k) >= 0 { e.len() } else { e.len() + 1 },
{
    let e2 = map_insert(e, k, v);
    lemma_key_index_from(e, k, 0);
    if key_index(e, k) >= 0 {
        let j = key_index(e, k);
        assert forall|k2: Seq<char>| true implies #[trigger] key_index(e2, k2) == if k2 == k { j } else { key_index(e, k2) } by {
            if k2 == k {
                lemma_key_index_same(e, e2, k2, 0);
            } else {
                lemma_key_index_same(e, e2, k2, 0);
            }
        }
    } else {
        assert forall|k2: Seq<char>| true implies #[trigger] key_index(e2, k2) == if k2 == k { e.len() as int } else { key_index(e, k2) } by {
            lemma_key_index_push(e, (k, v), k2, 0);
            lemma_key_index_from(e, k2, 0);
        }
    }
    assert forall|k2: Seq<char>| k2 != k implies #[trigger] map_get(e2, k2) == map_get(e, k2) by {
        lemma_key_index_from(e, k2, 0);
        lemma_key_index_from(e2, k2, 0);
        assert(key_index(e2, k2) == key_index(e, k2));
    }
}

/// Inserting a name twice leaves the second value, where the first one was.
pub proof fn lemma_insert_twice<V>(e: Seq<(Seq<char>, V)>, k: Seq<char>, v1: V, v2: V)
    ensures
        map_insert(map_insert(e, k, v1), k, v2) == map_insert(e, k, v2),
{
    lemma_insert_get(e, k, v1);
    lemma_key_index_from(e, k, 0);
    if key_index(e, k) >= 0 {
        assert(map_insert(map_insert(e, k, v1), k, v2) =~= map_insert(e, k, v2));
    } else {
        assert(map_insert(map_insert(e, k, v1), k, v2) =~= map_insert(e, k, v2));
    }
}

/// Each entry after an insertion is the inserted one or the entry that was
/// at the same position before.
pub proof fn lemma_insert_entries<V>(e: Seq<(Seq<char>, V)>, k: Seq<char>, v: V, i: int)
    requires
        0 <= i < map_insert(e, k, v).len(),
    ensures
        map_insert(e, k, v)[i] == (k, v) || (i < e.len() && map_insert(e, k, v)[i] == e[i]),
{
    lemma_key_index_from(e, k, 0);
}

/// A name present before an insertion is present after it.
pub proof fn lemma_insert_keeps_keys<V>(e: Seq<(Seq<char>, V)>, k: Seq<char>, v: V, k2: Seq<char>)
    ensures
        (key_index(e, k2) >= 0 || k2 == k) ==> key_index(map_insert(e, k, v), k2) >= 0,
{
    lemma_insert_get(e, k, v);
}

/// The view of a list of named entries.
pub open spec fn entries_view<V: DeepView>(e: Seq<(String, V)>) -> Seq<(Seq<char>, V::V)> {
    e.map_values(|p: (String, V)| (p.0@, p.1.deep_view()))
}

/// The position of `k` among the entries.
pub fn entries_index_of<V: DeepView>(entries: &Vec<(String, V)>, k: &String) -> (r: Option<usize>)
    ensures
        match r {
            Some(i) => i as int == key_index(entries_view(entries@), k@) && i < entries@.len(),
            None => key_index(entries_view(entries@), k@) == -1,
        },
{
    let ghost ev = entries_view(entries@);
    let mut i: usize = 0;
    while i < entries.len()
        invariant
            i <= entries@.len(),
            ev == entries_view(entries@),
            key_index_from(ev, k@, i as int) == key_index(ev, k@),
        decreases entries@.len() - i,
    {
        if entries[i].0 == *k {
            return Some(i);
        }
        i = i + 1;
    }
    None
}

/// Inserts `k` with value `v` into the entries.
pub fn entries_insert<V: DeepView>(entries: &mut Vec<(String, V)>, k: String, v: V)
    ensures
        entries_view(final(entries)@) == map_insert(entries_view(old(entries)@), k@, v.deep_view()),
{
    let ghost old_view = entries_view(entries@);
    let ghost kv = (k@, v.deep_view());
    match entries_index_of(entries, &k) {
        Some(i) => {
            entries.set(i, (k, v));
            assert(entries_view(entries@) =~= old_view.update(i as int, kv));
        },
        None => {
            entries.push((k, v));
            assert(entries_view(entries@) =~= old_view.push(kv));
        },
    }
}

/// Removes the entry named `k` from the entries, keeping the order of the
/// others, and returns its value.
pub fn entries_remove<V: DeepView>(entries: &mut Vec<(String, V)>, k: &String) -> (r: Option<V>)
    ensures
        entries_view(final(entries)@) == map_remove(entries_view(old(entries)@), k@),
        match r {
            Some(v) => map_get(entries_view(old(entries)@), k@) == Some(v.deep_view()),
            None => map_get(entries_view(old(entries)@), k@) is None,
        },
{
    let ghost old_view = entries_view(entries@);
    match entries_index_of(entries, k) {
        Some(i) => {
            let (_, v) = entries.remove(i);
            proof {
                lemma_key_index_from(old_view, k@, 0);
            }
            assert(entries_view(entries@) =~= old_view.remove(i as int));
            Some(v)
        },
        None => None,
    }
}

impl<V: DeepView> DeepView for OrderedMap<V> {
    type V = Seq<(Seq<char>, V::V)>;

    open spec fn deep_view(&self) -> Seq<(Seq<char>, V::V)> {
        entries_view(self.entries@)
    }
}

impl<V: DeepView> OrderedMap<V> {
    /// An empty map.
    pub fn new() -> (r: Self)
        ensures
            r.deep_view() == Seq::<(Seq<char>, V::V)>::empty(),
    {
        let r = OrderedMap { entries: Vec::new() };
        assert(r.deep_view() =~= Seq::<(Seq<char>, V::V)>::empty());
        r
    }

    /// The number of entries.
    pub fn len(&self) -> (r: usize)
        ensures
            r == self.deep_view().len(),
    {
        self.entries.len()
    }

    /// Whether the map has no entries.
    pub fn is_empty(&self) -> (r: bool)
        ensures
            r == (self.deep_view().len() == 0),
    {
        self.entries.len() == 0
    }

    /// The position of `k`.
    pub fn index_of(&self, k: &String) -> (r: Option<usize>)
        ensures
            match r {
                Some(i) => i as int == key_index(self.deep_view(), k@) && i < self.entries@.len(),
                None => key_index(self.deep_view(), k@) == -1,
            },
    {
        entries_index_of(&self.entries, k)
    }

    /// The value of `k`, if present.
    pub fn get(&self, k: &String) -> (r: Option<&V>)
        ensures
            match r {
                Some(v) => map_get(self.deep_view(), k@) == Some(v.deep_view()),
                None => map_get(self.deep_view(), k@) is None,
            },
    {
        match self.index_of(k) {
            Some(i) => Some(&self.entries[i].1),
            None => None,
        }
    }

    /// Whether `k` is present.
    pub fn contains_key(&self, k: &String) -> (r: bool)
        ensures
            r == (key_index(self.deep_view(), k@) >= 0),
    {
        self.index_of(k).is_some()
    }

    /// Inserts `k` with value `v`: a present name keeps its position and
    /// gets the new value; a new one is added at the end.
    pub fn insert(&mut self, k: String, v: V)
        ensures
            final(self).deep_view() == map_insert(old(self).deep_view(), k@, v.deep_view()),
    {
        entries_insert(&mut self.entries, k, v);
    }

    /// Removes the entry named `k`, keeping the order of the others, and
    /// returns its value.
    pub fn remove(&mut self, k: &String) -> (r: Option<V>)
        ensures
            final(self).deep_view() == map_remove(old(self).deep_view(), k@),
            match r {
                Some(v) => map_get(old(self).deep_view(), k@) == Some(v.deep_view()),
                None => map_get(old(self).deep_view(), k@) is None,
            },
    {
        entries_remove(&mut self.entries, k)
    }
}

} // verus!
