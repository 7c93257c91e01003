//! A finite map from names to values, kept as a list of entries in which no
//! name stands twice. The registry of networks, the record sets of a zone and
//! the table of running swarms are such maps.

use vstd::prelude::*;

verus! {

broadcast use vstd::string::group_string_axioms;

/// A map from names to values. No name stands twice among the entries.
///
/// The names are strings, and with `String` keys the specification of std's
/// `HashMap` lets nothing about the map's contents be proved after an insert
/// or a lookup. So the entries are kept in a `Vec`, whose contents Verus does
/// know, and the map they stand for is the spec function `map`.
#[derive(Debug)]
pub struct KeyedList<V> {
    entries: Vec<(String, V)>,
}

/// The names of a list of entries, in order.
pub open spec fn names_of<V>(entries: Seq<(String, V)>) -> Seq<Seq<char>> {
    Seq::new(entries.len(), |i: int| entries[i].0@)
}

/// The values of a list of entries, in order.
pub open spec fn values_of<V>(entries: Seq<(String, V)>) -> Seq<V> {
    Seq::new(entries.len(), |i: int| entries[i].1)
}

/// No name stands twice in a list of entries.
pub open spec fn distinct_names<V>(entries: Seq<(String, V)>) -> bool {
    forall|i: int, j: int|
        0 <= i < entries.len() && 0 <= j < entries.len() && i != j ==> entries[i].0@
            != entries[j].0@
}

/// The map that a list of entries with distinct names stands for.
pub open spec fn map_of<V>(entries: Seq<(String, V)>) -> Map<Seq<char>, V> {
    Map::new(
        |k: Seq<char>| exists|i: int| 0 <= i < entries.len() && entries[i].0@ == k,
        |k: Seq<char>| entries[choose|i: int| 0 <= i < entries.len() && entries[i].0@ == k].1,
    )
}

/// In a list with distinct names, each entry gives the value of its name.
pub proof fn lemma_map_of_entry<V>(entries: Seq<(String, V)>, i: int)
    requires
        distinct_names(entries),
        0 <= i < entries.len(),
    ensures
        map_of(entries).contains_key(entries[i].0@),
        map_of(entries)[entries[i].0@] == entries[i].1,
{
    let k = entries[i].0@;
    assert(exists|j: int| 0 <= j < entries.len() && entries[j].0@ == k);
    let c = choose|j: int| 0 <= j < entries.len() && entries[j].0@ == k;
    assert(c == i);
}

/// Pushing an entry with a new name adds that name to the map.
pub proof fn lemma_map_of_push<V>(entries: Seq<(String, V)>, k: String, v: V)
    requires
        distinct_names(entries),
        !map_of(entries).contains_key(k@),
    ensures
        distinct_names(entries.push((k, v))),
        map_of(entries.push((k, v))) =~= map_of(entries).insert(k@, v),
{
    let e2 = entries.push((k, v));
    assert forall|i: int, j: int|
        0 <= i < e2.len() && 0 <= j < e2.len() && i != j implies e2[i].0@ != e2[j].0@ by {
        if i < entries.len() && j == entries.len() {
            assert(map_of(entries).contains_key(entries[i].0@));
        }
        if j < entries.len() && i == entries.len() {
            assert(map_of(entries).contains_key(entries[j].0@));
        }
    }
    assert forall|q: Seq<char>| map_of(e2).contains_key(q) implies map_of(entries).insert(
        k@,
        v,
    ).contains_key(q) && map_of(e2)[q] == map_of(entries).insert(k@, v)[q] by {
        let i = choose|i: int| 0 <= i < e2.len() && e2[i].0@ == q;
        lemma_map_of_entry(e2, i);
        if i < entries.len() {
            lemma_map_of_entry(entries, i);
        }
    }
    assert forall|q: Seq<char>| map_of(entries).insert(k@, v).contains_key(q) implies map_of(
        e2,
    ).contains_key(q) by {
        if q == k@ {
            lemma_map_of_entry(e2, entries.len() as int);
        } else {
            let i = choose|i: int| 0 <= i < entries.len() && entries[i].0@ == q;
            lemma_map_of_entry(e2, i);
        }
    }
}

/// Replacing the value of an entry gives its name the new value.
pub proof fn lemma_map_of_update<V>(entries: Seq<(String, V)>, i: int, k: String, v: V)
    requires
        distinct_names(entries),
        0 <= i < entries.len(),
        entries[i].0@ == k@,
    ensures
        distinct_names(entries.update(i, (k, v))),
        map_of(entries.update(i, (k, v))) =~= map_of(entries).insert(k@, v),
{
    let e2 = entries.update(i, (k, v));
    assert forall|q: Seq<char>| map_of(e2).contains_key(q) implies map_of(entries).insert(
        k@,
        v,
    ).contains_key(q) && map_of(e2)[q] == map_of(entries).insert(k@, v)[q] by {
        let j = choose|j: int| 0 <= j < e2.len() && e2[j].0@ == q;
        lemma_map_of_entry(e2, j);
        if j != i {
            lemma_map_of_entry(entries, j);
        }
    }
    assert forall|q: Seq<char>| map_of(entries).insert(k@, v).contains_key(q) implies map_of(
        e2,
    ).contains_key(q) by {
        if q == k@ {
            lemma_map_of_entry(e2, i);
        } else {
            let j = choose|j: int| 0 <= j < entries.len() && entries[j].0@ == q;
            lemma_map_of_entry(e2, j);
        }
    }
}

/// Removing an entry removes its name from the map.
pub proof fn lemma_map_of_remove<V>(entries: Seq<(String, V)>, i: int)
    requires
        distinct_names(entries),
        0 <= i < entries.len(),
    ensures
        distinct_names(entries.remove(i)),
        map_of(entries.remove(i)) =~= map_of(entries).remove(entries[i].0@),
{
    let e2 = entries.remove(i);
    let k = entries[i].0@;
    assert forall|a: int, b: int|
        0 <= a < e2.len() && 0 <= b < e2.len() && a != b implies e2[a].0@ != e2[b].0@ by {
        let a2 = if a < i { a } else { a + 1 };
        let b2 = if b < i { b } else { b + 1 };
        assert(e2[a] == entries[a2]);
        assert(e2[b] == entries[b2]);
    }
    assert forall|q: Seq<char>| map_of(e2).contains_key(q) implies map_of(entries).remove(
        k,
    ).contains_key(q) && map_of(e2)[q] == map_of(entries).remove(k)[q] by {
        let j = choose|j: int| 0 <= j < e2.len() && e2[j].0@ == q;
        lemma_map_of_entry(e2, j);
        let j2 = if j < i { j } else { j + 1 };
        assert(e2[j] == entries[j2]);
        lemma_map_of_entry(entries, j2);
    }
    assert forall|q: Seq<char>| map_of(entries).remove(k).contains_key(q) implies map_of(
        e2,
    ).contains_key(q) by {
        let j = choose|j: int| 0 <= j < entries.len() && entries[j].0@ == q;
        assert(j != i);
        let j2 = if j < i { j } else { j - 1 };
        assert(e2[j2] == entries[j]);
        lemma_map_of_entry(e2, j2);
    }
}

impl<V> KeyedList<V> {
    /// No name stands twice.
    #[verifier::type_invariant]
    pub closed spec fn inv(self) -> bool {
        distinct_names(self.entries@)
    }

    /// The names, in the order in which the entries are kept.
    pub closed spec fn names(self) -> Seq<Seq<char>> {
        names_of(self.entries@)
    }

    /// The values, in the order in which the entries are kept.
    pub closed spec fn values(self) -> Seq<V> {
        values_of(self.entries@)
    }

    /// The map that the entries stand for.
    pub closed spec fn map(self) -> Map<Seq<char>, V> {
        map_of(self.entries@)
    }

    /// An empty map.
    pub fn new() -> (r: KeyedList<V>)
        ensures
            r.map() == Map::<Seq<char>, V>::empty(),
            r.names().len() == 0,
    {
        let r = KeyedList { entries: Vec::new() };
        assert(r.map() =~= Map::<Seq<char>, V>::empty());
        r
    }

    /// The number of entries. The names and values in storage order describe
    /// the map exactly: each name stands once, with its value.
    pub fn len(&self) -> (n: usize)
        ensures
            n == self.names().len(),
            n == self.values().len(),
            self.names().no_duplicates(),
            forall|i: int|
                0 <= i < n ==> self.map().contains_key(#[trigger] self.names()[i])
                    && self.map()[self.names()[i]] == self.values()[i],
            forall|k: Seq<char>|
                self.map().contains_key(k) ==> exists|i: int|
                    0 <= i < n && #[trigger] self.names()[i] == k,
    {
        proof {
            use_type_invariant(self);
            assert forall|i: int| 0 <= i < self.names().len() implies self.map().contains_key(
                #[trigger] self.names()[i],
            ) && self.map()[self.names()[i]] == self.values()[i] by {
                lemma_map_of_entry(self.entries@, i);
            }
            assert forall|k: Seq<char>| self.map().contains_key(k) implies exists|i: int|
                0 <= i < self.names().len() && #[trigger] self.names()[i] == k by {
                let i = choose|i: int| 0 <= i < self.entries@.len() && self.entries@[i].0@ == k;
                assert(self.names()[i] == k);
            }
        }
        self.entries.len()
    }

    /// The name of the entry at position `i`.
    pub fn name_at(&self, i: usize) -> (r: &String)
        requires
            i < self.names().len(),
        ensures
            r@ == self.names()[i as int],
    {
        &self.entries[i].0
    }

    /// The value of the entry at position `i`.
    pub fn value_at(&self, i: usize) -> (r: &V)
        requires
            i < self.names().len(),
        ensures
            *r == self.values()[i as int],
    {
        &self.entries[i].1
    }

    /// The position of the entry of a name, if it has one.
    fn find(&self, k: &str) -> (r: Option<usize>)
        ensures
            r matches Some(i) ==> i < self.entries@.len() && self.entries@[i as int].0@ == k@,
            r is None ==> !self.map().contains_key(k@),
    {
        let mut i: usize = 0;
        while i < self.entries.len()
            invariant
                i <= self.entries@.len(),
                forall|j: int| 0 <= j < i ==> self.entries@[j].0@ != k@,
            decreases self.entries@.len() - i,
        {
            if string_eq_str(&self.entries[i].0, k) {
                return Some(i);
            }
            i = i + 1;
        }
        None
    }

    /// Whether a name has a value.
    pub fn contains_key(&self, k: &str) -> (r: bool)
        ensures
            r == self.map().contains_key(k@),
    {
        proof {
            use_type_invariant(self);
        }
        match self.find(k) {
            Some(i) => {
                proof {
                    lemma_map_of_entry(self.entries@, i as int);
                }
                true
            },
            None => false,
        }
    }

    /// The value of a name, if it has one.
    pub fn get(&self, k: &str) -> (r: Option<&V>)
        ensures
            r is Some == self.map().contains_key(k@),
            r matches Some(v) ==> *v == self.map()[k@],
    {
        proof {
            use_type_invariant(self);
        }
        match self.find(k) {
            Some(i) => {
                proof {
                    lemma_map_of_entry(self.entries@, i as int);
                }
                Some(&self.entries[i].1)
            },
            None => None,
        }
    }

    /// Gives a name a value, in place of any value it had.
    pub fn insert(&mut self, k: String, v: V)
        ensures
            final(self).map() == old(self).map().insert(k@, v),
    {
        proof {
            use_type_invariant(&*self);
        }
        let mut entries: Vec<(String, V)> = Vec::new();
        std::mem::swap(&mut entries, &mut self.entries);
        match self.find_in(&entries, k.as_str()) {
            Some(i) => {
                proof {
                    lemma_map_of_update(entries@, i as int, k, v);
                }
                entries.set(i, (k, v));
            },
            None => {
                proof {
                    lemma_map_of_push(entries@, k, v);
                }
                entries.push((k, v));
            },
        }
        self.entries = entries;
    }

    /// Takes the value of a name out of the map.
    pub fn remove(&mut self, k: &str) -> (r: Option<V>)
        ensures
            r is Some == old(self).map().contains_key(k@),
            r matches Some(v) ==> v == old(self).map()[k@],
            final(self).map() == old(self).map().remove(k@),
    {
        proof {
            use_type_invariant(&*self);
        }
        let mut entries: Vec<(String, V)> = Vec::new();
        std::mem::swap(&mut entries, &mut self.entries);
        match self.find_in(&entries, k) {
            Some(i) => {
                proof {
                    lemma_map_of_entry(entries@, i as int);
                    lemma_map_of_remove(entries@, i as int);
                }
                let (_, v) = entries.remove(i);
                self.entries = entries;
                Some(v)
            },
            None => {
                assert(old(self).map().remove(k@) =~= old(self).map());
                self.entries = entries;
                None
            },
        }
    }

    /// The position of the entry of a name in a list of entries.
    fn find_in(&self, entries: &Vec<(String, V)>, k: &str) -> (r: Option<usize>)
        requires
            distinct_names(entries@),
        ensures
            r matches Some(i) ==> i < entries@.len() && entries@[i as int].0@ == k@,
            r is None ==> !map_of(entries@).contains_key(k@),
    {
        let mut i: usize = 0;
        while i < entries.len()
            invariant
                i <= entries@.len(),
                forall|j: int| 0 <= j < i ==> entries@[j].0@ != k@,
            decreases entries@.len() - i,
        {
            if string_eq_str(&entries[i].0, k) {
                return Some(i);
            }
            i = i + 1;
        }
        None
    }
}

/// Whether a string and a string slice hold the same characters.
pub fn string_eq_str(a: &String, b: &str) -> (r: bool)
    ensures
        r == (a@ == b@),
{
    str_eq(a.as_str(), b)
}

/// Whether two string slices hold the same characters.
pub fn str_eq(a: &str, b: &str) -> (r: bool)
    ensures
        r == (a@ == b@),
{
    let x = crate::text::chars_of(a);
    let y = crate::text::chars_of(b);
    if x.len() != y.len() {
        return false;
    }
    let mut i: usize = 0;
    while i < x.len()
        invariant
            x@ == a@,
            y@ == b@,
            x.len() == y.len(),
            i <= x.len(),
            forall|j: int| 0 <= j < i ==> x@[j] == y@[j],
        decreases x.len() - i,
    {
        if x[i] != y[i] {
            return false;
        }
        i = i + 1;
    }
    assert(x@ =~= y@);
    true
}

} // verus!
