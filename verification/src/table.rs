//! Tables keyed by text: what the databases and the quirk environments are
//! made of. No key occurs twice, and the order of the entries is kept.

use vstd::prelude::*;
use crate::text;

verus! {

/// The value under `key`, if there is one.
pub open spec fn entry<T>(table: Seq<(Seq<char>, T)>, key: Seq<char>) -> Option<T>
    decreases table.len(),
{
    if table.len() == 0 {
        None
    } else if table[0].0 == key {
        Some(table[0].1)
    } else {
        entry(table.skip(1), key)
    }
}

/// Whether no key occurs twice.
pub open spec fn distinct_keys<T>(table: Seq<(Seq<char>, T)>) -> bool {
    forall|i: int, j: int| 0 <= i < j < table.len() ==> #[trigger] table[i].0 != #[trigger] table[j].0
}

/// Whether `i` is where `key` stands.
pub open spec fn key_at<T>(table: Seq<(Seq<char>, T)>, key: Seq<char>, i: int) -> bool {
    0 <= i < table.len() && table[i].0 == key
}

/// Where `key` stands in a table, its value is the value under `key`.
pub proof fn law_entry_by_position<T>(table: Seq<(Seq<char>, T)>, key: Seq<char>, i: int)
    requires
        distinct_keys(table),
        key_at(table, key, i),
    ensures
        entry(table, key) == Some(table[i].1),
    decreases table.len(),
{
    if i > 0 {
        assert(table[0].0 != table[i].0);
        assert forall|a: int, b: int| 0 <= a < b < table.skip(1).len() implies table.skip(1)[a].0
            != table.skip(1)[b].0 by {
            assert(table[a + 1].0 != table[b + 1].0);
        }
        law_entry_by_position(table.skip(1), key, i - 1);
    }
}

/// A key that stands nowhere in a table has no value.
pub proof fn law_no_entry_without_key<T>(table: Seq<(Seq<char>, T)>, key: Seq<char>)
    requires
        forall|i: int| 0 <= i < table.len() ==> #[trigger] table[i].0 != key,
    ensures
        entry(table, key) is None,
    decreases table.len(),
{
    if table.len() > 0 {
        assert(table[0].0 != key);
        assert forall|i: int| 0 <= i < table.skip(1).len() implies #[trigger] table.skip(1)[i].0
            != key by {
            assert(table[i + 1].0 != key);
        }
        law_no_entry_without_key(table.skip(1), key);
    }
}

/// `table` with `value` under `key`: in the place of the value that was there,
/// or at the end.
pub open spec fn put<T>(table: Seq<(Seq<char>, T)>, key: Seq<char>, value: T) -> Seq<
    (Seq<char>, T),
>
    decreases table.len(),
{
    if table.len() == 0 {
        seq![(key, value)]
    } else if table[0].0 == key {
        table.update(0, (key, value))
    } else {
        seq![table[0]] + put(table.skip(1), key, value)
    }
}

proof fn lemma_put_in_place<T>(table: Seq<(Seq<char>, T)>, key: Seq<char>, value: T, i: int)
    requires
        distinct_keys(table),
        key_at(table, key, i),
    ensures
        put(table, key, value) == table.update(i, (key, value)),
    decreases table.len(),
{
    if i > 0 {
        assert(table[0].0 != table[i].0);
        assert forall|a: int, b: int| 0 <= a < b < table.skip(1).len() implies table.skip(1)[a].0
            != table.skip(1)[b].0 by {
            assert(table[a + 1].0 != table[b + 1].0);
        }
        lemma_put_in_place(table.skip(1), key, value, i - 1);
        assert(put(table, key, value) =~= table.update(i, (key, value)));
    }
}

proof fn lemma_put_at_end<T>(table: Seq<(Seq<char>, T)>, key: Seq<char>, value: T)
    requires
        forall|i: int| 0 <= i < table.len() ==> #[trigger] table[i].0 != key,
    ensures
        put(table, key, value) == table.push((key, value)),
    decreases table.len(),
{
    if table.len() > 0 {
        assert(table[0].0 != key);
        assert forall|i: int| 0 <= i < table.skip(1).len() implies #[trigger] table.skip(1)[i].0
            != key by {
            assert(table[i + 1].0 != key);
        }
        lemma_put_at_end(table.skip(1), key, value);
    }
    assert(put(table, key, value) =~= table.push((key, value)));
}

/// What was put under a key is read back under that key, and under every
/// other key what was there before.
pub proof fn law_put_then_entry<T>(
    table: Seq<(Seq<char>, T)>,
    key: Seq<char>,
    value: T,
    other: Seq<char>,
)
    ensures
        entry(put(table, key, value), key) == Some(value),
        other != key ==> entry(put(table, key, value), other) == entry(table, other),
    decreases table.len(),
{
    let after = put(table, key, value);
    if table.len() == 0 {
        assert(after.skip(1) =~= table);
    } else if table[0].0 == key {
        assert(after.skip(1) =~= table.skip(1));
    } else {
        law_put_then_entry(table.skip(1), key, value, other);
        assert(after.skip(1) =~= put(table.skip(1), key, value));
    }
}

/// A table from text to `V`.
#[derive(Debug)]
pub struct Table<V> {
    entries: Vec<(String, V)>,
}

impl<V: DeepView> DeepView for Table<V> {
    type V = Seq<(Seq<char>, V::V)>;

    closed spec fn deep_view(&self) -> Seq<(Seq<char>, V::V)> {
        self.entries.deep_view()
    }
}

impl<V> Table<V> {
    #[verifier::type_invariant]
    spec fn inv(self) -> bool {
        forall|i: int, j: int|
            0 <= i < j < self.entries@.len() ==> #[trigger] self.entries@[i].0@
                != #[trigger] self.entries@[j].0@
    }
}

impl<V: DeepView> Table<V> {
    /// A table without entries.
    pub fn new() -> (table: Table<V>)
        ensures
            table.deep_view() == Seq::<(Seq<char>, V::V)>::empty(),
    {
        let entries: Vec<(String, V)> = Vec::new();
        assert(entries.deep_view() =~= Seq::<(Seq<char>, V::V)>::empty());
        Table { entries }
    }

    /// How many entries there are, each under a key of its own.
    pub fn len(&self) -> (n: usize)
        ensures
            n == self.deep_view().len(),
            distinct_keys(self.deep_view()),
    {
        proof {
            use_type_invariant(self);
        }
        self.entries.len()
    }

    /// The key of the `i`-th entry.
    pub fn key(&self, i: usize) -> (key: &String)
        requires
            i < self.deep_view().len(),
        ensures
            key@ == self.deep_view()[i as int].0,
    {
        &self.entries[i].0
    }

    /// The value of the `i`-th entry.
    pub fn value(&self, i: usize) -> (value: &V)
        requires
            i < self.deep_view().len(),
        ensures
            value.deep_view() == self.deep_view()[i as int].1,
    {
        &self.entries[i].1
    }

    /// Where `key` stands.
    fn position(&self, key: &str) -> (r: Option<usize>)
        ensures
            match r {
                Some(i) => key_at(self.deep_view(), key@, i as int),
                None => forall|i: int| 0 <= i < self.deep_view().len() ==> #[trigger] self.deep_view()[i].0 != key@,
            },
    {
        let mut i: usize = 0;
        while i < self.entries.len()
            invariant
                i <= self.entries@.len(),
                forall|j: int| 0 <= j < i ==> #[trigger] self.deep_view()[j].0 != key@,
            decreases self.entries@.len() - i,
        {
            if text::same(self.entries[i].0.as_str(), key) {
                return Some(i);
            }
            i += 1;
        }
        None
    }

    /// The value under `key`.
    pub fn get(&self, key: &str) -> (r: Option<&V>)
        ensures
            match r {
                Some(v) => entry(self.deep_view(), key@) == Some(v.deep_view()),
                None => entry(self.deep_view(), key@) is None,
            },
    {
        proof {
            use_type_invariant(self);
        }
        match self.position(key) {
            Some(i) => {
                proof {
                    law_entry_by_position(self.deep_view(), key@, i as int);
                }
                Some(&self.entries[i].1)
            },
            None => {
                proof {
                    law_no_entry_without_key(self.deep_view(), key@);
                }
                None
            },
        }
    }

    /// Puts `value` under `key`: in the place of the value that was there, or
    /// as a new entry at the end.
    pub fn insert(&mut self, key: String, value: V)
        ensures
            final(self).deep_view() == put(old(self).deep_view(), key@, value.deep_view()),
    {
        proof {
            use_type_invariant(&*self);
        }
        let ghost before = self.deep_view();
        let found = self.position(key.as_str());
        let mut entries: Vec<(String, V)> = Vec::new();
        std::mem::swap(&mut entries, &mut self.entries);
        let ghost k = key@;
        let ghost v = value.deep_view();
        match found {
            Some(i) => {
                assert(distinct_keys(before));
                entries.set(i, (key, value));
                proof {
                    lemma_put_in_place(before, k, v, i as int);
                }
                assert(entries.deep_view() =~= before.update(i as int, (k, v)));
            },
            None => {
                entries.push((key, value));
                proof {
                    lemma_put_at_end(before, k, v);
                }
                assert(entries.deep_view() =~= before.push((k, v)));
            },
        }
        assert forall|i: int, j: int| 0 <= i < j < entries@.len() implies #[trigger] entries@[i].0@
            != #[trigger] entries@[j].0@ by {
            assert(entries.deep_view()[i].0 == entries@[i].0@);
            assert(entries.deep_view()[j].0 == entries@[j].0@);
            if i < before.len() && j < before.len() {
                assert(before[i].0 != before[j].0);
            }
        }
        self.entries = entries;
    }
}

impl Clone for Table<String> {
    fn clone(&self) -> (r: Self)
        ensures
            r.deep_view() == self.deep_view(),
    {
        proof {
            use_type_invariant(self);
        }
        let entries = self.pairs();
        assert(entries.deep_view() == self.entries.deep_view());
        assert(entries@.len() == entries.deep_view().len());
        assert(self.entries@.len() == self.entries.deep_view().len());
        assert forall|i: int, j: int| 0 <= i < j < entries@.len() implies #[trigger] entries@[i].0@
            != #[trigger] entries@[j].0@ by {
            assert(entries.deep_view()[i].0 == self.entries@[i].0@);
            assert(entries.deep_view()[j].0 == self.entries@[j].0@);
        }
        Table { entries }
    }
}

impl Table<String> {
    /// The entries, in order.
    pub fn pairs(&self) -> (r: Vec<(String, String)>)
        ensures
            r.deep_view() == self.deep_view(),
    {
        let mut r: Vec<(String, String)> = Vec::new();
        let mut i: usize = 0;
        while i < self.entries.len()
            invariant
                i <= self.entries@.len(),
                r.deep_view() =~= self.deep_view().take(i as int),
            decreases self.entries@.len() - i,
        {
            let ghost before = r.deep_view();
            r.push((self.entries[i].0.clone(), self.entries[i].1.clone()));
            assert(r.deep_view() =~= before.push(self.deep_view()[i as int]));
            i += 1;
        }
        r
    }
}

} // verus!
