//! A map from names to values, kept as a list of bindings in which a later
//! binding of a name hides the earlier ones.

use crate::text::same_text;
use vstd::prelude::*;

verus! {

/// The map that a list of bindings stands for: each binding is inserted in
/// turn, so that the last binding of a name is the one that holds.
pub open spec fn bindings<T>(pairs: Seq<(Seq<char>, T)>) -> Map<Seq<char>, T>
    decreases pairs.len(),
{
    if pairs.len() == 0 {
        Map::empty()
    } else {
        bindings(pairs.drop_last()).insert(pairs.last().0, pairs.last().1)
    }
}

/// The views of a list of bindings.
pub open spec fn pairs<V: View>(entries: Seq<(String, V)>) -> Seq<(Seq<char>, V::V)> {
    Seq::new(entries.len(), |i: int| (entries[i].0@, entries[i].1@))
}

/// The value that `map` gives to `key`, if it gives one.
pub open spec fn lookup<T>(map: Map<Seq<char>, T>, key: Seq<char>) -> Option<T> {
    if map.contains_key(key) {
        Some(map[key])
    } else {
        None
    }
}

/// A map from names to values.
pub struct Table<V> {
    entries: Vec<(String, V)>,
}

impl<V: View> View for Table<V> {
    type V = Map<Seq<char>, V::V>;

    closed spec fn view(&self) -> Map<Seq<char>, V::V> {
        bindings(pairs(self.entries@))
    }
}

impl<V: View> Table<V> {
    /// The table that binds nothing.
    pub fn new() -> (table: Self)
        ensures
            table@ == Map::<Seq<char>, V::V>::empty(),
    {
        let table = Table { entries: Vec::new() };
        table
    }

    /// Binds `key` to `value`. An earlier binding of `key` is replaced.
    pub fn insert(&mut self, key: String, value: V)
        ensures
            final(self)@ == old(self)@.insert(key@, value@),
    {
        let ghost before = pairs(self.entries@);
        self.entries.push((key, value));
        proof {
            let after = pairs(self.entries@);
            assert(after.drop_last() =~= before);
        }
    }

    /// The value that `key` is bound to, if it is bound.
    pub fn get(&self, key: &str) -> (value: Option<&V>)
        ensures
            match value {
                Some(v) => lookup(self@, key@) == Some(v@),
                None => lookup(self@, key@) is None,
            },
    {
        let ghost all = pairs(self.entries@);
        let mut i: usize = self.entries.len();
        assert(all.take(i as int) =~= all);
        while i > 0
            invariant
                i <= self.entries.len(),
                all == pairs(self.entries@),
                lookup(self@, key@) == lookup(bindings(all.take(i as int)), key@),
            decreases i,
        {
            i -= 1;
            proof {
                assert(all.take(i as int + 1).drop_last() =~= all.take(i as int));
            }
            if same_text(self.entries[i].0.as_str(), key) {
                return Some(&self.entries[i].1);
            }
        }
        None
    }
}

impl Table<i64> {
    /// A copy of the table.
    pub fn copy(&self) -> (table: Self)
        ensures
            table@ == self@,
    {
        let mut entries: Vec<(String, i64)> = Vec::new();
        let mut i: usize = 0;
        while i < self.entries.len()
            invariant
                i <= self.entries.len(),
                entries@.len() == i,
                forall|k: int|
                    0 <= k < i ==> entries@[k].0@ == self.entries@[k].0@ && entries@[k].1
                        == self.entries@[k].1,
            decreases self.entries.len() - i,
        {
            entries.push((self.entries[i].0.clone(), self.entries[i].1));
            i += 1;
        }
        let table = Table { entries };
        assert(pairs(table.entries@) =~= pairs(self.entries@));
        table
    }
}

} // verus!
