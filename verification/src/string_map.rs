//! A map from text keys to values that keeps its entries in order of insertion.

use vstd::prelude::*;

verus! {

/// A map with text keys. Entries stand in the order in which their keys were last inserted.
#[derive(Debug)]
pub struct StringMap<V> {
    entries: Vec<(String, V)>,
}

/// The map that `entries` describe, where a later entry overrides an earlier one.
pub open spec fn entries_map<V>(entries: Seq<(Seq<char>, V)>) -> Map<Seq<char>, V>
    decreases entries.len(),
{
    if entries.len() == 0 {
        Map::empty()
    } else {
        entries_map(entries.drop_last()).insert(entries.last().0, entries.last().1)
    }
}

/// `entries` without those under `key`, in their order.
pub open spec fn without_key<V>(
    entries: Seq<(Seq<char>, V)>,
    key: Seq<char>,
) -> Seq<(Seq<char>, V)>
    decreases entries.len(),
{
    if entries.len() == 0 {
        Seq::empty()
    } else if entries.last().0 == key {
        without_key(entries.drop_last(), key)
    } else {
        without_key(entries.drop_last(), key).push(entries.last())
    }
}

/// No key stands in `entries` twice.
pub open spec fn distinct_keys<V>(entries: Seq<(Seq<char>, V)>) -> bool {
    forall|i: int, j: int|
        0 <= i < j < entries.len() ==> #[trigger] entries[i].0 != #[trigger] entries[j].0
}

/// A key belongs to the map of `entries` exactly if some entry has it.
pub proof fn lemma_entries_map_dom<V>(entries: Seq<(Seq<char>, V)>, key: Seq<char>)
    ensures
        entries_map(entries).dom().contains(key) <==> exists|i: int|
            0 <= i < entries.len() && (#[trigger] entries[i]).0 == key,
    decreases entries.len(),
{
    if entries.len() > 0 {
        let shorter = entries.drop_last();
        lemma_entries_map_dom(shorter, key);
        if entries_map(entries).dom().contains(key) {
            if entries.last().0 == key {
                assert(entries[entries.len() - 1].0 == key);
            } else {
                let i = choose|i: int| 0 <= i < shorter.len() && (#[trigger] shorter[i]).0 == key;
                assert(entries[i].0 == key);
            }
        }
        if exists|i: int| 0 <= i < entries.len() && (#[trigger] entries[i]).0 == key {
            let i = choose|i: int| 0 <= i < entries.len() && (#[trigger] entries[i]).0 == key;
            if i < shorter.len() {
                assert(shorter[i].0 == key);
            }
        }
    }
}

/// Dropping the entries under a key removes the key from the map.
pub proof fn lemma_without_key_map<V>(entries: Seq<(Seq<char>, V)>, key: Seq<char>)
    ensures
        entries_map(without_key(entries, key)) == entries_map(entries).remove(key),
    decreases entries.len(),
{
    if entries.len() == 0 {
        assert(Map::<Seq<char>, V>::empty().remove(key) =~= Map::empty());
    } else {
        let shorter = entries.drop_last();
        lemma_without_key_map(shorter, key);
        if entries.last().0 == key {
            assert(entries_map(entries).remove(key) =~= entries_map(shorter).remove(key));
        } else {
            let kept = without_key(shorter, key);
            assert(kept.push(entries.last()).drop_last() =~= kept);
            assert(entries_map(entries).remove(key) =~= entries_map(shorter).remove(key).insert(
                entries.last().0,
                entries.last().1,
            ));
        }
    }
}

/// What is left without a key are entries of the original that have another key.
pub proof fn lemma_without_key_members<V>(entries: Seq<(Seq<char>, V)>, key: Seq<char>)
    ensures
        without_key(entries, key).len() <= entries.len(),
        forall|i: int|
            0 <= i < without_key(entries, key).len() ==> {
                &&& (#[trigger] without_key(entries, key)[i]).0 != key
                &&& entries.contains(without_key(entries, key)[i])
            },
    decreases entries.len(),
{
    if entries.len() > 0 {
        let shorter = entries.drop_last();
        lemma_without_key_members(shorter, key);
        let kept = without_key(shorter, key);
        assert forall|i: int| 0 <= i < without_key(entries, key).len() implies {
            &&& (#[trigger] without_key(entries, key)[i]).0 != key
            &&& entries.contains(without_key(entries, key)[i])
        } by {
            if i < kept.len() {
                assert(shorter.contains(kept[i]));
                let j = choose|j: int| 0 <= j < shorter.len() && shorter[j] == kept[i];
                assert(entries[j] == kept[i]);
            } else {
                assert(entries[entries.len() - 1] == entries.last());
            }
        }
    }
}

/// Dropping a key leaves distinct keys distinct.
pub proof fn lemma_without_key_distinct<V>(entries: Seq<(Seq<char>, V)>, key: Seq<char>)
    requires
        distinct_keys(entries),
    ensures
        distinct_keys(without_key(entries, key)),
    decreases entries.len(),
{
    if entries.len() > 0 {
        let shorter = entries.drop_last();
        let kept = without_key(shorter, key);
        lemma_without_key_distinct(shorter, key);
        lemma_without_key_members(shorter, key);
        assert forall|i: int, j: int|
            0 <= i < j < without_key(entries, key).len() implies #[trigger] without_key(
            entries,
            key,
        )[i].0 != #[trigger] without_key(entries, key)[j].0 by {
            if j == kept.len() {
                assert(shorter.contains(kept[i]));
                let k = choose|k: int| 0 <= k < shorter.len() && shorter[k] == kept[i];
                assert(entries[k] == kept[i]);
                assert(entries[entries.len() - 1].0 != entries[k].0);
            }
        }
    }
}

/// Dropping a key that no entry has changes nothing.
pub proof fn lemma_without_absent_key<V>(entries: Seq<(Seq<char>, V)>, key: Seq<char>)
    requires
        !entries_map(entries).contains_key(key),
    ensures
        without_key(entries, key) == entries,
    decreases entries.len(),
{
    if entries.len() > 0 {
        lemma_without_absent_key(entries.drop_last(), key);
        assert(entries.drop_last().push(entries.last()) =~= entries);
    }
}

impl<V: View> View for StringMap<V> {
    type V = Map<Seq<char>, V::V>;

    open spec fn view(&self) -> Map<Seq<char>, V::V> {
        entries_map(self.order())
    }
}

impl<V: View> StringMap<V> {
    /// The entries, in order.
    pub closed spec fn order(&self) -> Seq<(Seq<char>, V::V)> {
        self.entries@.map_values(|entry: (String, V)| (entry.0@, entry.1@))
    }

    /// No key occurs twice.
    pub open spec fn wf(&self) -> bool {
        distinct_keys(self.order())
    }

    /// The map without entries.
    pub fn new() -> (map: Self)
        ensures
            map.wf(),
            map.order() == Seq::<(Seq<char>, V::V)>::empty(),
            map@ == Map::<Seq<char>, V::V>::empty(),
    {
        let map = StringMap { entries: Vec::new() };
        assert(map.order() =~= Seq::<(Seq<char>, V::V)>::empty());
        map
    }

    /// The number of entries.
    pub fn len(&self) -> (count: usize)
        ensures
            count == self.order().len(),
    {
        self.entries.len()
    }

    /// The key and the value of the entry at `index`.
    pub fn entry(&self, index: usize) -> (entry: (&String, &V))
        requires
            index < self.order().len(),
        ensures
            (entry.0@, entry.1@) == self.order()[index as int],
    {
        let entry = &self.entries[index];
        (&entry.0, &entry.1)
    }

    /// The value under `key`.
    pub fn get(&self, key: &str) -> (value: Option<&V>)
        ensures
            match value {
                Some(found) => self@.contains_key(key@) && found@ == self@[key@],
                None => !self@.contains_key(key@),
            },
    {
        let wanted = key.to_string();
        let mut i: usize = self.entries.len();
        let ghost order = self.order();
        assert(order.take(order.len() as int) =~= order);
        while i > 0
            invariant
                i <= self.entries.len(),
                order == self.order(),
                wanted@ == key@,
                self@.contains_key(key@) == entries_map(order.take(i as int)).contains_key(key@),
                self@.contains_key(key@) ==> self@[key@] == entries_map(
                    order.take(i as int),
                )[key@],
            decreases i,
        {
            i -= 1;
            assert(order.take(i + 1).drop_last() =~= order.take(i as int));
            assert(order.take(i + 1).last() == order[i as int]);
            if self.entries[i].0 == wanted {
                return Some(&self.entries[i].1);
            }
        }
        assert(order.take(0).len() == 0);
        None
    }

    /// Removes `key` and returns the value that stood under it.
    pub fn remove(&mut self, key: &str) -> (value: Option<V>)
        ensures
            final(self).order() == without_key(old(self).order(), key@),
            final(self)@ == old(self)@.remove(key@),
            old(self).wf() ==> final(self).wf(),
            match value {
                Some(found) => old(self)@.contains_key(key@) && found@ == old(self)@[key@],
                None => !old(self)@.contains_key(key@),
            },
    {
        let ghost order = self.order();
        let ghost mut done: int = 0;
        let wanted = key.to_string();
        let mut removed: Option<V> = None;
        let mut i: usize = 0;
        assert(without_key(order.take(0), key@) + order.skip(0) =~= order);
        while i < self.entries.len()
            invariant
                wanted@ == key@,
                0 <= done <= order.len(),
                i == without_key(order.take(done), key@).len(),
                self.order() == without_key(order.take(done), key@) + order.skip(done),
                match removed {
                    Some(found) => entries_map(order.take(done)).contains_key(key@) && found@
                        == entries_map(order.take(done))[key@],
                    None => !entries_map(order.take(done)).contains_key(key@),
                },
            decreases self.entries.len() - i,
        {
            let ghost before = self.order();
            assert(before[i as int] == order[done]);
            assert(order.take(done + 1).drop_last() =~= order.take(done));
            assert(order.take(done + 1).last() == order[done]);
            if self.entries[i].0 == wanted {
                let entry = self.entries.remove(i);
                removed = Some(entry.1);
                assert(self.order() =~= before.remove(i as int));
            } else {
                i += 1;
            }
            proof {
                done = done + 1;
                assert(self.order() =~= without_key(order.take(done), key@) + order.skip(done));
            }
        }
        assert(order.take(done) =~= order);
        assert(self.order() =~= without_key(order, key@));
        proof {
            lemma_without_key_map(order, key@);
            if distinct_keys(order) {
                lemma_without_key_distinct(order, key@);
            }
        }
        removed
    }

    /// Puts `value` under `key`, in place of whatever stood there, and returns what did.
    pub fn insert(&mut self, key: String, value: V) -> (previous: Option<V>)
        ensures
            final(self).order() == without_key(old(self).order(), key@).push((key@, value@)),
            final(self)@ == old(self)@.insert(key@, value@),
            old(self).wf() ==> final(self).wf(),
            match previous {
                Some(found) => old(self)@.contains_key(key@) && found@ == old(self)@[key@],
                None => !old(self)@.contains_key(key@),
            },
    {
        let previous = self.remove(key.as_str());
        let ghost order = self.order();
        self.entries.push((key, value));
        proof {
            assert(self.order() =~= order.push((key@, value@)));
            assert(self.order().drop_last() =~= order);
            assert(old(self)@.remove(key@).insert(key@, value@) =~= old(self)@.insert(
                key@,
                value@,
            ));
            lemma_without_key_members(old(self).order(), key@);
        }
        previous
    }

    /// Removes every entry.
    pub fn clear(&mut self)
        ensures
            final(self).wf(),
            final(self).order() == Seq::<(Seq<char>, V::V)>::empty(),
            final(self)@ == Map::<Seq<char>, V::V>::empty(),
    {
        self.entries.clear();
        assert(self.order() =~= Seq::<(Seq<char>, V::V)>::empty());
    }
}

} // verus!
