//! A finite map from strings to values, with a specification.
//!
//! The entries are kept in a list whose keys are pairwise distinct; lookups walk
//! the list. Contracts speak of the map that the list denotes. The order of
//! the list shows only where a caller walks the entries.

use crate::duplicate::{views, Duplicate};
use vstd::prelude::*;

verus! {

/// No key stands at two places of the list.
pub open spec fn distinct_keys<T>(pairs: Seq<(Seq<char>, T)>) -> bool {
    forall|i: int, j: int| 0 <= i < j < pairs.len() ==> pairs[i].0 != pairs[j].0
}

/// Whether some entry of the list has the key.
pub open spec fn has_key<T>(pairs: Seq<(Seq<char>, T)>, key: Seq<char>) -> bool {
    exists|i: int| 0 <= i < pairs.len() && (#[trigger] pairs[i]).0 == key
}

/// The map that a list of entries denotes. Where a key stands twice, the later
/// entry counts.
pub open spec fn pairs_to_map<T>(pairs: Seq<(Seq<char>, T)>) -> Map<Seq<char>, T>
    decreases pairs.len(),
{
    if pairs.len() == 0 {
        Map::empty()
    } else {
        pairs_to_map(pairs.drop_last()).insert(pairs.last().0, pairs.last().1)
    }
}

/// The keys of the denoted map are the keys of the list, and the map is finite.
pub proof fn lemma_pairs_to_map_domain<T>(pairs: Seq<(Seq<char>, T)>)
    ensures
        pairs_to_map(pairs).dom().finite(),
        forall|key: Seq<char>| #[trigger]
            pairs_to_map(pairs).contains_key(key) <==> has_key(pairs, key),
    decreases pairs.len(),
{
    if pairs.len() > 0 {
        let front = pairs.drop_last();
        lemma_pairs_to_map_domain(front);
        assert forall|key: Seq<char>| #[trigger]
            pairs_to_map(pairs).contains_key(key) <==> has_key(pairs, key) by {
            if has_key(pairs, key) {
                let i = choose|i: int| 0 <= i < pairs.len() && (#[trigger] pairs[i]).0 == key;
                if i < front.len() {
                    assert(front[i].0 == key);
                }
            }
            if pairs_to_map(pairs).contains_key(key) {
                if key == pairs.last().0 {
                    assert(pairs[pairs.len() - 1].0 == key);
                } else {
                    assert(has_key(front, key));
                    let i = choose|i: int| 0 <= i < front.len() && (#[trigger] front[i]).0 == key;
                    assert(pairs[i].0 == key);
                }
            }
        }
    }
}

/// Under distinct keys, the denoted map sends each key of the list to the value
/// beside it.
pub proof fn lemma_pairs_to_map_value<T>(pairs: Seq<(Seq<char>, T)>, i: int)
    requires
        distinct_keys(pairs),
        0 <= i < pairs.len(),
    ensures
        pairs_to_map(pairs).contains_key(pairs[i].0),
        pairs_to_map(pairs)[pairs[i].0] == pairs[i].1,
    decreases pairs.len(),
{
    let front = pairs.drop_last();
    if i < pairs.len() - 1 {
        assert(pairs[i].0 != pairs[pairs.len() - 1].0);
        assert(front[i] == pairs[i]);
        lemma_pairs_to_map_value(front, i);
    }
}

/// Appending an entry inserts it into the denoted map.
pub proof fn lemma_pairs_to_map_push<T>(pairs: Seq<(Seq<char>, T)>, key: Seq<char>, value: T)
    ensures
        pairs_to_map(pairs.push((key, value))) == pairs_to_map(pairs).insert(key, value),
{
    assert(pairs.push((key, value)).drop_last() =~= pairs);
}

/// Under distinct keys, the map of the first `n + 1` entries is the map of
/// the first `n` with entry `n` inserted, and entry `n` brings a new key.
pub proof fn lemma_pairs_to_map_take<T>(pairs: Seq<(Seq<char>, T)>, n: int)
    requires
        distinct_keys(pairs),
        0 <= n < pairs.len(),
    ensures
        pairs_to_map(pairs.take(n + 1)) == pairs_to_map(pairs.take(n)).insert(
            pairs[n].0,
            pairs[n].1,
        ),
        !pairs_to_map(pairs.take(n)).contains_key(pairs[n].0),
{
    let before = pairs.take(n);
    assert(pairs.take(n + 1).drop_last() =~= before);
    lemma_pairs_to_map_domain(before);
    if has_key(before, pairs[n].0) {
        let j = choose|j: int| 0 <= j < before.len() && (#[trigger] before[j]).0 == pairs[n].0;
        assert(pairs[j].0 == pairs[n].0);
    }
}

/// Under distinct keys, replacing the value of an entry inserts the new value
/// under the entry's key.
pub proof fn lemma_pairs_to_map_update<T>(pairs: Seq<(Seq<char>, T)>, i: int, value: T)
    requires
        distinct_keys(pairs),
        0 <= i < pairs.len(),
    ensures
        distinct_keys(pairs.update(i, (pairs[i].0, value))),
        pairs_to_map(pairs.update(i, (pairs[i].0, value))) == pairs_to_map(pairs).insert(
            pairs[i].0,
            value,
        ),
    decreases pairs.len(),
{
    let key = pairs[i].0;
    let changed = pairs.update(i, (key, value));
    let front = pairs.drop_last();
    if i == pairs.len() - 1 {
        assert(changed.drop_last() =~= front);
        assert(pairs_to_map(changed) =~= pairs_to_map(pairs).insert(key, value));
    } else {
        assert(front[i] == pairs[i]);
        lemma_pairs_to_map_update(front, i, value);
        assert(changed.drop_last() =~= front.update(i, (key, value)));
        assert(pairs[i].0 != pairs[pairs.len() - 1].0);
        assert(pairs_to_map(changed) =~= pairs_to_map(pairs).insert(key, value));
    }
}

/// Under distinct keys, taking an entry out of the list removes its key from the
/// denoted map.
pub proof fn lemma_pairs_to_map_remove<T>(pairs: Seq<(Seq<char>, T)>, i: int)
    requires
        distinct_keys(pairs),
        0 <= i < pairs.len(),
    ensures
        distinct_keys(pairs.remove(i)),
        pairs_to_map(pairs.remove(i)) == pairs_to_map(pairs).remove(pairs[i].0),
    decreases pairs.len(),
{
    let key = pairs[i].0;
    let rest = pairs.remove(i);
    let front = pairs.drop_last();
    if i == pairs.len() - 1 {
        assert(rest =~= front);
        lemma_pairs_to_map_domain(front);
        if has_key(front, key) {
            let j = choose|j: int| 0 <= j < front.len() && (#[trigger] front[j]).0 == key;
            assert(pairs[j].0 == key);
        }
        assert(pairs_to_map(rest) =~= pairs_to_map(pairs).remove(key));
    } else {
        assert(front[i] == pairs[i]);
        lemma_pairs_to_map_remove(front, i);
        assert(rest.drop_last() =~= front.remove(i));
        assert(rest.last() == pairs.last());
        assert(pairs[i].0 != pairs[pairs.len() - 1].0);
        assert(pairs_to_map(rest) =~= pairs_to_map(pairs).remove(key));
    }
}

/// Under distinct keys, the denoted map has as many keys as the list has
/// entries.
pub proof fn lemma_pairs_to_map_len<T>(pairs: Seq<(Seq<char>, T)>)
    requires
        distinct_keys(pairs),
    ensures
        pairs_to_map(pairs).dom().finite(),
        pairs_to_map(pairs).len() == pairs.len(),
    decreases pairs.len(),
{
    lemma_pairs_to_map_domain(pairs);
    if pairs.len() > 0 {
        let front = pairs.drop_last();
        lemma_pairs_to_map_len(front);
        lemma_pairs_to_map_domain(front);
        if has_key(front, pairs.last().0) {
            let j = choose|j: int|
                0 <= j < front.len() && (#[trigger] front[j]).0 == pairs.last().0;
            assert(pairs[j].0 == pairs[pairs.len() - 1].0);
        }
    }
}

/// The keys among the first `n + 1` entries are those among the first `n`,
/// and the key of entry `n`.
pub proof fn lemma_has_key_take<T>(pairs: Seq<(Seq<char>, T)>, n: int, key: Seq<char>)
    requires
        0 <= n < pairs.len(),
    ensures
        has_key(pairs.take(n + 1), key) <==> (has_key(pairs.take(n), key) || pairs[n].0 == key),
{
    let before = pairs.take(n);
    let after = pairs.take(n + 1);
    if has_key(before, key) {
        let w = choose|w: int| 0 <= w < before.len() && (#[trigger] before[w]).0 == key;
        assert(after[w].0 == key);
    }
    if pairs[n].0 == key {
        assert(after[n].0 == key);
    }
    if has_key(after, key) {
        let w = choose|w: int| 0 <= w < after.len() && (#[trigger] after[w]).0 == key;
        if w < n {
            assert(before[w].0 == key);
        }
    }
}

/// A finite map from strings to values of type `V`.
///
/// Its view is the `Map` from each key's characters to the view of the value
/// stored under it.
#[derive(Debug)]
pub struct StringMap<V> {
    entries: Vec<(String, V)>,
}

impl<V> StringMap<V> {
    #[verifier::type_invariant]
    spec fn keys_are_distinct(&self) -> bool {
        forall|i: int, j: int|
            0 <= i < j < self.entries@.len() ==> self.entries@[i].0@ != self.entries@[j].0@
    }
}

/// The entries of a list, each key and each value by its view.
pub open spec fn pairs_of<V: View>(entries: Seq<(String, V)>) -> Seq<(Seq<char>, V::V)> {
    entries.map_values(|e: (String, V)| (e.0@, e.1@))
}

impl<V: View> View for StringMap<V> {
    type V = Map<Seq<char>, V::V>;

    open spec fn view(&self) -> Map<Seq<char>, V::V> {
        pairs_to_map(self.pairs())
    }
}

impl<V: View> StringMap<V> {
    /// The entries in the order in which the map keeps them.
    pub closed spec fn pairs(&self) -> Seq<(Seq<char>, V::V)> {
        pairs_of(self.entries@)
    }

    /// The empty map.
    pub fn new() -> (r: Self)
        ensures
            r@ == Map::<Seq<char>, V::V>::empty(),
            r.pairs().len() == 0,
    {
        StringMap { entries: Vec::new() }
    }

    /// The entries of the map, in the order in which it keeps them. No key
    /// occurs twice among them.
    pub fn entries(&self) -> (r: &Vec<(String, V)>)
        ensures
            pairs_of(r@) == self.pairs(),
            distinct_keys(self.pairs()),
            self@.dom().finite(),
            self@.len() == r@.len(),
    {
        proof {
            use_type_invariant(self);
            lemma_pairs_to_map_domain(self.pairs());
            lemma_pairs_to_map_len(self.pairs());
        }
        &self.entries
    }

    /// The number of keys.
    pub fn len(&self) -> (r: usize)
        ensures
            r == self.pairs().len(),
            self@.dom().finite(),
            r == self@.len(),
    {
        proof {
            use_type_invariant(self);
            lemma_pairs_to_map_domain(self.pairs());
            lemma_pairs_to_map_len(self.pairs());
        }
        self.entries.len()
    }

    fn position(&self, key: &String) -> (r: Option<usize>)
        ensures
            distinct_keys(self.pairs()),
            match r {
                Some(i) => i < self.pairs().len() && self.pairs()[i as int].0 == key@,
                None => !has_key(self.pairs(), key@),
            },
    {
        proof {
            use_type_invariant(self);
            assert forall|a: int, b: int| 0 <= a < b < self.pairs().len() implies self.pairs()[a].0
                != self.pairs()[b].0 by {
                assert(self.pairs()[a].0 == self.entries@[a].0@);
                assert(self.pairs()[b].0 == self.entries@[b].0@);
            }
        }
        let mut i: usize = 0;
        while i < self.entries.len()
            invariant
                i <= self.entries.len(),
                distinct_keys(self.pairs()),
                forall|j: int| 0 <= j < i ==> self.pairs()[j].0 != key@,
            decreases self.entries.len() - i,
        {
            if self.entries[i].0 == *key {
                return Some(i);
            }
            i += 1;
        }
        None
    }

    /// Whether the map has the key.
    pub fn contains_key(&self, key: &String) -> (r: bool)
        ensures
            r == self@.contains_key(key@),
    {
        proof {
            lemma_pairs_to_map_domain(self.pairs());
        }
        match self.position(key) {
            Some(i) => {
                assert(self.pairs()[i as int].0 == key@);
                true
            },
            None => false,
        }
    }

    /// The value stored under the key, if there is one.
    pub fn get(&self, key: &String) -> (r: Option<&V>)
        ensures
            match r {
                Some(value) => self@.contains_key(key@) && self@[key@] == value@,
                None => !self@.contains_key(key@),
            },
    {
        proof {
            lemma_pairs_to_map_domain(self.pairs());
        }
        match self.position(key) {
            Some(i) => {
                proof {
                    lemma_pairs_to_map_value(self.pairs(), i as int);
                }
                Some(&self.entries[i].1)
            },
            None => None,
        }
    }

    /// Stores the value under the key, in place of any value that stood there.
    /// A key that is new to the map becomes its last entry.
    pub fn insert(&mut self, key: String, value: V)
        ensures
            final(self)@ == old(self)@.insert(key@, value@),
            !old(self)@.contains_key(key@) ==> final(self).pairs() == old(self).pairs().push(
                (key@, value@),
            ),
    {
        proof {
            lemma_pairs_to_map_domain(self.pairs());
        }
        let found = self.position(&key);
        let mut entries: Vec<(String, V)> = Vec::new();
        std::mem::swap(&mut self.entries, &mut entries);
        match found {
            Some(i) => {
                proof {
                    lemma_pairs_to_map_update(old(self).pairs(), i as int, value@);
                    assert(pairs_of(entries@.update(i as int, (key, value))) =~= old(
                        self,
                    ).pairs().update(i as int, (old(self).pairs()[i as int].0, value@)));
                }
                entries.set(i, (key, value));
            },
            None => {
                proof {
                    lemma_pairs_to_map_push(old(self).pairs(), key@, value@);
                    assert(pairs_of(entries@.push((key, value))) =~= old(self).pairs().push(
                        (key@, value@),
                    ));
                    assert forall|j: int| 0 <= j < entries@.len() implies entries@[j].0@
                        != key@ by {
                        assert(old(self).pairs()[j].0 == entries@[j].0@);
                    }
                }
                entries.push((key, value));
            },
        }
        proof {
            assert(distinct_keys(pairs_of(entries@)));
            assert forall|i: int, j: int| 0 <= i < j < entries@.len() implies entries@[i].0@
                != entries@[j].0@ by {
                assert(pairs_of(entries@)[i].0 == entries@[i].0@);
                assert(pairs_of(entries@)[j].0 == entries@[j].0@);
            }
        }
        self.entries = entries;
    }

    /// Takes the key and its value out of the map and returns the value, if the
    /// key was there.
    pub fn remove(&mut self, key: &String) -> (r: Option<V>)
        ensures
            final(self)@ == old(self)@.remove(key@),
            match r {
                Some(value) => old(self)@.contains_key(key@) && old(self)@[key@] == value@,
                None => !old(self)@.contains_key(key@),
            },
    {
        proof {
            lemma_pairs_to_map_domain(self.pairs());
        }
        match self.position(key) {
            Some(i) => {
                let mut entries: Vec<(String, V)> = Vec::new();
                std::mem::swap(&mut self.entries, &mut entries);
                proof {
                    lemma_pairs_to_map_value(old(self).pairs(), i as int);
                    lemma_pairs_to_map_remove(old(self).pairs(), i as int);
                    assert(pairs_of(entries@.remove(i as int)) =~= old(self).pairs().remove(
                        i as int,
                    ));
                }
                let entry = entries.remove(i);
                proof {
                    assert forall|a: int, b: int| 0 <= a < b < entries@.len() implies entries@[a].0@
                        != entries@[b].0@ by {
                        assert(pairs_of(entries@)[a].0 == entries@[a].0@);
                        assert(pairs_of(entries@)[b].0 == entries@[b].0@);
                    }
                }
                self.entries = entries;
                Some(entry.1)
            },
            None => {
                assert(old(self)@.remove(key@) =~= old(self)@);
                None
            },
        }
    }

    /// Gives up the map for its entries. No key occurs twice among them.
    pub fn into_entries(self) -> (r: Vec<(String, V)>)
        ensures
            pairs_of(r@) == self.pairs(),
            distinct_keys(self.pairs()),
    {
        proof {
            use_type_invariant(&self);
        }
        self.entries
    }

    /// The map that a list of entries denotes: where a key stands twice, the
    /// later entry counts. A list without such a key is kept in its order.
    pub fn from_entries(entries: Vec<(String, V)>) -> (r: Self)
        ensures
            r@ == pairs_to_map(pairs_of(entries@)),
            distinct_keys(pairs_of(entries@)) ==> r.pairs() == pairs_of(entries@),
    {
        let ghost all = pairs_of(entries@);
        let mut map: StringMap<V> = StringMap::new();
        for entry in iter: entries
            invariant
                pairs_of(iter.seq()) == all,
                map@ == pairs_to_map(all.take(iter.index() as int)),
                distinct_keys(all) ==> map.pairs() == all.take(iter.index() as int),
        {
            proof {
                let i = iter.index() as int;
                assert(all.take(i + 1).drop_last() =~= all.take(i));
                assert(all[i] == (entry.0@, entry.1@));
                if distinct_keys(all) {
                    lemma_pairs_to_map_take(all, i);
                    assert(all.take(i + 1) =~= all.take(i).push(all[i]));
                }
            }
            map.insert(entry.0, entry.1);
        }
        proof {
            assert(all.take(all.len() as int) =~= all);
        }
        map
    }
}

impl<V: Duplicate> Duplicate for StringMap<V> {
    fn duplicate(&self) -> (r: StringMap<V>) {
        proof {
            use_type_invariant(self);
        }
        let mut copies: Vec<(String, V)> = Vec::new();
        let mut i: usize = 0;
        while i < self.entries.len()
            invariant
                i <= self.entries.len(),
                copies.len() == i,
                forall|j: int|
                    0 <= j < i ==> copies@[j].0@ == self.entries@[j].0@ && copies@[j].1@
                        == self.entries@[j].1@,
            decreases self.entries.len() - i,
        {
            copies.push((self.entries[i].0.clone(), self.entries[i].1.duplicate()));
            i += 1;
        }
        assert(pairs_of(copies@) =~= pairs_of(self.entries@));
        StringMap { entries: copies }
    }
}

impl<V: Duplicate> Clone for StringMap<V> {
    fn clone(&self) -> (r: StringMap<V>)
        ensures
            r@ == self@,
    {
        self.duplicate()
    }
}

/// Whether some map of the list has the key.
pub open spec fn some_has<T>(maps: Seq<Map<Seq<char>, T>>, key: Seq<char>) -> bool {
    exists|i: int| 0 <= i < maps.len() && (#[trigger] maps[i]).contains_key(key)
}

/// The values that the maps of the list hold under the key, in the order of
/// the list; a map without the key adds nothing.
pub open spec fn values_under<T>(maps: Seq<Map<Seq<char>, T>>, key: Seq<char>) -> Seq<T>
    decreases maps.len(),
{
    if maps.len() == 0 {
        Seq::empty()
    } else if maps.last().contains_key(key) {
        values_under(maps.drop_last(), key).push(maps.last()[key])
    } else {
        values_under(maps.drop_last(), key)
    }
}

/// Whether the list of keys names the key.
pub open spec fn names_key(keys: Seq<String>, key: Seq<char>) -> bool {
    exists|i: int| 0 <= i < keys.len() && (#[trigger] keys[i])@ == key
}

/// The first `n + 1` keys of a list name what the first `n` name, and key `n`.
pub proof fn lemma_names_key_take(keys: Seq<String>, n: int)
    requires
        0 <= n < keys.len(),
    ensures
        forall|key: Seq<char>| #[trigger]
            names_key(keys.take(n + 1), key) <==> (names_key(keys.take(n), key) || keys[n]@
                == key),
{
    let before = keys.take(n);
    let after = keys.take(n + 1);
    assert forall|key: Seq<char>| #[trigger]
        names_key(after, key) <==> (names_key(before, key) || keys[n]@ == key) by {
        if names_key(before, key) {
            let w = choose|w: int| 0 <= w < before.len() && (#[trigger] before[w])@ == key;
            assert(after[w]@ == key);
        }
        if keys[n]@ == key {
            assert(after[n]@ == key);
        }
        if names_key(after, key) {
            let w = choose|w: int| 0 <= w < after.len() && (#[trigger] after[w])@ == key;
            if w < n {
                assert(before[w]@ == key);
            }
        }
    }
}

/// Copies of the values that the maps hold under the key: see
/// [`values_under`].
pub fn gather<V: Duplicate>(maps: &Vec<&StringMap<V>>, key: &String) -> (r: Vec<V>)
    ensures
        views(r@) == values_under(views(maps@), key@),
{
    let ghost all = views(maps@);
    let mut found: Vec<V> = Vec::new();
    let mut i: usize = 0;
    while i < maps.len()
        invariant
            i <= maps.len(),
            all == views(maps@),
            views(found@) == values_under(all.take(i as int), key@),
        decreases maps.len() - i,
    {
        proof {
            assert(all.take(i + 1).drop_last() =~= all.take(i as int));
            assert(all.take(i + 1).last() == maps@[i as int]@);
        }
        match maps[i].get(key) {
            Some(value) => {
                let copy = value.duplicate();
                assert(views(found@.push(copy)) =~= views(found@).push(copy@));
                found.push(copy);
            },
            None => {},
        }
        i += 1;
    }
    proof {
        assert(all.take(maps.len() as int) =~= all);
    }
    found
}

fn names(keys: &Vec<String>, key: &String) -> (r: bool)
    ensures
        r == names_key(keys@, key@),
{
    let mut i: usize = 0;
    while i < keys.len()
        invariant
            i <= keys.len(),
            forall|j: int| 0 <= j < i ==> (#[trigger] keys@[j])@ != key@,
        decreases keys.len() - i,
    {
        if keys[i] == *key {
            return true;
        }
        i += 1;
    }
    false
}

/// The keys of all the maps: a list that names a key if and only if some map
/// has it.
pub fn union_keys<V: View>(maps: &Vec<&StringMap<V>>) -> (r: Vec<String>)
    ensures
        forall|key: Seq<char>| #[trigger] names_key(r@, key) <==> some_has(views(maps@), key),
{
    let ghost all = views(maps@);
    let mut keys: Vec<String> = Vec::new();
    let mut i: usize = 0;
    while i < maps.len()
        invariant
            i <= maps.len(),
            all == views(maps@),
            forall|key: Seq<char>| #[trigger]
                names_key(keys@, key) <==> some_has(all.take(i as int), key),
        decreases maps.len() - i,
    {
        let entries = maps[i].entries();
        let ghost pairs = pairs_of(entries@);
        let mut n: usize = 0;
        while n < entries.len()
            invariant
                i < maps.len(),
                n <= entries.len(),
                all == views(maps@),
                pairs == pairs_of(entries@),
                pairs_to_map(pairs) == all[i as int],
                forall|key: Seq<char>| #[trigger]
                    names_key(keys@, key) <==> (some_has(all.take(i as int), key) || has_key(
                        pairs.take(n as int),
                        key,
                    )),
            decreases entries.len() - n,
        {
            let ghost before = keys@;
            let ghost added = entries@[n as int].0@;
            if !names(&keys, &entries[n].0) {
                keys.push(entries[n].0.clone());
            }
            proof {
                assert(names_key(keys@, added)) by {
                    if names_key(before, added) {
                        let w = choose|w: int|
                            0 <= w < before.len() && (#[trigger] before[w])@ == added;
                        assert(keys@[w]@ == added);
                    } else {
                        assert(keys@[keys@.len() - 1]@ == added);
                    }
                }
                assert forall|key: Seq<char>| #[trigger]
                    names_key(keys@, key) <==> (some_has(all.take(i as int), key) || has_key(
                        pairs.take(n + 1),
                        key,
                    )) by {
                    lemma_has_key_take(pairs, n as int, key);
                    if names_key(before, key) {
                        let w = choose|w: int|
                            0 <= w < before.len() && (#[trigger] before[w])@ == key;
                        assert(keys@[w]@ == key);
                    }
                    if names_key(keys@, key) && key != added {
                        let w = choose|w: int|
                            0 <= w < keys@.len() && (#[trigger] keys@[w])@ == key;
                        assert(before[w]@ == key);
                    }
                }
            }
            n += 1;
        }
        proof {
            assert(pairs.take(entries.len() as int) =~= pairs);
            lemma_pairs_to_map_domain(pairs);
            assert forall|key: Seq<char>| #[trigger]
                some_has(all.take(i + 1), key) <==> (some_has(all.take(i as int), key)
                    || all[i as int].contains_key(key)) by {
                let shorter = all.take(i as int);
                let longer = all.take(i + 1);
                if some_has(shorter, key) {
                    let w = choose|w: int|
                        0 <= w < shorter.len() && (#[trigger] shorter[w]).contains_key(key);
                    assert(longer[w].contains_key(key));
                }
                if all[i as int].contains_key(key) {
                    assert(longer[i as int].contains_key(key));
                }
                if some_has(longer, key) {
                    let w = choose|w: int|
                        0 <= w < longer.len() && (#[trigger] longer[w]).contains_key(key);
                    if w < i {
                        assert(shorter[w].contains_key(key));
                    }
                }
            }
        }
        i += 1;
    }
    proof {
        assert(all.take(maps.len() as int) =~= all);
    }
    keys
}

} // verus!
