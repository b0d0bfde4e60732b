//! The tag map of a protocol line: a finite map from tag keys to tag values.

use vstd::prelude::*;

verus! {

/// The map that a sequence of key/value pairs builds when the pairs are
/// inserted one after the other: a later pair replaces an earlier one with
/// the same key.
pub open spec fn map_of(pairs: Seq<(Seq<char>, Seq<char>)>) -> Map<Seq<char>, Seq<char>>
    decreases pairs.len(),
{
    if pairs.len() == 0 {
        Map::empty()
    } else {
        map_of(pairs.drop_last()).insert(pairs.last().0, pairs.last().1)
    }
}

/// No key occurs twice among the pairs.
pub open spec fn distinct_keys(pairs: Seq<(Seq<char>, Seq<char>)>) -> bool {
    forall|i: int, j: int|
        0 <= i < j < pairs.len() ==> (#[trigger] pairs[i]).0 != (#[trigger] pairs[j]).0
}

/// A key is in `map_of(pairs)` exactly when some pair carries it.
pub proof fn lemma_map_of_dom(pairs: Seq<(Seq<char>, Seq<char>)>, key: Seq<char>)
    ensures
        map_of(pairs).dom().contains(key) <==> exists|i: int|
            0 <= i < pairs.len() && (#[trigger] pairs[i]).0 == key,
    decreases pairs.len(),
{
    if pairs.len() > 0 {
        let init = pairs.drop_last();
        lemma_map_of_dom(init, key);
        if map_of(pairs).dom().contains(key) {
            if pairs.last().0 == key {
                assert(pairs[pairs.len() - 1].0 == key);
            } else {
                let i = choose|i: int| 0 <= i < init.len() && (#[trigger] init[i]).0 == key;
                assert(pairs[i].0 == key);
            }
        }
        if exists|i: int| 0 <= i < pairs.len() && (#[trigger] pairs[i]).0 == key {
            let i = choose|i: int| 0 <= i < pairs.len() && (#[trigger] pairs[i]).0 == key;
            if i < pairs.len() - 1 {
                assert(init[i].0 == key);
            }
        }
    }
}

/// With distinct keys, each pair's key is mapped to that pair's value.
pub proof fn lemma_map_of_value(pairs: Seq<(Seq<char>, Seq<char>)>, i: int)
    requires
        distinct_keys(pairs),
        0 <= i < pairs.len(),
    ensures
        map_of(pairs).dom().contains(pairs[i].0),
        map_of(pairs)[pairs[i].0] == pairs[i].1,
    decreases pairs.len(),
{
    let init = pairs.drop_last();
    if i < pairs.len() - 1 {
        assert(distinct_keys(init)) by {
            assert forall|a: int, b: int| 0 <= a < b < init.len() implies (#[trigger] init[a]).0
                != (#[trigger] init[b]).0 by {
                assert(init[a] == pairs[a] && init[b] == pairs[b]);
            }
        }
        lemma_map_of_value(init, i);
        assert(init[i] == pairs[i]);
        assert(pairs[i].0 != pairs[pairs.len() - 1].0);
    }
}

/// With distinct keys, the map has as many entries as there are pairs.
pub proof fn lemma_map_of_len(pairs: Seq<(Seq<char>, Seq<char>)>)
    requires
        distinct_keys(pairs),
    ensures
        map_of(pairs).dom().finite(),
        map_of(pairs).dom().len() == pairs.len(),
    decreases pairs.len(),
{
    if pairs.len() > 0 {
        let init = pairs.drop_last();
        assert(distinct_keys(init)) by {
            assert forall|a: int, b: int| 0 <= a < b < init.len() implies (#[trigger] init[a]).0
                != (#[trigger] init[b]).0 by {
                assert(init[a] == pairs[a] && init[b] == pairs[b]);
            }
        }
        lemma_map_of_len(init);
        let key = pairs.last().0;
        lemma_map_of_dom(init, key);
        if map_of(init).dom().contains(key) {
            let i = choose|i: int| 0 <= i < init.len() && (#[trigger] init[i]).0 == key;
            assert(init[i] == pairs[i]);
            assert(pairs[i].0 != pairs[pairs.len() - 1].0);
        }
        assert(map_of(pairs).dom() =~= map_of(init).dom().insert(key));
    }
}

/// With distinct keys, replacing the value of one pair stores that value
/// under the pair's key and keeps the keys distinct.
pub proof fn lemma_replace_value(pairs: Seq<(Seq<char>, Seq<char>)>, at: int, value: Seq<char>)
    requires
        distinct_keys(pairs),
        0 <= at < pairs.len(),
    ensures
        distinct_keys(pairs.update(at, (pairs[at].0, value))),
        map_of(pairs.update(at, (pairs[at].0, value))) == map_of(pairs).insert(
            pairs[at].0,
            value,
        ),
{
    let k = pairs[at].0;
    let after = pairs.update(at, (k, value));
    assert(distinct_keys(after)) by {
        assert forall|a: int, b: int| 0 <= a < b < after.len() implies (#[trigger] after[a]).0 != (
        #[trigger] after[b]).0 by {
            assert(after[a].0 == pairs[a].0);
            assert(after[b].0 == pairs[b].0);
        }
    }
    assert forall|x: Seq<char>|
        map_of(after).dom().contains(x) <==> map_of(pairs).insert(k, value).dom().contains(
            x,
        ) by {
        lemma_map_of_dom(after, x);
        lemma_map_of_dom(pairs, x);
        if exists|i: int| 0 <= i < after.len() && (#[trigger] after[i]).0 == x {
            let i = choose|i: int| 0 <= i < after.len() && (#[trigger] after[i]).0 == x;
            assert(pairs[i].0 == x);
        }
        if exists|i: int| 0 <= i < pairs.len() && (#[trigger] pairs[i]).0 == x {
            let i = choose|i: int| 0 <= i < pairs.len() && (#[trigger] pairs[i]).0 == x;
            assert(after[i].0 == x);
        }
        if x == k {
            assert(after[at].0 == x);
        }
    }
    assert forall|x: Seq<char>| map_of(after).dom().contains(x) implies map_of(after)[x] == map_of(
        pairs,
    ).insert(k, value)[x] by {
        lemma_map_of_dom(after, x);
        let i = choose|i: int| 0 <= i < after.len() && (#[trigger] after[i]).0 == x;
        lemma_map_of_value(after, i);
        if i != at {
            assert(pairs[i] == after[i]);
            lemma_map_of_value(pairs, i);
            if i < at {
                assert(pairs[i].0 != pairs[at].0);
            } else {
                assert(pairs[at].0 != pairs[i].0);
            }
        }
    }
    assert(map_of(after) =~= map_of(pairs).insert(k, value));
}

/// A finite map from tag keys to tag values, with unique keys.
#[derive(Debug)]
pub struct TagMap {
    entries: Vec<(String, String)>,
}

impl View for TagMap {
    type V = Map<Seq<char>, Seq<char>>;

    closed spec fn view(&self) -> Map<Seq<char>, Seq<char>> {
        map_of(self.pairs())
    }
}

impl TagMap {
    /// The entries as pairs of character sequences, in the order of their
    /// first insertion.
    closed spec fn pairs(&self) -> Seq<(Seq<char>, Seq<char>)> {
        Seq::new(self.entries@.len(), |i: int| (self.entries@[i].0@, self.entries@[i].1@))
    }

    #[verifier::type_invariant]
    closed spec fn inv(&self) -> bool {
        distinct_keys(self.pairs())
    }

    /// The empty tag map.
    pub fn new() -> (tags: Self)
        ensures
            tags@ == Map::<Seq<char>, Seq<char>>::empty(),
    {
        let tags = TagMap { entries: Vec::new() };
        assert(tags.pairs() =~= Seq::empty());
        tags
    }

    /// The position of the entry with this key, or the number of entries
    /// when there is none.
    fn position(&self, key: &String) -> (at: usize)
        ensures
            at <= self.entries@.len(),
            at < self.entries@.len() ==> self.entries@[at as int].0@ == key@,
            at == self.entries@.len() ==> !self@.dom().contains(key@),
            at < self.entries@.len() ==> self@.dom().contains(key@) && self@[key@]
                == self.entries@[at as int].1@,
    {
        proof {
            use_type_invariant(self);
        }
        let mut i: usize = 0;
        while i < self.entries.len()
            invariant
                i <= self.entries@.len(),
                distinct_keys(self.pairs()),
                forall|j: int| 0 <= j < i ==> self.entries@[j].0@ != key@,
            decreases self.entries@.len() - i,
        {
            if self.entries[i].0 == *key {
                proof {
                    assert(self.pairs()[i as int].0 == key@);
                    lemma_map_of_value(self.pairs(), i as int);
                }
                return i;
            }
            i += 1;
        }
        proof {
            lemma_map_of_dom(self.pairs(), key@);
            if self@.dom().contains(key@) {
                let j = choose|j: int|
                    0 <= j < self.pairs().len() && (#[trigger] self.pairs()[j]).0 == key@;
                assert(self.entries@[j].0@ == key@);
            }
        }
        i
    }

    /// The number of entries.
    pub fn len(&self) -> (n: usize)
        ensures
            self@.dom().finite(),
            n == self@.dom().len(),
    {
        proof {
            use_type_invariant(self);
            lemma_map_of_len(self.pairs());
        }
        self.entries.len()
    }

    /// Tells whether the map holds no entry.
    pub fn is_empty(&self) -> (b: bool)
        ensures
            b == (self@ == Map::<Seq<char>, Seq<char>>::empty()),
    {
        proof {
            use_type_invariant(self);
            lemma_map_of_len(self.pairs());
            if self.entries@.len() == 0 {
                assert(self@ =~= Map::empty());
            }
        }
        self.entries.len() == 0
    }

    /// Tells whether the map holds an entry for `key`.
    pub fn contains_key(&self, key: &str) -> (b: bool)
        ensures
            b == self@.dom().contains(key@),
    {
        let k = key.to_owned();
        self.position(&k) < self.entries.len()
    }

    /// The value stored for `key`, if there is one.
    pub fn get(&self, key: &str) -> (value: Option<&String>)
        ensures
            value is Some <==> self@.dom().contains(key@),
            value matches Some(v) ==> v@ == self@[key@],
    {
        let k = key.to_owned();
        let at = self.position(&k);
        if at < self.entries.len() {
            Some(&self.entries[at].1)
        } else {
            None
        }
    }

    /// Stores `value` for `key`, in place of an earlier value for that key.
    pub fn insert(&mut self, key: String, value: String)
        ensures
            final(self)@ == old(self)@.insert(key@, value@),
    {
        proof {
            use_type_invariant(&*self);
        }
        let at = self.position(&key);
        let ghost before = self.pairs();
        let ghost k = key@;
        let ghost v = value@;
        let mut entries: Vec<(String, String)> = Vec::new();
        proof {
            assert(distinct_keys(Seq::<(Seq<char>, Seq<char>)>::empty()));
        }
        core::mem::swap(&mut self.entries, &mut entries);
        if at < entries.len() {
            entries.set(at, (key, value));
            proof {
                let after = Seq::new(entries@.len(), |i: int| (entries@[i].0@, entries@[i].1@));
                assert(after =~= before.update(at as int, (k, v)));
                lemma_replace_value(before, at as int, v);
                assert(before.update(at as int, (k, v)) == before.update(
                    at as int,
                    (before[at as int].0, v),
                ));
            }
        } else {
            entries.push((key, value));
            proof {
                let after = Seq::new(entries@.len(), |i: int| (entries@[i].0@, entries@[i].1@));
                assert(after =~= before.push((k, v)));
                assert(after.drop_last() =~= before);
                lemma_map_of_dom(before, k);
                assert(distinct_keys(after)) by {
                    assert forall|a: int, b: int| 0 <= a < b < after.len() implies (
                    #[trigger] after[a]).0 != (#[trigger] after[b]).0 by {
                        if b < before.len() {
                            assert(after[a] == before[a] && after[b] == before[b]);
                        } else {
                            assert(after[a] == before[a]);
                        }
                    }
                }
            }
        }
        self.entries = entries;
    }
}

impl Clone for TagMap {
    fn clone(&self) -> (tags: Self)
        ensures
            tags@ == self@,
    {
        proof {
            use_type_invariant(self);
        }
        let mut entries: Vec<(String, String)> = Vec::new();
        let mut i: usize = 0;
        while i < self.entries.len()
            invariant
                i <= self.entries@.len(),
                entries@.len() == i,
                forall|j: int|
                    0 <= j < i ==> (#[trigger] entries@[j]).0@ == self.entries@[j].0@
                        && entries@[j].1@ == self.entries@[j].1@,
            decreases self.entries@.len() - i,
        {
            let key = self.entries[i].0.clone();
            let value = self.entries[i].1.clone();
            entries.push((key, value));
            i += 1;
        }
        proof {
            let copied = Seq::new(entries@.len(), |j: int| (entries@[j].0@, entries@[j].1@));
            assert(copied =~= self.pairs());
        }
        TagMap { entries }
    }
}

} // verus!
