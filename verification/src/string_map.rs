//! A map keyed by text, kept as a list of entries with distinct keys.

use vstd::prelude::*;

verus! {

/// The map that a list of entries stands for: a later entry wins over an
/// earlier one with the same key.
pub open spec fn pairs_map<T>(pairs: Seq<(Seq<char>, T)>, n: nat) -> Map<Seq<char>, T>
    decreases n,
{
    if n == 0 {
        Map::empty()
    } else {
        pairs_map(pairs, (n - 1) as nat).insert(pairs[n - 1].0, pairs[n - 1].1)
    }
}

/// No key occurs twice.
pub open spec fn distinct_keys<T>(pairs: Seq<(Seq<char>, T)>) -> bool {
    forall|i: int, j: int| 0 <= i < j < pairs.len() ==> pairs[i].0 != pairs[j].0
}

/// The map of the first `n` entries has their keys and no others.
pub proof fn lemma_pairs_map_dom<T>(pairs: Seq<(Seq<char>, T)>, n: nat, key: Seq<char>)
    requires
        n <= pairs.len(),
    ensures
        pairs_map(pairs, n).dom().contains(key) <==> exists|i: int|
            0 <= i < n && #[trigger] pairs[i].0 == key,
    decreases n,
{
    if n > 0 {
        lemma_pairs_map_dom(pairs, (n - 1) as nat, key);
        if pairs_map(pairs, n).dom().contains(key) {
            if pairs[n - 1].0 == key {
            } else {
                let i = choose|i: int| 0 <= i < n - 1 && #[trigger] pairs[i].0 == key;
                assert(pairs[i].0 == key);
            }
        }
        if exists|i: int| 0 <= i < n && #[trigger] pairs[i].0 == key {
            let i = choose|i: int| 0 <= i < n && #[trigger] pairs[i].0 == key;
            if i < n - 1 {
                assert(pairs[i].0 == key);
            }
        }
    }
}

/// Where keys are distinct, the map gives each key the value of its entry.
pub proof fn lemma_pairs_map_value<T>(pairs: Seq<(Seq<char>, T)>, n: nat, i: int)
    requires
        n <= pairs.len(),
        0 <= i < n,
        distinct_keys(pairs),
    ensures
        pairs_map(pairs, n).dom().contains(pairs[i].0),
        pairs_map(pairs, n)[pairs[i].0] == pairs[i].1,
    decreases n,
{
    if i < n - 1 {
        lemma_pairs_map_value(pairs, (n - 1) as nat, i);
    }
}

/// A map from text to values of `T`. Entries keep the order in which their
/// keys first came in.
#[derive(Debug)]
pub struct StringMap<T> {
    entries: Vec<(String, T)>,
}

impl<T> StringMap<T> {
    /// The entries in order, each key as its text.
    pub closed spec fn pairs(&self) -> Seq<(Seq<char>, T)> {
        Seq::new(self.entries@.len(), |i: int| (self.entries@[i].0@, self.entries@[i].1))
    }

    /// No key occurs twice.
    pub open spec fn wf(&self) -> bool {
        distinct_keys(self.pairs())
    }

    /// The map that the entries stand for.
    pub open spec fn view(&self) -> Map<Seq<char>, T> {
        pairs_map(self.pairs(), self.pairs().len())
    }

    /// A map without entries.
    pub fn new() -> (map: Self)
        ensures
            map.wf(),
            map.pairs() == Seq::<(Seq<char>, T)>::empty(),
            map@ == Map::<Seq<char>, T>::empty(),
    {
        let map = StringMap { entries: Vec::new() };
        assert(map.pairs() =~= Seq::<(Seq<char>, T)>::empty());
        map
    }

    /// The number of entries.
    pub fn len(&self) -> (n: usize)
        ensures
            n == self.pairs().len(),
    {
        self.entries.len()
    }

    /// The key of entry `i`.
    pub fn key(&self, i: usize) -> (key: &str)
        requires
            i < self.pairs().len(),
        ensures
            key@ == self.pairs()[i as int].0,
    {
        self.entries[i].0.as_str()
    }

    /// The value of entry `i`.
    pub fn value(&self, i: usize) -> (value: &T)
        requires
            i < self.pairs().len(),
        ensures
            *value == self.pairs()[i as int].1,
    {
        &self.entries[i].1
    }

    /// The place of the entry with the given key, if there is one.
    pub fn position(&self, key: &str) -> (place: Option<usize>)
        ensures
            match place {
                Some(i) => i < self.pairs().len() && self.pairs()[i as int].0 == key@,
                None => forall|i: int| 0 <= i < self.pairs().len() ==> self.pairs()[i].0 != key@,
            },
    {
        let wanted: String = key.to_owned();
        let mut i: usize = 0;
        while i < self.entries.len()
            invariant
                i <= self.entries.len(),
                wanted@ == key@,
                forall|j: int| 0 <= j < i ==> self.pairs()[j].0 != key@,
            decreases self.entries.len() - i,
        {
            if self.entries[i].0 == wanted {
                return Some(i);
            }
            i = i + 1;
        }
        None
    }

    /// The value under `key`, if there is one.
    pub fn get(&self, key: &str) -> (value: Option<&T>)
        requires
            self.wf(),
        ensures
            match value {
                Some(v) => self@.dom().contains(key@) && self@[key@] == *v,
                None => !self@.dom().contains(key@),
            },
    {
        proof {
            lemma_pairs_map_dom(self.pairs(), self.pairs().len(), key@);
        }
        match self.position(key) {
            Some(i) => {
                proof {
                    lemma_pairs_map_value(self.pairs(), self.pairs().len(), i as int);
                }
                Some(&self.entries[i].1)
            },
            None => None,
        }
    }

    /// Puts `value` under `key`, in place of what was there.
    pub fn insert(&mut self, key: String, value: T)
        requires
            old(self).wf(),
        ensures
            final(self).wf(),
            final(self)@ == old(self)@.insert(key@, value),
            final(self).pairs().len() == old(self).pairs().len() + (if old(self)@.dom().contains(
                key@,
            ) {
                0int
            } else {
                1int
            }),
    {
        proof {
            lemma_pairs_map_dom(self.pairs(), self.pairs().len(), key@);
        }
        let ghost before = self.pairs();
        match self.position(key.as_str()) {
            Some(i) => {
                self.entries.set(i, (key, value));
                let ghost after = self.pairs();
                assert(after =~= before.update(i as int, (key@, value)));
                proof {
                    lemma_update_pairs(before, before.len(), i as int, value);
                }
            },
            None => {
                self.entries.push((key, value));
                let ghost after = self.pairs();
                assert(after =~= before.push((key@, value)));
                proof {
                    lemma_pairs_map_prefix(before, after, before.len());
                }
            },
        }
    }
}

/// The map of the first `n` entries looks at no others.
pub proof fn lemma_pairs_map_prefix<T>(a: Seq<(Seq<char>, T)>, b: Seq<(Seq<char>, T)>, n: nat)
    requires
        n <= a.len(),
        n <= b.len(),
        forall|i: int| 0 <= i < n ==> a[i] == b[i],
    ensures
        pairs_map(a, n) == pairs_map(b, n),
    decreases n,
{
    if n > 0 {
        lemma_pairs_map_prefix(a, b, (n - 1) as nat);
    }
}

proof fn lemma_update_pairs<T>(pairs: Seq<(Seq<char>, T)>, n: nat, i: int, value: T)
    requires
        0 <= i < pairs.len(),
        n <= pairs.len(),
        distinct_keys(pairs),
    ensures
        pairs_map(pairs.update(i, (pairs[i].0, value)), n) == if i < n {
            pairs_map(pairs, n).insert(pairs[i].0, value)
        } else {
            pairs_map(pairs, n)
        },
    decreases n,
{
    let updated = pairs.update(i, (pairs[i].0, value));
    if n > 0 {
        lemma_update_pairs(pairs, (n - 1) as nat, i, value);
        let rest = pairs_map(pairs, (n - 1) as nat);
        if i == n - 1 {
            assert(pairs_map(updated, n) =~= rest.insert(pairs[i].0, value));
            assert(pairs_map(pairs, n).insert(pairs[i].0, value) =~= rest.insert(
                pairs[i].0,
                value,
            ));
        } else if i < n - 1 {
            assert(pairs[n - 1].0 != pairs[i].0);
            assert(pairs_map(updated, n) =~= pairs_map(pairs, n).insert(pairs[i].0, value));
        }
    }
}

} // verus!
