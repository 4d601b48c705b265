//! A map from string keys to values, kept as a vector of pairs with distinct keys.
use vstd::prelude::*;

verus! {

pub struct Entries<V> {
    pub(crate) items: Vec<(String, V)>,
}

/// The map that a list of pairs stands for; a later pair wins over an earlier one.
pub open spec fn pairs_map<V>(e: Seq<(String, V)>) -> Map<Seq<char>, V>
    decreases e.len(),
{
    if e.len() == 0 {
        Map::empty()
    } else {
        pairs_map(e.drop_last()).insert(e.last().0@, e.last().1)
    }
}

/// No key occurs twice.
pub open spec fn distinct_keys<V>(e: Seq<(String, V)>) -> bool {
    forall|i: int, j: int| 0 <= i < j < e.len() ==> #[trigger] e[i].0@ != #[trigger] e[j].0@
}

pub proof fn lemma_pairs_map_contains<V>(e: Seq<(String, V)>, k: Seq<char>)
    ensures
        pairs_map(e).contains_key(k) <==> exists|i: int| 0 <= i < e.len() && #[trigger] e[i].0@ == k,
    decreases e.len(),
{
    if e.len() > 0 {
        lemma_pairs_map_contains(e.drop_last(), k);
        if pairs_map(e).contains_key(k) && e.last().0@ != k {
            let i = choose|i: int| 0 <= i < e.drop_last().len() && #[trigger] e.drop_last()[i].0@ == k;
            assert(e[i].0@ == k);
        }
        if exists|i: int| 0 <= i < e.len() && #[trigger] e[i].0@ == k {
            let i = choose|i: int| 0 <= i < e.len() && #[trigger] e[i].0@ == k;
            if i < e.len() - 1 {
                assert(e.drop_last()[i].0@ == k);
            }
        }
    }
}

pub proof fn lemma_pairs_map_value<V>(e: Seq<(String, V)>, i: int)
    requires
        distinct_keys(e),
        0 <= i < e.len(),
    ensures
        pairs_map(e).contains_key(e[i].0@),
        pairs_map(e)[e[i].0@] == e[i].1,
    decreases e.len(),
{
    if i < e.len() - 1 {
        assert(distinct_keys(e.drop_last()));
        lemma_pairs_map_value(e.drop_last(), i);
        assert(e.drop_last()[i] == e[i]);
    }
}

pub proof fn lemma_pairs_map_len<V>(e: Seq<(String, V)>)
    requires
        distinct_keys(e),
    ensures
        pairs_map(e).dom().finite(),
        pairs_map(e).dom().len() == e.len(),
    decreases e.len(),
{
    if e.len() > 0 {
        assert(distinct_keys(e.drop_last()));
        lemma_pairs_map_len(e.drop_last());
        lemma_pairs_map_contains(e.drop_last(), e.last().0@);
        if pairs_map(e.drop_last()).contains_key(e.last().0@) {
            let i = choose|i: int| 0 <= i < e.drop_last().len() && #[trigger] e.drop_last()[i].0@ == e.last().0@;
            assert(e[i].0@ == e[e.len() - 1].0@);
        }
    }
}

pub proof fn lemma_pairs_map_push<V>(e: Seq<(String, V)>, k: String, v: V)
    ensures
        pairs_map(e.push((k, v))) == pairs_map(e).insert(k@, v),
{
    assert(e.push((k, v)).drop_last() == e);
}

pub proof fn lemma_pairs_map_update<V>(e: Seq<(String, V)>, i: int, k: String, v: V)
    requires
        distinct_keys(e),
        0 <= i < e.len(),
        e[i].0@ == k@,
    ensures
        distinct_keys(e.update(i, (k, v))),
        pairs_map(e.update(i, (k, v))) == pairs_map(e).insert(k@, v),
    decreases e.len(),
{
    let e2 = e.update(i, (k, v));
    assert(distinct_keys(e2));
    if i == e.len() - 1 {
        assert(e2.drop_last() == e.drop_last());
        assert(pairs_map(e) == pairs_map(e.drop_last()).insert(k@, e[i].1));
        assert(pairs_map(e2) =~= pairs_map(e).insert(k@, v));
    } else {
        assert(distinct_keys(e.drop_last()));
        lemma_pairs_map_update(e.drop_last(), i, k, v);
        assert(e2.drop_last() == e.drop_last().update(i, (k, v)));
        assert(e.last().0@ != k@);
        assert(pairs_map(e2) =~= pairs_map(e).insert(k@, v));
    }
}

pub proof fn lemma_pairs_map_remove<V>(e: Seq<(String, V)>, i: int)
    requires
        distinct_keys(e),
        0 <= i < e.len(),
    ensures
        distinct_keys(e.remove(i)),
        pairs_map(e.remove(i)) == pairs_map(e).remove(e[i].0@),
    decreases e.len(),
{
    let e2 = e.remove(i);
    let k = e[i].0@;
    assert(distinct_keys(e2)) by {
        assert forall|a: int, b: int| 0 <= a < b < e2.len() implies #[trigger] e2[a].0@ != #[trigger] e2[b].0@ by {
            let a0 = if a < i { a } else { a + 1 };
            let b0 = if b < i { b } else { b + 1 };
            assert(e2[a] == e[a0]);
            assert(e2[b] == e[b0]);
        }
    }
    if i == e.len() - 1 {
        assert(e2 == e.drop_last());
        lemma_pairs_map_contains(e.drop_last(), k);
        if pairs_map(e.drop_last()).contains_key(k) {
            let j = choose|j: int| 0 <= j < e.drop_last().len() && #[trigger] e.drop_last()[j].0@ == k;
            assert(e[j].0@ == e[i].0@);
        }
        assert(pairs_map(e2) =~= pairs_map(e).remove(k));
    } else {
        assert(distinct_keys(e.drop_last()));
        lemma_pairs_map_remove(e.drop_last(), i);
        assert(e2.drop_last() == e.drop_last().remove(i));
        assert(e2.last() == e.last());
        assert(e.last().0@ != k);
        assert(pairs_map(e2) =~= pairs_map(e).remove(k));
    }
}

impl<V> Entries<V> {
    pub closed spec fn view(&self) -> Map<Seq<char>, V> {
        pairs_map(self.items@)
    }

    pub closed spec fn wf(&self) -> bool {
        distinct_keys(self.items@)
    }

    /// The pairs in the order in which their keys were first inserted.
    pub closed spec fn pairs(&self) -> Seq<(String, V)> {
        self.items@
    }

    pub proof fn lemma_pairs(&self)
        requires
            self.wf(),
        ensures
            forall|i: int| 0 <= i < self.pairs().len() ==> #[trigger] self.view().contains_key(self.pairs()[i].0@) && self.view()[self.pairs()[i].0@] == self.pairs()[i].1,
            forall|k: Seq<char>| #[trigger] self.view().contains_key(k) ==> exists|i: int| 0 <= i < self.pairs().len() && #[trigger] self.pairs()[i].0@ == k,
            self.view().dom().finite(),
            self.view().dom().len() == self.pairs().len(),
            forall|i: int, j: int| 0 <= i < j < self.pairs().len() ==> #[trigger] self.pairs()[i].0@
                != #[trigger] self.pairs()[j].0@,
    {
        assert forall|i: int| 0 <= i < self.pairs().len() implies #[trigger] self.view().contains_key(self.pairs()[i].0@) && self.view()[self.pairs()[i].0@] == self.pairs()[i].1 by {
            lemma_pairs_map_value(self.items@, i);
        }
        assert forall|k: Seq<char>| #[trigger] self.view().contains_key(k) implies exists|i: int| 0 <= i < self.pairs().len() && #[trigger] self.pairs()[i].0@ == k by {
            lemma_pairs_map_contains(self.items@, k);
            let i = choose|i: int| 0 <= i < self.items@.len() && #[trigger] self.items@[i].0@ == k;
            assert(self.pairs()[i].0@ == k);
        }
        lemma_pairs_map_len(self.items@);
    }

    pub fn new() -> (e: Self)
        ensures
            e.wf(),
            e.view() == Map::<Seq<char>, V>::empty(),
    {
        Entries { items: Vec::new() }
    }

    /// Index of the pair with key `key`.
    fn find(&self, key: &str) -> (r: Option<usize>)
        requires
            self.wf(),
        ensures
            r is None <==> !self.view().contains_key(key@),
            r matches Some(i) ==> i < self.items.len() && self.items@[i as int].0@ == key@,
    {
        let wanted = key.to_owned();
        let mut i: usize = 0;
        while i < self.items.len()
            invariant
                i <= self.items.len(),
                wanted@ == key@,
                forall|j: int| 0 <= j < i ==> self.items@[j].0@ != key@,
            decreases self.items.len() - i,
        {
            if self.items[i].0 == wanted {
                proof {
                    lemma_pairs_map_contains(self.items@, key@);
                }
                return Some(i);
            }
            i = i + 1;
        }
        proof {
            lemma_pairs_map_contains(self.items@, key@);
        }
        None
    }

    pub fn contains(&self, key: &str) -> (b: bool)
        requires
            self.wf(),
        ensures
            b == self.view().contains_key(key@),
    {
        self.find(key).is_some()
    }

    pub fn get(&self, key: &str) -> (r: Option<&V>)
        requires
            self.wf(),
        ensures
            r is Some == self.view().contains_key(key@),
            r matches Some(v) ==> *v == self.view()[key@],
    {
        match self.find(key) {
            Some(i) => {
                proof {
                    lemma_pairs_map_value(self.items@, i as int);
                }
                Some(&self.items[i].1)
            },
            None => None,
        }
    }

    /// Sets the value of `key`, keeping the position of a key that was there.
    pub fn insert(&mut self, key: String, value: V)
        requires
            old(self).wf(),
        ensures
            final(self).wf(),
            final(self).view() == old(self).view().insert(key@, value),
    {
        match self.find(key.as_str()) {
            Some(i) => {
                proof {
                    lemma_pairs_map_update(self.items@, i as int, key, value);
                }
                self.items.set(i, (key, value));
            },
            None => {
                proof {
                    lemma_pairs_map_push(self.items@, key, value);
                    lemma_pairs_map_contains(self.items@, key@);
                }
                self.items.push((key, value));
            },
        }
    }

    pub fn remove(&mut self, key: &str)
        requires
            old(self).wf(),
        ensures
            final(self).wf(),
            final(self).view() == old(self).view().remove(key@),
    {
        match self.find(key) {
            Some(i) => {
                proof {
                    lemma_pairs_map_remove(self.items@, i as int);
                }
                self.items.remove(i);
            },
            None => {
                assert(old(self).view().remove(key@) =~= old(self).view());
            },
        }
    }

    pub fn clear(&mut self)
        ensures
            final(self).wf(),
            final(self).view() == Map::<Seq<char>, V>::empty(),
    {
        self.items.clear();
    }

    pub fn len(&self) -> (n: usize)
        requires
            self.wf(),
        ensures
            n == self.view().dom().len(),
    {
        proof {
            lemma_pairs_map_len(self.items@);
        }
        self.items.len()
    }

    pub fn key_at(&self, i: usize) -> (k: &String)
        requires
            i < self.pairs().len(),
        ensures
            *k == self.pairs()[i as int].0,
    {
        &self.items[i].0
    }

    pub fn value_at(&self, i: usize) -> (v: &V)
        requires
            i < self.pairs().len(),
        ensures
            *v == self.pairs()[i as int].1,
    {
        &self.items[i].1
    }

    pub fn count(&self) -> (n: usize)
        ensures
            n == self.pairs().len(),
    {
        self.items.len()
    }
}

} // verus!
