//! A map keyed by text, kept as a list of pairs in which no key occurs twice.

use vstd::prelude::*;

verus! {

/// The map that a list of pairs stands for: a key is present where some pair
/// holds it, and maps to the value of such a pair.
pub open spec fn pairs_view<V>(pairs: Seq<(String, V)>) -> Map<Seq<char>, V> {
    Map::new(
        |k: Seq<char>| exists|i: int| 0 <= i < pairs.len() && (#[trigger] pairs[i]).0@ == k,
        |k: Seq<char>| pairs[choose|i: int| 0 <= i < pairs.len() && (#[trigger] pairs[i]).0@ == k].1,
    )
}

/// No two pairs hold the same key.
pub open spec fn distinct_keys<V>(pairs: Seq<(String, V)>) -> bool {
    forall|i: int, j: int|
        0 <= i < j < pairs.len() ==> (#[trigger] pairs[i]).0@ != (#[trigger] pairs[j]).0@
}

/// Where keys are distinct, the pair at `i` is what its key maps to.
pub proof fn lemma_pair_is_mapped<V>(pairs: Seq<(String, V)>, i: int)
    requires
        distinct_keys(pairs),
        0 <= i < pairs.len(),
    ensures
        pairs_view(pairs).contains_key(pairs[i].0@),
        pairs_view(pairs)[pairs[i].0@] == pairs[i].1,
{
    let k = pairs[i].0@;
    let c = choose|c: int| 0 <= c < pairs.len() && (#[trigger] pairs[c]).0@ == k;
    assert(c == i);
}

/// Where keys are distinct, the map has as many keys as there are pairs.
pub proof fn lemma_key_count<V>(pairs: Seq<(String, V)>)
    requires
        distinct_keys(pairs),
    ensures
        pairs_view(pairs).dom().finite(),
        pairs_view(pairs).dom().len() == pairs.len(),
    decreases pairs.len(),
{
    if pairs.len() == 0 {
        assert(pairs_view(pairs).dom() =~= Set::<Seq<char>>::empty());
    } else {
        let rest = pairs.drop_last();
        let k = pairs.last().0@;
        lemma_key_count(rest);
        assert(pairs_view(pairs).dom() =~= pairs_view(rest).dom().insert(k)) by {
            assert forall|x: Seq<char>| pairs_view(pairs).dom().contains(x) <==> pairs_view(
                rest,
            ).dom().insert(k).contains(x) by {
                if pairs_view(pairs).dom().contains(x) {
                    let i = choose|i: int| 0 <= i < pairs.len() && (#[trigger] pairs[i]).0@ == x;
                    if i < rest.len() {
                        assert(rest[i].0@ == x);
                    }
                }
            }
        }
    }
}

/// A map from text to `V`.
pub struct TextMap<V> {
    pairs: Vec<(String, V)>,
}

impl<V> View for TextMap<V> {
    type V = Map<Seq<char>, V>;

    closed spec fn view(&self) -> Map<Seq<char>, V> {
        pairs_view(self.pairs@)
    }
}

impl<V> TextMap<V> {
    /// No key occurs twice.
    #[verifier::type_invariant]
    pub closed spec fn inv(&self) -> bool {
        distinct_keys(self.pairs@)
    }

    /// An empty map.
    pub fn new() -> (map: Self)
        ensures
            map@ == Map::<Seq<char>, V>::empty(),
    {
        let map = TextMap { pairs: Vec::new() };
        map
    }

    /// Where `key` stands in the list, if it does.
    fn position(&self, key: &String) -> (pos: Option<usize>)
        ensures
            match pos {
                Some(i) => i < self.pairs.len() && self.pairs[i as int].0@ == key@,
                None => forall|i: int| 0 <= i < self.pairs.len() ==> (#[trigger] self.pairs[i]).0@ != key@,
            },
    {
        let mut n: usize = 0;
        while n < self.pairs.len()
            invariant
                n <= self.pairs.len(),
                forall|i: int| 0 <= i < n ==> (#[trigger] self.pairs[i]).0@ != key@,
            decreases self.pairs.len() - n,
        {
            if self.pairs[n].0 == *key {
                return Some(n);
            }
            n = n + 1;
        }
        None
    }

    /// The number of keys.
    pub fn len(&self) -> (n: usize)
        ensures
            n == self@.dom().len(),
            n == self.pairs().len(),
            self@.dom().finite(),
    {
        proof {
            use_type_invariant(self);
            lemma_key_count(self.pairs@);
        }
        self.pairs.len()
    }

    /// The pairs of the map, each key once, in no particular order.
    pub closed spec fn pairs(&self) -> Seq<(String, V)> {
        self.pairs@
    }

    /// The pairs are exactly what the map holds.
    pub proof fn lemma_pairs(&self)
        requires
            self.inv(),
        ensures
            distinct_keys(self.pairs()),
            self@ == pairs_view(self.pairs()),
    {
    }

    /// The key and value of the pair at `i`.
    pub fn pair_at(&self, i: usize) -> (pair: (&String, &V))
        requires
            i < self.pairs().len(),
        ensures
            *pair.0 == self.pairs()[i as int].0,
            *pair.1 == self.pairs()[i as int].1,
            self@.contains_key(pair.0@),
            self@[pair.0@] == *pair.1,
    {
        proof {
            use_type_invariant(self);
            lemma_pair_is_mapped(self.pairs@, i as int);
        }
        (&self.pairs[i].0, &self.pairs[i].1)
    }

    /// The value under `key`, if there is one.
    pub fn get(&self, key: &String) -> (found: Option<&V>)
        ensures
            match found {
                Some(v) => self@.contains_key(key@) && self@[key@] == *v,
                None => !self@.contains_key(key@),
            },
    {
        proof {
            use_type_invariant(self);
        }
        match self.position(key) {
            Some(i) => {
                proof {
                    lemma_pair_is_mapped(self.pairs@, i as int);
                }
                Some(&self.pairs[i].1)
            },
            None => None,
        }
    }

    /// Whether `key` is present.
    pub fn contains_key(&self, key: &String) -> (found: bool)
        ensures
            found == self@.contains_key(key@),
    {
        self.position(key).is_some()
    }

    /// Puts `value` under `key` and hands back what stood there.
    pub fn insert(&mut self, key: String, value: V) -> (prev: Option<V>)
        ensures
            final(self)@ == old(self)@.insert(key@, value),
            prev == if old(self)@.contains_key(key@) {
                Some(old(self)@[key@])
            } else {
                None
            },
    {
        proof {
            use_type_invariant(&*self);
        }
        let pos = self.position(&key);
        let ghost before = self.pairs@;
        let ghost k = key@;
        let mut pairs: Vec<(String, V)> = Vec::new();
        core::mem::swap(&mut self.pairs, &mut pairs);
        let prev = match pos {
            Some(i) => {
                proof {
                    lemma_pair_is_mapped(before, i as int);
                }
                pairs.push((key, value));
                let old_pair = pairs.swap_remove(i);
                Some(old_pair.1)
            },
            None => {
                pairs.push((key, value));
                None
            },
        };
        proof {
            let after = pairs@;
            assert forall|x: Seq<char>| #[trigger]
                pairs_view(after).contains_key(x) <==> pairs_view(before).insert(k, value).contains_key(x) by {
                if pairs_view(before).contains_key(x) {
                    let i = choose|i: int| 0 <= i < before.len() && (#[trigger] before[i]).0@ == x;
                    assert(after[i].0@ == x);
                }
                if x == k {
                    if pos is Some {
                        assert(after[pos->0 as int].0@ == k);
                    } else {
                        assert(after[after.len() - 1].0@ == k);
                    }
                }
            }
        }
        core::mem::swap(&mut self.pairs, &mut pairs);
        prev
    }
}

} // verus!
