//! Collecting references to key/value pairs into a `HashMap`.

use std::collections::HashMap;
use std::hash::Hash;
use vstd::prelude::*;
use vstd::std_specs::hash::obeys_key_model;
use vstd::std_specs::iter::IteratorSpec;
use crate::cloning::{clones_exactly, each_pair_cloned, lemma_exact_pair_clones};
use crate::source::finite;

verus! {

/// The key `k` occurs in `pairs`.
pub open spec fn has_key<K, V>(pairs: Seq<(K, V)>, k: K) -> bool {
    exists|i: int| 0 <= i < pairs.len() && (#[trigger] pairs[i]).0 == k
}

/// `i` is the last position of `pairs` at which the key `k` stands.
pub open spec fn last_position_of<K, V>(pairs: Seq<(K, V)>, k: K, i: int) -> bool {
    &&& 0 <= i < pairs.len()
    &&& pairs[i].0 == k
    &&& forall|j: int| i < j < pairs.len() ==> (#[trigger] pairs[j]).0 != k
}

/// The map that a sequence of pairs describes. Its keys are the keys that
/// occur in `pairs`; each is mapped to the value that stands beside its last
/// occurrence, so that of two pairs with one key the later one wins.
pub open spec fn map_of<K, V>(pairs: Seq<(K, V)>) -> Map<K, V> {
    Map::new(
        |k: K| has_key(pairs, k),
        |k: K| pairs[choose|i: int| last_position_of(pairs, k, i)].1,
    )
}

/// A key that occurs from position `i` on has a last position.
proof fn lemma_last_position_from<K, V>(pairs: Seq<(K, V)>, k: K, i: int)
    requires
        0 <= i < pairs.len(),
        pairs[i].0 == k,
    ensures
        exists|l: int| last_position_of(pairs, k, l),
    decreases pairs.len() - i,
{
    if exists|j: int| i < j < pairs.len() && (#[trigger] pairs[j]).0 == k {
        let j = choose|j: int| i < j < pairs.len() && (#[trigger] pairs[j]).0 == k;
        lemma_last_position_from(pairs, k, j);
    } else {
        assert(last_position_of(pairs, k, i));
    }
}

/// Last write wins: the pair at the last position of a key gives the value
/// that the map holds for that key.
pub proof fn lemma_map_of_last_wins<K, V>(pairs: Seq<(K, V)>, k: K, i: int)
    requires
        last_position_of(pairs, k, i),
    ensures
        map_of(pairs).contains_key(k),
        map_of(pairs)[k] == pairs[i].1,
{
    // The position that the map reads its value from is a last position of
    // `k` as well, and there is only one.
    let c = choose|l: int| last_position_of(pairs, k, l);
    assert(c == i);
}

/// The map holds exactly the keys that occur, and each of them has a last
/// position, whose value the map holds.
pub proof fn lemma_map_of_entries<K, V>(pairs: Seq<(K, V)>, k: K)
    ensures
        map_of(pairs).contains_key(k) <==> has_key(pairs, k),
        has_key(pairs, k) ==> exists|i: int|
            last_position_of(pairs, k, i) && map_of(pairs)[k] == (#[trigger] pairs[i]).1,
{
    if has_key(pairs, k) {
        let i = choose|i: int| 0 <= i < pairs.len() && (#[trigger] pairs[i]).0 == k;
        lemma_last_position_from(pairs, k, i);
        let l = choose|l: int| last_position_of(pairs, k, l);
        lemma_map_of_last_wins(pairs, k, l);
    }
}

/// No pairs, no entries.
pub proof fn lemma_map_of_empty<K, V>()
    ensures
        map_of(Seq::<(K, V)>::empty()) == Map::<K, V>::empty(),
{
    assert(map_of(Seq::<(K, V)>::empty()) =~= Map::<K, V>::empty());
}

/// One more pair at the end is one more `insert`: it adds the key or, where
/// the map has it already, replaces its value.
pub proof fn lemma_map_of_push<K, V>(pairs: Seq<(K, V)>, k: K, v: V)
    ensures
        map_of(pairs.push((k, v))) == map_of(pairs).insert(k, v),
{
    let longer = pairs.push((k, v));
    let n = pairs.len() as int;
    assert(longer[n] == (k, v));
    // The keys: those of `pairs`, and `k`.
    assert forall|x: K| #[trigger] map_of(longer).contains_key(x) <==> map_of(pairs).insert(
        k,
        v,
    ).contains_key(x) by {
        if has_key(pairs, x) {
            let i = choose|i: int| 0 <= i < pairs.len() && (#[trigger] pairs[i]).0 == x;
            assert(longer[i] == pairs[i]);
        }
    }
    // The values: `v` for `k`, whose last position is now the new one; for
    // any other key the last position is where it was.
    assert forall|x: K| #[trigger] map_of(longer).contains_key(x) implies map_of(longer)[x]
        == map_of(pairs).insert(k, v)[x] by {
        if x == k {
            lemma_map_of_last_wins(longer, k, n);
        } else {
            let i = choose|i: int| 0 <= i < longer.len() && (#[trigger] longer[i]).0 == x;
            lemma_last_position_from(pairs, x, i);
            let l = choose|l: int| last_position_of(pairs, x, l);
            assert(last_position_of(longer, x, l));
            lemma_map_of_last_wins(longer, x, l);
            lemma_map_of_last_wins(pairs, x, l);
        }
    }
}

/// `to_map()` on iterators of references to pairs.
pub trait ToMap<'a, K: Eq + Hash + Clone + 'a, V: Clone + 'a>: Iterator<Item = &'a (K, V)> + Sized {
    /// Clones every pair into a `HashMap`. Where a key comes more than once,
    /// the map keeps the value of its last occurrence.
    ///
    /// The map is the one described by the clones of the pairs, taken in the
    /// order of production; where cloning a key and cloning a value give
    /// equal values, it is the map described by the pairs themselves.
    fn to_map(self) -> (m: HashMap<K, V>)
        requires
            finite(self),
        ensures
            obeys_key_model::<K>() ==> exists|pairs: Seq<(K, V)>|
                each_pair_cloned(self.remaining(), pairs) && m@ == #[trigger] map_of(pairs),
            obeys_key_model::<K>() && clones_exactly::<K>() && clones_exactly::<V>() ==> m@
                == map_of(self.remaining().unref()),
    ;
}

impl<'a, K: Eq + Hash + Clone + 'a, V: Clone + 'a, I: Iterator<Item = &'a (K, V)>> ToMap<
    'a,
    K,
    V,
> for I {
    fn to_map(self) -> (m: HashMap<K, V>) {
        broadcast use vstd::std_specs::hash::group_hash_axioms;

        let mut iter = self;
        let mut m: HashMap<K, V> = HashMap::new();
        let ghost mut pairs: Seq<(K, V)> = Seq::empty();
        proof {
            lemma_map_of_empty::<K, V>();
        }
        loop
            invariant
                finite(iter),
                pairs.len() <= self.remaining().len(),
                iter.remaining() == self.remaining().skip(pairs.len() as int),
                each_pair_cloned(self.remaining().take(pairs.len() as int), pairs),
                obeys_key_model::<K>() ==> m@ == map_of(pairs),
            ensures
                each_pair_cloned(self.remaining(), pairs),
                obeys_key_model::<K>() ==> m@ == map_of(pairs),
            decreases iter.decrease()->0,
        {
            match iter.next() {
                Some(pair) => {
                    let k = pair.0.clone();
                    let v = pair.1.clone();
                    proof {
                        lemma_map_of_push(pairs, k, v);
                        pairs = pairs.push((k, v));
                    }
                    m.insert(k, v);
                },
                None => {
                    assert(self.remaining().take(pairs.len() as int) =~= self.remaining());
                    break ;
                },
            }
        }
        proof {
            if clones_exactly::<K>() && clones_exactly::<V>() {
                lemma_exact_pair_clones(self.remaining(), pairs);
            }
        }
        m
    }
}

} // verus!
