//! Collecting references to items into a `HashSet`.

use std::collections::HashSet;
use std::hash::Hash;
use vstd::prelude::*;
use vstd::std_specs::hash::obeys_key_model;
use vstd::std_specs::iter::IteratorSpec;
use crate::cloning::{clones_exactly, each_cloned, lemma_exact_clones};
use crate::source::finite;

verus! {

/// `listing` names the members of `set` and nothing else, in any order and
/// any number of times each: what walking over the set yields.
pub open spec fn lists<K>(listing: Seq<K>, set: Set<K>) -> bool {
    forall|k: K| listing.contains(k) <==> set.contains(k)
}

/// The set of a sequence holds exactly the values that occur in it: an item
/// that comes again adds nothing.
pub proof fn lemma_set_of_items<K>(items: Seq<K>, k: K)
    ensures
        items.to_set().contains(k) <==> exists|i: int| 0 <= i < items.len() && items[i] == k,
{
}

/// One more item at the end is one more `insert`, which changes nothing
/// where the item is in the set already.
pub proof fn lemma_set_of_push<K>(items: Seq<K>, k: K)
    ensures
        items.push(k).to_set() == items.to_set().insert(k),
        items.contains(k) ==> items.push(k).to_set() == items.to_set(),
{
    items.lemma_push_to_set_commute(k);
    if items.contains(k) {
        assert(items.to_set().insert(k) =~= items.to_set());
    }
}

/// Collapsing duplicates is idempotent: a sequence that lists the set of
/// `items` has that same set.
pub proof fn lemma_set_of_listing<K>(items: Seq<K>, listing: Seq<K>)
    requires
        lists(listing, items.to_set()),
    ensures
        listing.to_set() == items.to_set(),
{
    assert(listing.to_set() =~= items.to_set());
}

/// `to_set()` on iterators of references.
pub trait ToSet<'a, K: Eq + Hash + Clone + 'a>: Iterator<Item = &'a K> + Sized {
    /// Clones every item into a `HashSet`, which keeps one of each.
    ///
    /// The set is the set of the clones of the items; where cloning an item
    /// gives an equal value, it is the set of the items themselves.
    fn to_set(self) -> (set: HashSet<K>)
        requires
            finite(self),
        ensures
            obeys_key_model::<K>() ==> exists|items: Seq<K>|
                each_cloned(self.remaining(), items) && set@ == #[trigger] items.to_set(),
            obeys_key_model::<K>() && clones_exactly::<K>() ==> set@
                == self.remaining().unref().to_set(),
    ;
}

impl<'a, K: Eq + Hash + Clone + 'a, I: Iterator<Item = &'a K>> ToSet<'a, K> for I {
    fn to_set(self) -> (set: HashSet<K>) {
        broadcast use vstd::std_specs::hash::group_hash_axioms;

        let mut iter = self;
        let mut set: HashSet<K> = HashSet::new();
        let ghost mut items: Seq<K> = Seq::empty();
        assert(items.to_set() =~= Set::<K>::empty());
        loop
            invariant
                finite(iter),
                items.len() <= self.remaining().len(),
                iter.remaining() == self.remaining().skip(items.len() as int),
                each_cloned(self.remaining().take(items.len() as int), items),
                obeys_key_model::<K>() ==> set@ == items.to_set(),
            ensures
                each_cloned(self.remaining(), items),
                obeys_key_model::<K>() ==> set@ == items.to_set(),
            decreases iter.decrease()->0,
        {
            match iter.next() {
                Some(item) => {
                    let k = item.clone();
                    proof {
                        lemma_set_of_push(items, k);
                        items = items.push(k);
                    }
                    set.insert(k);
                },
                None => {
                    assert(self.remaining().take(items.len() as int) =~= self.remaining());
                    break ;
                },
            }
        }
        proof {
            if clones_exactly::<K>() {
                lemma_exact_clones(self.remaining(), items);
            }
        }
        set
    }
}

} // verus!
