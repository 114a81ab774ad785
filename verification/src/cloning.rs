//! How the items that a collector clones relate to the items it was handed.

use vstd::prelude::*;

verus! {

/// `to` holds, position by position, a clone of each item of `from`.
pub open spec fn each_cloned<T: Clone>(from: Seq<&T>, to: Seq<T>) -> bool {
    &&& to.len() == from.len()
    &&& forall|i: int| 0 <= i < from.len() ==> cloned(*from[i], #[trigger] to[i])
}

/// `to` holds, position by position, a pair made of a clone of the key and a
/// clone of the value of each pair of `from`.
pub open spec fn each_pair_cloned<K: Clone, V: Clone>(from: Seq<&(K, V)>, to: Seq<(K, V)>) -> bool {
    &&& to.len() == from.len()
    &&& forall|i: int|
        0 <= i < from.len() ==> {
            &&& cloned(from[i].0, (#[trigger] to[i]).0)
            &&& cloned(from[i].1, to[i].1)
        }
}

/// Cloning a `T` gives a value equal to the one cloned. This holds of the
/// integers, `bool`, `char` and shared references; of another type it is
/// known only where its `clone` says so.
pub open spec fn clones_exactly<T: Clone>() -> bool {
    forall|a: T, b: T| cloned(a, b) ==> a == b
}

/// Where clones are exact, the clones of a sequence of references are the
/// values referred to.
pub proof fn lemma_exact_clones<T: Clone>(from: Seq<&T>, to: Seq<T>)
    requires
        clones_exactly::<T>(),
        each_cloned(from, to),
    ensures
        to == from.unref(),
{
    assert(to =~= from.unref());
}

/// Where the clones of keys and of values are exact, the clones of a
/// sequence of references to pairs are the pairs referred to.
pub proof fn lemma_exact_pair_clones<K: Clone, V: Clone>(from: Seq<&(K, V)>, to: Seq<(K, V)>)
    requires
        clones_exactly::<K>(),
        clones_exactly::<V>(),
        each_pair_cloned(from, to),
    ensures
        to == from.unref(),
{
    assert(to =~= from.unref());
}

} // verus!
