//! What the collectors ask of the iterator they drain.

use vstd::prelude::*;
use vstd::std_specs::iter::IteratorSpec;

verus! {

/// The iterator yields finitely many items and then reports its end: it
/// follows the laws of `next`, so that `remaining()` is the sequence of items
/// it is still going to produce, and it carries a measure that falls with
/// every item, which bounds the loop that drains it.
pub open spec fn finite<I: Iterator>(iter: I) -> bool {
    &&& iter.obeys_prophetic_iter_laws()
    &&& iter.decrease() is Some
}

} // verus!
