//! Collecting into a `Vec`.

use vstd::prelude::*;
use vstd::std_specs::iter::IteratorSpec;
use crate::source::finite;

verus! {

/// `to_vec()` on iterators: `collect` with the container already chosen.
pub trait ToVec<T>: Iterator<Item = T> + Sized {
    /// Drains the iterator into a `Vec`. The vector holds every item the
    /// iterator had left, duplicates included, in the order of production.
    fn to_vec(self) -> (v: Vec<T>)
        requires
            finite(self),
        ensures
            v@ == self.remaining(),
    ;
}

impl<T, I: Iterator<Item = T>> ToVec<T> for I {
    fn to_vec(self) -> (v: Vec<T>) {
        let mut iter = self;
        let mut v: Vec<T> = Vec::new();
        loop
            invariant
                finite(iter),
                v@ + iter.remaining() == self.remaining(),
            ensures
                v@ == self.remaining(),
            decreases iter.decrease()->0,
        {
            match iter.next() {
                Some(item) => {
                    v.push(item);
                },
                None => {
                    break ;
                },
            }
        }
        v
    }
}

} // verus!
