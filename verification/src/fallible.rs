//! Collecting an iterator of `Result`s into one `Result`: the `Vec` of all
//! the successes, or the first failure.

use vstd::prelude::*;
use vstd::std_specs::iter::IteratorSpec;
use crate::source::finite;

verus! {

/// Every item of `s` is a success.
pub open spec fn all_ok<T, E>(s: Seq<Result<T, E>>) -> bool {
    forall|i: int| 0 <= i < s.len() ==> (#[trigger] s[i]) is Ok
}

/// `p` is the position of the first failure in `s`: a failure stands at `p`
/// and only successes stand before it.
pub open spec fn first_failure_at<T, E>(s: Seq<Result<T, E>>, p: int) -> bool {
    &&& 0 <= p < s.len()
    &&& s[p] is Err
    &&& forall|i: int| 0 <= i < p ==> (#[trigger] s[i]) is Ok
}

/// The payloads of `s`, in order. Meant for an `s` in which every item is a
/// success.
pub open spec fn successes<T, E>(s: Seq<Result<T, E>>) -> Seq<T> {
    Seq::new(s.len(), |i: int| s[i]->Ok_0)
}

/// A sequence has at most one first failure.
pub proof fn lemma_first_failure_unique<T, E>(s: Seq<Result<T, E>>, p: int, q: int)
    requires
        first_failure_at(s, p),
        first_failure_at(s, q),
    ensures
        p == q,
{
}

/// A sequence either holds only successes or has a first failure, never
/// both.
pub proof fn lemma_all_ok_or_first_failure<T, E>(s: Seq<Result<T, E>>)
    ensures
        all_ok(s) <==> !exists|p: int| first_failure_at(s, p),
    decreases s.len(),
{
    if s.len() > 0 {
        let front = s.drop_last();
        lemma_all_ok_or_first_failure(front);
        if all_ok(front) {
            assert forall|i: int| 0 <= i < s.len() - 1 implies (#[trigger] s[i]) is Ok by {
                assert(front[i] is Ok);
            }
            if s.last() is Err {
                assert(first_failure_at(s, s.len() - 1));
            }
        } else {
            let p = choose|p: int| first_failure_at(front, p);
            assert forall|i: int| 0 <= i < p implies (#[trigger] s[i]) is Ok by {
                assert(front[i] is Ok);
            }
            assert(first_failure_at(s, p));
        }
    }
}

/// Takes items from `iter` up to and including its first failure, or to its
/// end where it has none.
///
/// The result is the first failure, handed on as it came, or the vector of
/// all the payloads in the order of production. After a failure at position
/// `p` the iterator is left with the items that stood behind `p`, none of
/// which has been asked for; after a success it is left with nothing.
pub fn collect_until_failure<T, E, I: Iterator<Item = Result<T, E>>>(iter: &mut I) -> (r: Result<
    Vec<T>,
    E,
>)
    requires
        finite(*old(iter)),
    ensures
        finite(*final(iter)),
        r is Ok <==> all_ok((*old(iter)).remaining()),
        r matches Ok(v) ==> v@ == successes((*old(iter)).remaining())
            && (*final(iter)).remaining().len() == 0,
        r matches Err(e) ==> exists|p: int|
            first_failure_at((*old(iter)).remaining(), p)
            && (*old(iter)).remaining()[p] == Err::<T, E>(e)
            && (*final(iter)).remaining() == (*old(iter)).remaining().skip(p + 1),
        forall|p: int| first_failure_at((*old(iter)).remaining(), p) ==> {
            &&& r == Err::<Vec<T>, E>((*old(iter)).remaining()[p]->Err_0)
            &&& (*final(iter)).remaining() == (*old(iter)).remaining().skip(p + 1)
        },
{
    let ghost s = (*iter).remaining();
    let mut v: Vec<T> = Vec::new();
    loop
        invariant
            finite(*iter),
            s == (*old(iter)).remaining(),
            v@.len() <= s.len(),
            (*iter).remaining() == s.skip(v@.len() as int),
            forall|i: int| 0 <= i < v@.len() ==> (#[trigger] s[i]) == Ok::<T, E>(v@[i]),
        decreases (*iter).decrease()->0,
    {
        match iter.next() {
            Some(Ok(item)) => {
                v.push(item);
            },
            Some(Err(e)) => {
                proof {
                    let p = v@.len() as int;
                    assert(first_failure_at(s, p));
                    assert forall|q: int| first_failure_at(s, q) implies q == p by {
                        lemma_first_failure_unique(s, p, q);
                    }
                }
                return Err(e);
            },
            None => {
                return Ok(v);
            },
        }
    }
}

/// `to_vec_result()` on iterators of `Result`s.
pub trait ToVecResult<T, E>: Iterator<Item = Result<T, E>> + Sized {
    /// Collects the payloads into a `Vec` if every item is a success, and
    /// returns the first failure otherwise. No item behind that failure is
    /// asked for. An iterator without items gives an empty vector.
    fn to_vec_result(self) -> (r: Result<Vec<T>, E>)
        requires
            finite(self),
        ensures
            r is Ok <==> all_ok(self.remaining()),
            r matches Ok(v) ==> v@ == successes(self.remaining()),
            r matches Err(e) ==> exists|p: int|
                first_failure_at(self.remaining(), p) && self.remaining()[p] == Err::<T, E>(e),
            forall|p: int| first_failure_at(self.remaining(), p)
                ==> r == Err::<Vec<T>, E>(self.remaining()[p]->Err_0),
    ;
}

impl<T, E, I: Iterator<Item = Result<T, E>>> ToVecResult<T, E> for I {
    fn to_vec_result(self) -> (r: Result<Vec<T>, E>) {
        let mut iter = self;
        collect_until_failure(&mut iter)
    }
}

} // verus!
