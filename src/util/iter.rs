//! Joining one iterator to another.

use vstd::prelude::*;
use vstd::std_specs::iter::IteratorSpec;

verus! {

/// An iterator that has been joined to an optional second one.
pub struct Chained<A, B> {
    a: A,
    b: Option<B>,
    // Whether the first iterator has not been used up yet.
    curr_a: bool,
}

impl<A, B> Chained<A, B> {
    /// The first iterator.
    pub closed spec fn first(&self) -> A {
        self.a
    }

    /// The optional second iterator.
    pub closed spec fn second(&self) -> Option<B> {
        self.b
    }

    /// Whether the first iterator is the one being read.
    pub closed spec fn on_first(&self) -> bool {
        self.curr_a
    }

    /// Joins `a` to the optional `b`, starting with `a`.
    pub fn new(a: A, b: Option<B>) -> (r: Chained<A, B>)
        ensures
            r.first() == a,
            r.second() == b,
            r.on_first(),
    {
        Chained { a, b, curr_a: true }
    }
}

impl<I, A: Iterator<Item = I>, B: Iterator<Item = I>> Chained<A, B> {
    /// The next item: from the first iterator until it is used up, then from
    /// the second, if there is one.
    pub fn next(&mut self) -> (r: Option<I>)
        ensures
            // An item left in the first iterator comes next, and is taken
            // from it; the second is left as it is.
            old(self).on_first()
                && old(self).first().obeys_prophetic_iter_laws()
                && old(self).first().remaining().len() > 0
                ==> r == Some(old(self).first().remaining()[0])
                && final(self).on_first()
                && final(self).first().obeys_prophetic_iter_laws()
                && final(self).first().remaining() == old(self).first().remaining().drop_first()
                && final(self).second() == old(self).second(),
            // Once the first iterator is found used up, it is left for good.
            old(self).on_first()
                && old(self).first().obeys_prophetic_iter_laws()
                && old(self).first().remaining().len() == 0
                ==> !final(self).on_first(),
            // After the first iterator, the second's items come, if any, and
            // are taken from it.
            (!old(self).on_first()
                || (old(self).first().obeys_prophetic_iter_laws()
                    && old(self).first().remaining().len() == 0))
                ==> match old(self).second() {
                    Some(b) => b.obeys_prophetic_iter_laws() ==> {
                        &&& final(self).second() is Some
                        &&& final(self).second()->0.obeys_prophetic_iter_laws()
                        &&& if b.remaining().len() > 0 {
                            &&& r == Some(b.remaining()[0])
                            &&& final(self).second()->0.remaining() == b.remaining().drop_first()
                        } else {
                            &&& r is None
                            &&& final(self).second()->0.remaining() == b.remaining()
                        }
                    },
                    None => r is None && final(self).second() is None,
                },
    {
        if self.curr_a {
            match self.a.next() {
                Some(item) => {
                    return Some(item);
                },
                None => {
                    self.curr_a = false;
                },
            }
        }
        match &mut self.b {
            Some(b) => b.next(),
            None => None,
        }
    }
}

} // verus!
