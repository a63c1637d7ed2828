//! Cards as a pair of suit and rank, ordered relative to a context.

use std::cmp::Ordering;
use vstd::prelude::*;

pub mod standard;

verus! {

/// Ordering of two values relative to a context supplied by the caller.
///
/// Unlike `Ord`, the result may depend on `info`, and an implementation need
/// not be a total order: it only has to be a function of its three arguments.
pub trait ConditionalOrd {
    /// The context a comparison is made in.
    type Info;

    /// The ordering of `self` relative to `other` in the context `info`.
    spec fn compare_spec(&self, other: &Self, info: &Self::Info) -> Ordering;

    fn compare(&self, other: &Self, info: &Self::Info) -> (o: Ordering)
        ensures
            o == self.compare_spec(other, info),
    ;
}

/// A playing card: an immutable pair of suit and rank.
#[derive(Debug, Clone, Copy)]
pub struct BaseCard<S, R> where S: ConditionalOrd + Sized, R: ConditionalOrd + Sized {
    pub suit: S,
    pub rank: R,
}

impl<S, R> BaseCard<S, R> where S: ConditionalOrd + Sized, R: ConditionalOrd + Sized {
    pub fn new(suit: S, rank: R) -> (card: BaseCard<S, R>)
        ensures
            card.suit == suit,
            card.rank == rank,
    {
        BaseCard { suit, rank }
    }
}

} // verus!
