//! The evenness filter: a capability that every base producer satisfies.
//!
//! `EvenStream` is an extension capability over [`IntStream`]: its one
//! operation is fully defined in terms of the base operation, so a blanket
//! implementation gives it to every producer at once, with no new state and
//! nothing to hand-write per producer.

use vstd::prelude::*;

use crate::stream::Count;
use crate::stream::IntStream;
use crate::stream::StreamModel;
use crate::stream::chain;
use crate::stream::wrap_succ;

verus! {

/// A run of the evenness filter from `start` to `end`: at least one base
/// call was made, every element produced before the last call was odd, and
/// the last call produced `r` — an even element, or absence.
pub open spec fn even_run<S: StreamModel>(start: S, end: S, r: Option<i32>) -> bool {
    exists|states: Seq<S>, outs: Seq<Option<i32>>|
        {
            &&& #[trigger] chain(states, outs)
            &&& states.first() == start
            &&& states.last() == end
            &&& outs.len() >= 1
            &&& forall|m: int|
                0 <= m < outs.len() - 1 ==> ((#[trigger] outs[m]) matches Some(v) && v % 2 != 0)
            &&& outs.last() == r
            &&& r matches Some(i) ==> i % 2 == 0
        }
}

/// The extension capability: produce the next even element.
pub trait EvenStream: IntStream {
    /// Produce the next even element, silently skipping odd ones; absence is
    /// passed through.
    fn next_even(&mut self) -> (r: Option<i32>)
        requires
            old(self).even_ok(),
        ensures
            old(self).exhausted() ==> r is None,
            r is None ==> final(self).exhausted(),
            r is None ==> even_run(*old(self), *final(self), None::<i32>),
            r matches Some(i) ==> i % 2 == 0 && even_run(*old(self), *final(self), Some(i)),
    {
        let ghost mut states = seq![*old(self)];
        let ghost mut outs = Seq::<Option<i32>>::empty();
        loop
            invariant
                self.even_ok(),
                old(self).exhausted() ==> self.exhausted(),
                chain(states, outs),
                states.first() == *old(self),
                states.last() == *self,
                forall|m: int|
                    0 <= m < outs.len() ==> ((#[trigger] outs[m]) matches Some(v) && v % 2 != 0),
            decreases self.even_fuel(),
        {
            let ghost prev = *self;
            let out = self.next();
            proof {
                states = states.push(*self);
                outs = outs.push(out);
            }
            match out {
                None => {
                    proof {
                        assert(even_run(*old(self), *self, None::<i32>)) by {
                            assert(chain(states, outs));
                        }
                    }
                    return None;
                },
                Some(i) => {
                    proof {
                        if old(self).exhausted() {
                            Self::step_from_exhausted(prev, *self, Some(i));
                        }
                    }
                    if i % 2 == 0 {
                        proof {
                            assert(even_run(*old(self), *self, Some(i))) by {
                                assert(chain(states, outs));
                            }
                        }
                        return Some(i);
                    }
                    proof {
                        Self::step_even_progress(prev, *self, Some(i));
                    }
                },
            }
        }
    }
}

/// Every base producer has the evenness filter for free.
impl<T: IntStream> EvenStream for T {

}

/// The evenness filter on the counting producer skips at most one element:
/// it returns the cursor itself where the cursor was even, else the cursor's
/// wrapping successor, and leaves the cursor one past the element it
/// returned.
pub proof fn lemma_count_even_run(start: Count, end: Count, v: i32)
    requires
        even_run(start, end, Some(v)),
    ensures
        v == if start.0 % 2 == 0 {
            start.0
        } else {
            wrap_succ(start.0)
        },
        end.0 == wrap_succ(v),
{
    let (states, outs) = choose|states: Seq<Count>, outs: Seq<Option<i32>>|
        {
            &&& #[trigger] chain(states, outs)
            &&& states.first() == start
            &&& states.last() == end
            &&& outs.len() >= 1
            &&& forall|m: int|
                0 <= m < outs.len() - 1 ==> ((#[trigger] outs[m]) matches Some(u) && u % 2 != 0)
            &&& outs.last() == Some(v)
            &&& v % 2 == 0
        };
    let last = outs.len() - 1;
    assert(Count::step(states[last], states[last + 1], outs[last]));
    if last > 0 {
        let k0: int = 0;
        assert((outs[k0]) matches Some(u) && u % 2 != 0);
        assert(Count::step(states[k0], states[k0 + 1], outs[k0]));
        if last > 1 {
            let k1: int = 1;
            assert((outs[k1]) matches Some(u) && u % 2 != 0);
            assert(Count::step(states[k1], states[k1 + 1], outs[k1]));
        }
    }
}

} // verus!
