//! The associated-output variant of the protocol.
//!
//! [`Stream`] generalizes the base capability so that the produced element
//! type is chosen by each producer, as an associated type. The demonstrated
//! producer is a mutable backing vector whose `next` pops and returns its
//! last element: a stack-like order, last in first out, which is a fact of
//! this producer and not of the capability.

use vstd::prelude::*;

verus! {

/// A producer of optional elements of a producer-chosen type.
///
/// The spec items play the same roles as on the fixed-type capability:
/// `step` is the transition relation of one base call, and the two proof
/// obligations make exhaustion terminal.
pub trait Stream: Sized {
    /// The element type this producer yields, fixed per producer.
    type Output;

    /// Terminal state: from here every base call yields absence.
    spec fn exhausted(&self) -> bool;

    /// What one base call does: it relates the state before, the state after,
    /// and the produced element.
    spec fn step(pre: Self, post: Self, out: Option<Self::Output>) -> bool;

    /// A base call that yields absence leaves the producer exhausted.
    proof fn step_none_exhausts(pre: Self, post: Self)
        requires
            Self::step(pre, post, None),
        ensures
            post.exhausted(),
    ;

    /// An exhausted producer stays exhausted and keeps yielding absence.
    proof fn step_from_exhausted(pre: Self, post: Self, out: Option<Self::Output>)
        requires
            pre.exhausted(),
            Self::step(pre, post, out),
        ensures
            out is None,
            post.exhausted(),
    ;

    /// Produce the next element, or signal absence.
    fn next(&mut self) -> (r: Option<Self::Output>)
        ensures
            Self::step(*old(self), *final(self), r),
            old(self).exhausted() ==> r is None,
            r is None ==> final(self).exhausted(),
    ;
}

/// A backing vector drained from the back: `next` pops the last element, so
/// elements come out most-recently-available first.
impl<T> Stream for Vec<T> {
    type Output = T;

    open spec fn exhausted(&self) -> bool {
        self@.len() == 0
    }

    open spec fn step(pre: Self, post: Self, out: Option<T>) -> bool {
        if pre@.len() > 0 {
            out == Some(pre@.last()) && post@ == pre@.drop_last()
        } else {
            out is None && post@ == pre@
        }
    }

    proof fn step_none_exhausts(pre: Self, post: Self) {
    }

    proof fn step_from_exhausted(pre: Self, post: Self, out: Option<T>) {
    }

    fn next(&mut self) -> (r: Option<T>) {
        self.pop()
    }
}

/// Read two elements in a row and pair the two optional results.
pub fn two_ints<S: Stream<Output = i32>>(stream: &mut S) -> (r: (Option<i32>, Option<i32>))
    ensures
        exists|mid: S|
            #[trigger] S::step(*old(stream), mid, r.0) && S::step(mid, *final(stream), r.1),
        r.0 is None ==> r.1 is None,
        r.1 is None ==> final(stream).exhausted(),
{
    let first = stream.next();
    let ghost mid = *stream;
    let second = stream.next();
    proof {
        if first is None {
            S::step_none_exhausts(*old(stream), mid);
            S::step_from_exhausted(mid, *stream, second);
        }
    }
    (first, second)
}

/// A run of consecutive base calls of an associated-output producer:
/// `states` are the producer states seen along the way, and `outs[m]` is
/// what the call from `states[m]` to `states[m + 1]` produced.
pub open spec fn output_chain<S: Stream>(states: Seq<S>, outs: Seq<Option<S::Output>>) -> bool {
    &&& states.len() == outs.len() + 1
    &&& forall|m: int|
        0 <= m < outs.len() ==> #[trigger] S::step(states[m], states[m + 1], outs[m])
}

/// Along a chain of base calls, a producer that is exhausted at one point is
/// still exhausted at every later point.
pub proof fn lemma_output_exhausted_stays<S: Stream>(
    states: Seq<S>,
    outs: Seq<Option<S::Output>>,
    i: int,
    j: int,
)
    requires
        output_chain(states, outs),
        0 <= i <= j < states.len(),
        states[i].exhausted(),
    ensures
        states[j].exhausted(),
    decreases j - i,
{
    if i < j {
        lemma_output_exhausted_stays(states, outs, i, j - 1);
        let m = j - 1;
        assert(S::step(states[m], states[m + 1], outs[m]));
        S::step_from_exhausted(states[m], states[m + 1], outs[m]);
    }
}

/// Exhaustion is monotonic: along any chain of base calls, once the producer
/// has signaled absence, every later call signals absence as well.
pub proof fn lemma_output_exhaustion_monotone<S: Stream>(
    states: Seq<S>,
    outs: Seq<Option<S::Output>>,
    k: int,
)
    requires
        output_chain(states, outs),
        0 <= k < outs.len(),
        outs[k] is None,
    ensures
        forall|j: int| k < j < outs.len() ==> outs[j] is None,
{
    S::step_none_exhausts(states[k], states[k + 1]);
    assert forall|j: int| k < j < outs.len() implies outs[j] is None by {
        lemma_output_exhausted_stays(states, outs, k + 1, j);
        S::step_from_exhausted(states[j], states[j + 1], outs[j]);
    }
}

/// Popping twice from a backing sequence of at least two elements yields the
/// last element, then the one before it, and leaves the rest in place.
pub proof fn lemma_pop_order<T>(pre: Vec<T>, mid: Vec<T>, post: Vec<T>, a: Option<T>, b: Option<T>)
    requires
        <Vec<T> as Stream>::step(pre, mid, a),
        <Vec<T> as Stream>::step(mid, post, b),
        pre@.len() >= 2,
    ensures
        a == Some(pre@[pre@.len() - 1]),
        b == Some(pre@[pre@.len() - 2]),
        post@ == pre@.subrange(0, pre@.len() - 2),
{
    assert(post@ =~= pre@.subrange(0, pre@.len() - 2));
}

} // verus!
