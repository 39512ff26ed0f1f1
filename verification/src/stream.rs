//! The base stream capability: produce one optional element per call.
//!
//! A producer either yields the next element or signals absence, and once a
//! finite producer has signaled absence it keeps signaling absence forever.
//! Each producer describes itself through a mathematical model — a transition
//! relation over its states — and the operations are specified against that
//! model, so that derived operations can be verified once, abstractly.

use vstd::prelude::*;

verus! {

/// Successor on `i32` that wraps at the top of the range, so that a counting
/// producer is total: it never fails, it comes back around instead.
pub open spec fn wrap_succ(v: i32) -> i32 {
    if v == i32::MAX {
        i32::MIN
    } else {
        (v + 1) as i32
    }
}

/// The mathematical model of a producer of optional `i32` elements.
///
/// `step` is the transition relation of one base call; the two obligations
/// make exhaustion a terminal state: a producer that has signaled absence
/// once signals absence on every later call.
pub trait StreamModel: Sized {
    /// Terminal state: from here every base call yields absence.
    spec fn exhausted(&self) -> bool;

    /// What one base call does: it relates the state before, the state after,
    /// and the produced element.
    spec fn step(pre: Self, post: Self, out: Option<i32>) -> bool;

    /// A base call that yields absence leaves the producer exhausted.
    proof fn step_none_exhausts(pre: Self, post: Self)
        requires
            Self::step(pre, post, None),
        ensures
            post.exhausted(),
    ;

    /// An exhausted producer stays exhausted and keeps yielding absence.
    proof fn step_from_exhausted(pre: Self, post: Self, out: Option<i32>)
        requires
            pre.exhausted(),
            Self::step(pre, post, out),
        ensures
            out is None,
            post.exhausted(),
    ;
}

/// A run of consecutive base calls: `states` are the producer states seen
/// along the way, and `outs[m]` is what the call from `states[m]` to
/// `states[m + 1]` produced.
pub open spec fn chain<S: StreamModel>(states: Seq<S>, outs: Seq<Option<i32>>) -> bool {
    &&& states.len() == outs.len() + 1
    &&& forall|m: int|
        0 <= m < outs.len() ==> #[trigger] S::step(states[m], states[m + 1], outs[m])
}

/// A run of the natural-number filter from `start` to `end`: at least one
/// base call was made, every element produced before the last call was
/// negative, and the last call produced `r` — a non-negative element, or
/// absence.
pub open spec fn nat_run<S: StreamModel>(start: S, end: S, r: Option<i32>) -> bool {
    exists|states: Seq<S>, outs: Seq<Option<i32>>|
        {
            &&& #[trigger] chain(states, outs)
            &&& states.first() == start
            &&& states.last() == end
            &&& outs.len() >= 1
            &&& forall|m: int|
                0 <= m < outs.len() - 1 ==> ((#[trigger] outs[m]) matches Some(v) && v < 0)
            &&& outs.last() == r
            &&& r matches Some(i) ==> i >= 0
        }
}

/// A producer of optional `i32` elements.
///
/// The `nat_*` and `even_*` items bound how many consecutive unwanted
/// elements the producer can yield, which is what lets the filtering
/// operations terminate.
pub trait IntStream: StreamModel {
    /// States from which skipping negative elements terminates.
    spec fn nat_ok(&self) -> bool;

    /// Bound on the number of consecutive negative elements still ahead.
    spec fn nat_fuel(&self) -> nat;

    /// States from which skipping odd elements terminates.
    spec fn even_ok(&self) -> bool;

    /// Bound on the number of consecutive odd elements still ahead.
    spec fn even_fuel(&self) -> nat;

    /// Yielding a negative element consumes fuel, so a run of negative
    /// elements is finite wherever `nat_ok` holds.
    proof fn step_nat_progress(pre: Self, post: Self, out: Option<i32>)
        requires
            Self::step(pre, post, out),
            pre.nat_ok(),
            out matches Some(v) && v < 0,
        ensures
            post.nat_ok(),
            post.nat_fuel() < pre.nat_fuel(),
    ;

    /// Yielding an odd element consumes fuel, so a run of odd elements is
    /// finite wherever `even_ok` holds.
    proof fn step_even_progress(pre: Self, post: Self, out: Option<i32>)
        requires
            Self::step(pre, post, out),
            pre.even_ok(),
            out matches Some(v) && v % 2 != 0,
        ensures
            post.even_ok(),
            post.even_fuel() < pre.even_fuel(),
    ;

    /// Produce the next element, or signal absence.
    fn next(&mut self) -> (r: Option<i32>)
        ensures
            Self::step(*old(self), *final(self), r),
            old(self).exhausted() ==> r is None,
            r is None ==> final(self).exhausted(),
    ;

    /// Produce the next non-negative element, silently skipping negative
    /// ones; absence is passed through.
    fn next_nat(&mut self) -> (r: Option<u32>)
        requires
            old(self).nat_ok(),
        ensures
            old(self).exhausted() ==> r is None,
            r is None ==> final(self).exhausted(),
            r is None ==> nat_run(*old(self), *final(self), None::<i32>),
            r matches Some(n) ==> exists|v: i32|
                v >= 0 && n == v as u32 && #[trigger] nat_run(*old(self), *final(self), Some(v)),
    {
        let ghost mut states = seq![*old(self)];
        let ghost mut outs = Seq::<Option<i32>>::empty();
        loop
            invariant
                self.nat_ok(),
                old(self).exhausted() ==> self.exhausted(),
                chain(states, outs),
                states.first() == *old(self),
                states.last() == *self,
                forall|m: int|
                    0 <= m < outs.len() ==> ((#[trigger] outs[m]) matches Some(v) && v < 0),
            decreases self.nat_fuel(),
        {
            let ghost prev = *self;
            let out = self.next();
            proof {
                states = states.push(*self);
                outs = outs.push(out);
            }
            match out {
                None => {
                    proof {
                        assert(nat_run(*old(self), *self, None::<i32>)) by {
                            assert(chain(states, outs));
                        }
                    }
                    return None;
                },
                Some(i) => {
                    proof {
                        if old(self).exhausted() {
                            Self::step_from_exhausted(prev, *self, Some(i));
                        }
                    }
                    if i >= 0 {
                        proof {
                            assert(nat_run(*old(self), *self, Some(i))) by {
                                assert(chain(states, outs));
                            }
                        }
                        return Some(i as u32);
                    }
                    proof {
                        Self::step_nat_progress(prev, *self, Some(i));
                    }
                },
            }
        }
    }
}

/// A counting producer: yields its cursor and moves it up by one, wrapping at
/// the top of the range. It is never exhausted.
pub struct Count(pub i32);

impl Count {
    /// Return the cursor and move it one step up, wrapping at the top.
    pub fn advance_value(&mut self) -> (r: i32)
        ensures
            r == old(self).0,
            final(self).0 == wrap_succ(old(self).0),
    {
        let value = self.0;
        if self.0 == i32::MAX {
            self.0 = i32::MIN;
        } else {
            self.0 = self.0 + 1;
        }
        value
    }
}

impl StreamModel for Count {
    open spec fn exhausted(&self) -> bool {
        false
    }

    open spec fn step(pre: Self, post: Self, out: Option<i32>) -> bool {
        out == Some(pre.0) && post.0 == wrap_succ(pre.0)
    }

    proof fn step_none_exhausts(pre: Self, post: Self) {
    }

    proof fn step_from_exhausted(pre: Self, post: Self, out: Option<i32>) {
    }
}

impl IntStream for Count {
    open spec fn nat_ok(&self) -> bool {
        true
    }

    open spec fn nat_fuel(&self) -> nat {
        if self.0 < 0 {
            (0 - self.0) as nat
        } else {
            0
        }
    }

    open spec fn even_ok(&self) -> bool {
        true
    }

    open spec fn even_fuel(&self) -> nat {
        if self.0 % 2 != 0 {
            1
        } else {
            0
        }
    }

    proof fn step_nat_progress(pre: Self, post: Self, out: Option<i32>) {
        assert(post.nat_fuel() < pre.nat_fuel());
    }

    proof fn step_even_progress(pre: Self, post: Self, out: Option<i32>) {
        assert(post.even_fuel() < pre.even_fuel());
    }

    fn next(&mut self) -> (r: Option<i32>) {
        let i = self.advance_value();
        Some(i)
    }
}

/// A producer that yields the same element forever and never moves.
pub struct Constant(pub i32);

impl StreamModel for Constant {
    open spec fn exhausted(&self) -> bool {
        false
    }

    open spec fn step(pre: Self, post: Self, out: Option<i32>) -> bool {
        out == Some(pre.0) && post == pre
    }

    proof fn step_none_exhausts(pre: Self, post: Self) {
    }

    proof fn step_from_exhausted(pre: Self, post: Self, out: Option<i32>) {
    }
}

impl IntStream for Constant {
    open spec fn nat_ok(&self) -> bool {
        self.0 >= 0
    }

    open spec fn nat_fuel(&self) -> nat {
        0
    }

    open spec fn even_ok(&self) -> bool {
        self.0 % 2 == 0
    }

    open spec fn even_fuel(&self) -> nat {
        0
    }

    proof fn step_nat_progress(pre: Self, post: Self, out: Option<i32>) {
    }

    proof fn step_even_progress(pre: Self, post: Self, out: Option<i32>) {
    }

    fn next(&mut self) -> (r: Option<i32>) {
        Some(self.0)
    }
}

/// A counting producer bounded to a fixed number of elements: it yields that
/// many successive values of its cursor and is exhausted afterwards.
pub struct FiniteCount {
    /// The cursor: the next value to yield, wrapping at the top.
    pub value: i32,
    /// How many elements are still to be yielded.
    pub remaining: u32,
}

impl StreamModel for FiniteCount {
    open spec fn exhausted(&self) -> bool {
        self.remaining == 0
    }

    open spec fn step(pre: Self, post: Self, out: Option<i32>) -> bool {
        if pre.remaining > 0 {
            out == Some(pre.value) && post.value == wrap_succ(pre.value) && post.remaining
                == pre.remaining - 1
        } else {
            out is None && post == pre
        }
    }

    proof fn step_none_exhausts(pre: Self, post: Self) {
    }

    proof fn step_from_exhausted(pre: Self, post: Self, out: Option<i32>) {
    }
}

impl IntStream for FiniteCount {
    open spec fn nat_ok(&self) -> bool {
        true
    }

    open spec fn nat_fuel(&self) -> nat {
        if self.value < 0 && self.remaining > 0 {
            if (self.remaining as int) < 0 - self.value {
                self.remaining as nat
            } else {
                (0 - self.value) as nat
            }
        } else {
            0
        }
    }

    open spec fn even_ok(&self) -> bool {
        true
    }

    open spec fn even_fuel(&self) -> nat {
        if self.value % 2 != 0 && self.remaining > 0 {
            1
        } else {
            0
        }
    }

    proof fn step_nat_progress(pre: Self, post: Self, out: Option<i32>) {
        assert(post.nat_fuel() < pre.nat_fuel());
    }

    proof fn step_even_progress(pre: Self, post: Self, out: Option<i32>) {
        assert(post.even_fuel() < pre.even_fuel());
    }

    fn next(&mut self) -> (r: Option<i32>) {
        if self.remaining == 0 {
            None
        } else {
            let value = self.value;
            if self.value == i32::MAX {
                self.value = i32::MIN;
            } else {
                self.value = self.value + 1;
            }
            self.remaining = self.remaining - 1;
            Some(value)
        }
    }
}

/// A wrapper around any base producer, forwarding the base operation to the
/// producer it holds.
pub struct Wrapper<T> {
    /// The wrapped producer.
    pub inner: T,
}

impl<T: IntStream> Wrapper<T> {
    /// Produce the next element of the wrapped producer.
    pub fn next(&mut self) -> (r: Option<i32>)
        ensures
            T::step(old(self).inner, final(self).inner, r),
            old(self).inner.exhausted() ==> r is None,
            r is None ==> final(self).inner.exhausted(),
    {
        self.inner.next()
    }
}

/// Read two elements in a row and pair the two optional results.
pub fn read_two<S: IntStream>(stream: &mut S) -> (r: (Option<i32>, Option<i32>))
    ensures
        exists|mid: S|
            #[trigger] S::step(*old(stream), mid, r.0) && S::step(mid, *final(stream), r.1),
        r.0 is None ==> r.1 is None,
        r.1 is None ==> final(stream).exhausted(),
{
    let first = stream.next();
    let ghost mid = *stream;
    let second = stream.next();
    proof {
        if first is None {
            S::step_none_exhausts(*old(stream), mid);
            S::step_from_exhausted(mid, *stream, second);
        }
    }
    (first, second)
}

/// Along a chain of the counting producer whose produced elements are all
/// negative up to the next-to-last one, the cursor just counts up: no wrap
/// can happen below zero.
proof fn lemma_count_negative_prefix(states: Seq<Count>, outs: Seq<Option<i32>>, m: int)
    requires
        chain(states, outs),
        forall|k: int| 0 <= k < outs.len() - 1 ==> ((#[trigger] outs[k]) matches Some(u) && u < 0),
        0 <= m <= outs.len() - 1,
    ensures
        states[m].0 == states[0].0 + m,
    decreases m,
{
    if m > 0 {
        lemma_count_negative_prefix(states, outs, m - 1);
        let k = m - 1;
        assert(Count::step(states[k], states[k + 1], outs[k]));
    }
}

/// The natural-number filter on the counting producer skips exactly the
/// negative prefix: it returns the cursor itself where the cursor was
/// non-negative, and zero where it was negative, and leaves the cursor one
/// past the element it returned.
pub proof fn lemma_count_nat_run(start: Count, end: Count, v: i32)
    requires
        nat_run(start, end, Some(v)),
    ensures
        v == if start.0 < 0 {
            0
        } else {
            start.0
        },
        end.0 == wrap_succ(v),
{
    let (states, outs) = choose|states: Seq<Count>, outs: Seq<Option<i32>>|
        {
            &&& #[trigger] chain(states, outs)
            &&& states.first() == start
            &&& states.last() == end
            &&& outs.len() >= 1
            &&& forall|m: int|
                0 <= m < outs.len() - 1 ==> ((#[trigger] outs[m]) matches Some(u) && u < 0)
            &&& outs.last() == Some(v)
            &&& v >= 0
        };
    let last = outs.len() - 1;
    lemma_count_negative_prefix(states, outs, last);
    assert(Count::step(states[last], states[last + 1], outs[last]));
    if last > 0 {
        let k = last - 1;
        assert((outs[k]) matches Some(u) && u < 0);
        assert(Count::step(states[k], states[k + 1], outs[k]));
    }
}

/// Along a chain of base calls, a producer that is exhausted at one point is
/// still exhausted at every later point.
pub proof fn lemma_exhausted_stays<S: StreamModel>(
    states: Seq<S>,
    outs: Seq<Option<i32>>,
    i: int,
    j: int,
)
    requires
        chain(states, outs),
        0 <= i <= j < states.len(),
        states[i].exhausted(),
    ensures
        states[j].exhausted(),
    decreases j - i,
{
    if i < j {
        lemma_exhausted_stays(states, outs, i, j - 1);
        let m = j - 1;
        assert(S::step(states[m], states[m + 1], outs[m]));
        S::step_from_exhausted(states[m], states[m + 1], outs[m]);
    }
}

/// Exhaustion is monotonic: along any chain of base calls, once the producer
/// has signaled absence, every later call signals absence as well.
pub proof fn lemma_exhaustion_monotone<S: StreamModel>(
    states: Seq<S>,
    outs: Seq<Option<i32>>,
    k: int,
)
    requires
        chain(states, outs),
        0 <= k < outs.len(),
        outs[k] is None,
    ensures
        forall|j: int| k < j < outs.len() ==> outs[j] is None,
{
    S::step_none_exhausts(states[k], states[k + 1]);
    assert forall|j: int| k < j < outs.len() implies outs[j] is None by {
        lemma_exhausted_stays(states, outs, k + 1, j);
        S::step_from_exhausted(states[j], states[j + 1], outs[j]);
    }
}

} // verus!
