//! A layered stream-capability protocol, verified.
//!
//! The base capability is one operation: produce the next element of a
//! producer, or signal exhaustion — and once a finite producer has signaled
//! exhaustion, every later call signals exhaustion too. On top of it sit
//! three derived capabilities that add behaviour without adding state: a
//! filter that keeps non-negative elements, a filter that keeps even
//! elements, and a clamp that caps each element at a per-implementation
//! maximum. A generalized capability lets each producer choose its element
//! type; its demonstrated producer drains a backing vector from the back.
//!
//! Every producer carries a mathematical model — a transition relation over
//! its states — and each operation's contract is stated against that model,
//! so the derived operations are verified once, for every producer at once.

pub mod bounded;
pub mod even;
pub mod output;
pub mod record;
pub mod stream;

pub use bounded::BoundedIntStream;
pub use even::EvenStream;
pub use output::Stream;
pub use output::two_ints;
pub use record::Foo;
pub use stream::Constant;
pub use stream::Count;
pub use stream::FiniteCount;
pub use stream::IntStream;
pub use stream::StreamModel;
pub use stream::Wrapper;
pub use stream::read_two;
pub use stream::wrap_succ;
