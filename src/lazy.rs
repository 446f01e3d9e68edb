//! A value computed on first use and kept from then on.

use vstd::cell::invcell::InvCell;
use vstd::predicate::Predicate;
use vstd::prelude::*;

verus! {

/// Computes a value of type `T` on demand.
pub trait Producer<T> {
    /// The value that `produce` returns.
    spec fn result(&self) -> T;

    fn produce(&self) -> (r: T)
        ensures
            r == self.result(),
    ;
}

/// What a lazy cell holds: the producer that has not run yet, or its result.
pub enum LazyState<T, P> {
    Pending(P),
    Ready(T),
}

impl<T: Copy, P: Copy> Clone for LazyState<T, P> {
    fn clone(&self) -> (r: Self)
        ensures
            r == *self,
    {
        *self
    }
}

impl<T: Copy, P: Copy> Copy for LazyState<T, P> {

}

/// Whatever a lazy cell holds stands for `target`.
pub struct StandsFor<T> {
    pub target: T,
}

impl<T, P: Producer<T>> Predicate<LazyState<T, P>> for StandsFor<T> {
    open spec fn predicate(&self, s: LazyState<T, P>) -> bool {
        match s {
            LazyState::Pending(p) => p.result() == self.target,
            LazyState::Ready(v) => v == self.target,
        }
    }
}

/// A value that is computed by a producer the first time it is read, and
/// read from memory after that. Creating the cell runs nothing.
pub struct Lazy<T, P> {
    cell: InvCell<LazyState<T, P>, StandsFor<T>>,
}

impl<T: Copy, P: Producer<T> + Copy> Lazy<T, P> {
    /// The value that every read returns.
    pub closed spec fn value(&self) -> T {
        self.cell.predicate().target
    }

    /// A cell that will hold what `producer` computes; nothing is computed yet.
    pub fn new(producer: P) -> (r: Self)
        ensures
            r.value() == producer.result(),
    {
        let ghost target = producer.result();
        Lazy { cell: InvCell::new(LazyState::Pending(producer), Ghost(StandsFor { target })) }
    }

    /// Returns the value, running the producer if this is the first read.
    pub fn get(&self) -> (r: T)
        ensures
            r == self.value(),
    {
        match self.cell.get() {
            LazyState::Ready(v) => v,
            LazyState::Pending(p) => {
                let v = p.produce();
                self.cell.set(LazyState::Ready(v));
                v
            },
        }
    }
}

} // verus!
