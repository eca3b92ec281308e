//! Homes: systems that keep workers at addresses and hand them out for the
//! length of one delivery.
use vstd::prelude::*;

pub use crate::envelope::{Deliverable, Envelope, Mail};

verus! {

/// A state that can handle messages of type `M`, sending letters of type `D`.
/// The state that follows may be of another type, `Next`.
pub trait Handler<M, D>: Sized {
    type Next;

    /// Whether `handle` follows `handled`. A state type whose code is
    /// verified says so; of any other, nothing is known.
    open spec fn obeys_handler_spec() -> bool {
        false
    }

    /// The mail sent and the state that follows when this state handles
    /// `message`.
    open spec fn handled(self, message: M) -> (Seq<D>, Self::Next) {
        arbitrary()
    }

    fn handle(self, message: M) -> (r: (Mail<D>, Self::Next))
        ensures
            Self::obeys_handler_spec() ==> r.0@ == self.handled(message).0,
            Self::obeys_handler_spec() ==> r.1 == self.handled(message).1,
    ;
}

/// A system that is home to workers for messages of type `M` at addresses of
/// type `A`: it can take the worker for an address out and put one back.
pub trait Home<A, M, D>: Sized {
    type Worker: Handler<M, D>;

    /// Whether `pop` and `put` follow `popped` and `with_put`. A system whose
    /// code is verified says so; of any other, nothing is known.
    open spec fn obeys_home_spec() -> bool {
        false
    }

    /// The worker taken out for `address`, and the system without it.
    open spec fn popped(self, address: A) -> (Self::Worker, Self) {
        arbitrary()
    }

    /// The system with `worker` kept at `address`.
    open spec fn with_put(self, address: A, worker: Self::Worker) -> Self {
        arbitrary()
    }

    fn pop(self, address: &A) -> (r: (Self::Worker, Self))
        ensures
            Self::obeys_home_spec() ==> r == self.popped(*address),
    ;

    fn put(self, address: A, worker: Self::Worker) -> (r: Self)
        ensures
            Self::obeys_home_spec() ==> r == self.with_put(address, worker),
    ;
}

/// What delivering `message` to the worker at `address` of `system` sends,
/// and the system it leaves: the worker is taken out, handles the message,
/// and the worker that follows is put back at the same address.
pub open spec fn home_delivered<A, M, D, S>(system: S, address: A, message: M) -> (Seq<D>, S) where
    S: Home<A, M, D>,
    S::Worker: Handler<M, D, Next = S::Worker>,
 {
    let (worker, rest) = system.popped(address);
    let (sent, next) = worker.handled(message);
    (sent, rest.with_put(address, next))
}

/// Whether delivery through a home follows `home_delivered`: the home and its
/// workers are verified.
pub open spec fn obeys_home_delivery<A, M, D, S>() -> bool where
    S: Home<A, M, D>,
    S::Worker: Handler<M, D, Next = S::Worker>,
 {
    S::obeys_home_spec() && <S::Worker as Handler<M, D>>::obeys_handler_spec()
}

/// Delivers an envelope to the worker that `system` keeps at its address:
/// the worker is taken out, handles the message, and the worker that follows
/// is put back.
pub fn deliver<A, M, D, S>(envelope: Envelope<A, M>, system: S) -> (r: (Mail<D>, S)) where
    S: Home<A, M, D>,
    S::Worker: Handler<M, D, Next = S::Worker>,
    ensures
        obeys_home_delivery::<A, M, D, S>() ==> r.0@ == home_delivered::<A, M, D, S>(
            system,
            envelope.address,
            envelope.message,
        ).0,
        obeys_home_delivery::<A, M, D, S>() ==> r.1 == home_delivered::<A, M, D, S>(
            system,
            envelope.address,
            envelope.message,
        ).1,
{
    let Envelope { address, message } = envelope;
    let (worker, system) = system.pop(&address);
    let (mail, worker) = worker.handle(message);
    let system = system.put(address, worker);
    (mail, system)
}

/// In a system whose workers all exchange envelopes of one kind, every such
/// envelope is a letter the system can deliver.
impl<A, M, S> Deliverable<S> for Envelope<A, M> where
    S: Home<A, M, Envelope<A, M>>,
    S::Worker: Handler<M, Envelope<A, M>, Next = S::Worker>,
 {
    open spec fn obeys_delivery_spec() -> bool {
        obeys_home_delivery::<A, M, Envelope<A, M>, S>()
    }

    open spec fn delivered(self, system: S) -> (Seq<Self>, S) {
        home_delivered::<A, M, Envelope<A, M>, S>(system, self.address, self.message)
    }

    fn deliver(self, system: S) -> (r: (Mail<Self>, S)) {
        deliver(self, system)
    }
}

/// Delivering through a home: the worker popped for the address, from the
/// system as passed in, is the one that handles the message; all the mail it
/// sent is returned, and the worker that follows is put back at the same
/// address of what the pop left. An envelope delivered as a letter does the
/// same.
pub proof fn law_home_delivery_uses_the_popped_worker<A, M, S>(
    system: S,
    address: A,
    message: M,
    worker: S::Worker,
    rest: S,
) where
    S: Home<A, M, Envelope<A, M>>,
    S::Worker: Handler<M, Envelope<A, M>, Next = S::Worker>,
    requires
        system.popped(address) == (worker, rest),
    ensures
        home_delivered::<A, M, Envelope<A, M>, S>(system, address, message) == (
            worker.handled(message).0,
            rest.with_put(address, worker.handled(message).1),
        ),
        (Envelope { address, message }).delivered(system) == (
            worker.handled(message).0,
            rest.with_put(address, worker.handled(message).1),
        ),
{
}

} // verus!
