//! Workers keyed by mailbox: each mailbox type has a table of workers, one per
//! id, and a worker is started on demand for an id that has none yet.
use std::collections::HashMap;
use std::hash::Hash;

use vstd::prelude::*;
use vstd::std_specs::hash::obeys_key_model;

pub use crate::mail::{Deliverable, Envelope, Mailbox, Todos};
use crate::mail::{delivery, run_stack};
use crate::schedule::{stack_drains, stack_outcome};

verus! {

/// A worker that processes all the messages of a given mailbox type that
/// carry the same id. Delivering to an id with no worker yet starts one.
pub trait Worker<M: Mailbox, D>: Sized {
    /// Whether `new` and `handle` follow `initial` and `handled`. A worker
    /// type whose code is verified says so; of any other, nothing is known.
    open spec fn obeys_worker_spec() -> bool {
        false
    }

    /// The worker that is started for an id that has none yet.
    open spec fn initial() -> Self {
        arbitrary()
    }

    /// The mail sent and the worker that follows when this worker handles
    /// `message`.
    open spec fn handled(self, message: M::Message) -> (Seq<D>, Self) {
        arbitrary()
    }

    fn new() -> (r: Self)
        ensures
            Self::obeys_worker_spec() ==> r == Self::initial(),
    ;

    fn handle(self, message: &M::Message) -> (r: (Todos<D>, Self))
        ensures
            Self::obeys_worker_spec() ==> r.0@ == self.handled(*message).0,
            Self::obeys_worker_spec() ==> r.1 == self.handled(*message).1,
    ;
}

/// A system that can find, and keep, the worker for a mailbox of type `M`.
pub trait Home<M: Mailbox, D, W: Worker<M, D>> {
    fn get(&mut self, id: M::Id) -> W;

    fn put(&mut self, id: M::Id, worker: W);
}

/// The worker that handles mail for `id` in a table: the one kept there, or a
/// new one.
pub open spec fn worker_for<M: Mailbox, D, W: Worker<M, D>>(
    workers: Map<M::Id, W>,
    id: M::Id,
) -> W {
    if workers.contains_key(id) {
        workers[id]
    } else {
        W::initial()
    }
}

/// What delivering `message` to `id` in a table of workers sends, and the
/// table it leaves: the worker for `id` (the one kept, or a new one) handles
/// the message and the worker that follows is kept at `id`.
pub open spec fn table_delivered<M: Mailbox, D, W: Worker<M, D>>(
    workers: Map<M::Id, W>,
    id: M::Id,
    message: M::Message,
) -> (Seq<D>, Map<M::Id, W>) {
    let (sent, next) = worker_for::<M, D, W>(workers, id).handled(message);
    (sent, workers.insert(id, next))
}

/// Delivers an envelope to the table of workers of its mailbox type.
///
/// The worker for the envelope's id is taken out of the table, or started if
/// there is none, handles the message and is put back. The mail it sent is
/// returned.
pub fn deliver_to_workers<M: Mailbox, D, W: Worker<M, D>>(
    workers: &mut HashMap<M::Id, W>,
    envelope: &Envelope<M>,
) -> (sent: Todos<D>) where M::Id: Eq + Hash
    ensures
        obeys_key_model::<M::Id>() ==> final(workers)@.dom() == old(workers)@.dom().insert(
            envelope.id,
        ),
        obeys_key_model::<M::Id>() && W::obeys_worker_spec() ==> sent@ == table_delivered::<M, D, W>(
            old(workers)@,
            envelope.id,
            envelope.message,
        ).0,
        obeys_key_model::<M::Id>() && W::obeys_worker_spec() ==> final(workers)@ == table_delivered::<
            M,
            D,
            W,
        >(old(workers)@, envelope.id, envelope.message).1,
{
    broadcast use vstd::std_specs::hash::group_hash_axioms;

    let worker = match workers.remove(&envelope.id) {
        Some(w) => w,
        None => W::new(),
    };
    let (out, new_worker) = worker.handle(&envelope.message);
    workers.insert(envelope.id, new_worker);
    out
}

/// A runtime that owns a system and delivers mail to it.
pub struct Runtime<S>(pub S);

impl<S> Runtime<S> {
    /// Delivers the letters, and every letter their delivery sends, until no
    /// mail is left. The letter added last is delivered first.
    pub fn dispatch<D: Deliverable<S>>(self, envelopes: Todos<D>) -> (r: Self)
        requires
            envelopes@.len() > 0 ==> D::obeys_delivery_spec(),
            stack_drains(delivery::<S, D>(), self.0, envelopes@),
        ensures
            r.0 == stack_outcome(delivery::<S, D>(), self.0, envelopes@),
    {
        Runtime(run_stack(self.0, envelopes))
    }

    pub fn new(system: S) -> (r: Self)
        ensures
            r.0 == system,
    {
        Runtime(system)
    }
}

/// A worker's state is kept between messages: of two messages delivered to
/// `id`, the second is handled by the worker the first left, and a delivery
/// to `id` leaves the worker of every other id as it was.
pub proof fn law_worker_state_persists<M: Mailbox, D, W: Worker<M, D>>(
    workers: Map<M::Id, W>,
    id: M::Id,
    first: M::Message,
    second: M::Message,
    other: M::Id,
)
    ensures
        ({
            let after_first = table_delivered::<M, D, W>(workers, id, first).1;
            let next = worker_for::<M, D, W>(workers, id).handled(first).1;
            &&& table_delivered::<M, D, W>(after_first, id, second) == (
                next.handled(second).0,
                workers.insert(id, next.handled(second).1),
            )
            &&& other != id ==> worker_for::<M, D, W>(after_first, other) == worker_for::<
                M, D, W,
            >(workers, other)
        }),
{
    let next = worker_for::<M, D, W>(workers, id).handled(first).1;
    assert(workers.insert(id, next).insert(id, next.handled(second).1) =~= workers.insert(
        id,
        next.handled(second).1,
    ));
}

/// A worker kept at `id` before the mail comes is the one that handles it: no
/// new worker is started in its place.
pub proof fn law_kept_worker_is_used<M: Mailbox, D, W: Worker<M, D>>(
    workers: Map<M::Id, W>,
    id: M::Id,
    worker: W,
    message: M::Message,
)
    ensures
        table_delivered::<M, D, W>(workers.insert(id, worker), id, message) == (
            worker.handled(message).0,
            workers.insert(id, worker.handled(message).1),
        ),
{
    assert(workers.insert(id, worker).insert(id, worker.handled(message).1) =~= workers.insert(
        id,
        worker.handled(message).1,
    ));
}

/// Delivering to an id in a table: a worker kept at the id handles the
/// message; with none kept, a new worker in its initial state does. Either
/// way, all the mail that worker sent is returned, the worker that follows is
/// kept at the id, and every other entry of the table stays as it was.
pub proof fn law_table_delivery<M: Mailbox, D, W: Worker<M, D>>(
    workers: Map<M::Id, W>,
    id: M::Id,
    message: M::Message,
)
    ensures
        workers.contains_key(id) ==> table_delivered::<M, D, W>(workers, id, message) == (
            workers[id].handled(message).0,
            workers.insert(id, workers[id].handled(message).1),
        ),
        !workers.contains_key(id) ==> table_delivered::<M, D, W>(workers, id, message) == (
            W::initial().handled(message).0,
            workers.insert(id, W::initial().handled(message).1),
        ),
        table_delivered::<M, D, W>(workers, id, message).1.dom() == workers.dom().insert(id),
        forall|other: M::Id|
            other != id && workers.contains_key(other) ==> (#[trigger] table_delivered::<M, D, W>(
                workers,
                id,
                message,
            ).1[other]) == workers[other],
{
}

} // verus!
