//! Envelopes that carry the id of the worker they are for, where the id's
//! type also picks the table of workers it belongs to.
use std::collections::HashMap;
use std::hash::Hash;

use vstd::prelude::*;
use vstd::std_specs::hash::obeys_key_model;

pub use crate::envelope::{Deliverable, Mail};
pub use crate::worker::Worker;

verus! {

/// A message for the worker with id `id`.
pub struct Envelope<WID, M> {
    pub id: WID,
    pub message: M,
}

/// The worker that handles mail for `id` in a table: the one kept there, or a
/// new one.
pub open spec fn worker_for<WID, M, D, W: Worker<M, D>>(workers: Map<WID, W>, id: WID) -> W {
    if workers.contains_key(id) {
        workers[id]
    } else {
        W::initial()
    }
}

/// What delivering `message` to `id` in a table of workers sends, and the
/// table it leaves: the worker for `id` (the one kept, or a new one) handles
/// the message and the worker that follows is kept at `id`.
pub open spec fn table_delivered<WID, M, D, W: Worker<M, D>>(
    workers: Map<WID, W>,
    id: WID,
    message: M,
) -> (Seq<D>, Map<WID, W>) {
    let (sent, next) = worker_for::<WID, M, D, W>(workers, id).handled(message);
    (sent, workers.insert(id, next))
}

impl<WID: Eq + Hash, M> Envelope<WID, M> {
    /// Delivers this envelope to a table of workers.
    ///
    /// The worker for the envelope's id is taken out of the table, or started
    /// if there is none, handles the message and is put back. The mail it sent
    /// is returned.
    pub fn deliver_to_workers<D, W: Worker<M, D>>(self, workers: &mut HashMap<WID, W>) -> (sent:
        Mail<D>)
        ensures
            obeys_key_model::<WID>() ==> final(workers)@.dom() == old(workers)@.dom().insert(
                self.id,
            ),
            obeys_key_model::<WID>() && W::obeys_worker_spec() ==> sent@ == table_delivered::<WID, M, D, W>(
                old(workers)@,
                self.id,
                self.message,
            ).0,
            obeys_key_model::<WID>() && W::obeys_worker_spec() ==> final(workers)@ == table_delivered::<
                WID,
                M,
                D,
                W,
            >(old(workers)@, self.id, self.message).1,
    {
        broadcast use vstd::std_specs::hash::group_hash_axioms;

        let Envelope { id, message } = self;
        let worker = match workers.remove(&id) {
            Some(w) => w,
            None => W::new(),
        };
        let (out, new_worker) = worker.handle(message);
        workers.insert(id, new_worker);
        out
    }
}

/// A worker's state is kept between messages: of two messages delivered to
/// `id`, the second is handled by the worker the first left, and a delivery
/// to `id` leaves the worker of every other id as it was.
pub proof fn law_worker_state_persists<WID, M, D, W: Worker<M, D>>(
    workers: Map<WID, W>,
    id: WID,
    first: M,
    second: M,
    other: WID,
)
    ensures
        ({
            let after_first = table_delivered::<WID, M, D, W>(workers, id, first).1;
            let next = worker_for::<WID, M, D, W>(workers, id).handled(first).1;
            &&& table_delivered::<WID, M, D, W>(after_first, id, second) == (
                next.handled(second).0,
                workers.insert(id, next.handled(second).1),
            )
            &&& other != id ==> worker_for::<WID, M, D, W>(after_first, other) == worker_for::<
                WID, M, D, W,
            >(workers, other)
        }),
{
    let next = worker_for::<WID, M, D, W>(workers, id).handled(first).1;
    assert(workers.insert(id, next).insert(id, next.handled(second).1) =~= workers.insert(
        id,
        next.handled(second).1,
    ));
}

/// A worker kept at `id` before the mail comes is the one that handles it: no
/// new worker is started in its place.
pub proof fn law_kept_worker_is_used<WID, M, D, W: Worker<M, D>>(
    workers: Map<WID, W>,
    id: WID,
    worker: W,
    message: M,
)
    ensures
        table_delivered::<WID, M, D, W>(workers.insert(id, worker), id, message) == (
            worker.handled(message).0,
            workers.insert(id, worker.handled(message).1),
        ),
{
    assert(workers.insert(id, worker).insert(id, worker.handled(message).1) =~= workers.insert(
        id,
        worker.handled(message).1,
    ));
}

/// Delivering to an id in a table: a worker kept at the id handles the
/// message; with none kept, a new worker in its initial state does. Either
/// way, all the mail that worker sent is returned, the worker that follows is
/// kept at the id, and every other entry of the table stays as it was.
pub proof fn law_table_delivery<WID, M, D, W: Worker<M, D>>(
    workers: Map<WID, W>,
    id: WID,
    message: M,
)
    ensures
        workers.contains_key(id) ==> table_delivered::<WID, M, D, W>(workers, id, message) == (
            workers[id].handled(message).0,
            workers.insert(id, workers[id].handled(message).1),
        ),
        !workers.contains_key(id) ==> table_delivered::<WID, M, D, W>(workers, id, message) == (
            W::initial().handled(message).0,
            workers.insert(id, W::initial().handled(message).1),
        ),
        table_delivered::<WID, M, D, W>(workers, id, message).1.dom() == workers.dom().insert(id),
        forall|other: WID|
            other != id && workers.contains_key(other) ==> (#[trigger] table_delivered::<WID, M, D, W>(
                workers,
                id,
                message,
            ).1[other]) == workers[other],
{
}

} // verus!
