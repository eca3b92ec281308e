//! Workers: the state kept for one address, and how it answers a message.
use vstd::prelude::*;

use crate::envelope::Mail;

verus! {

/// A state that can handle messages of type `M`, sending letters of type `D`.
///
/// State is kept between messages. In answer to a message a worker gives back
/// the mail to send and the next iteration of its state. Workers are not
/// spawned: sending to an address with no worker yet starts one.
pub trait Worker<M, D>: Sized {
    /// Whether `new` and `handle` follow `initial` and `handled`. A worker
    /// type whose code is verified says so; of any other, nothing is known.
    open spec fn obeys_worker_spec() -> bool {
        false
    }

    /// The worker that is started for an address that has none yet.
    open spec fn initial() -> Self {
        arbitrary()
    }

    /// The mail sent and the worker that follows when this worker handles
    /// `message`.
    open spec fn handled(self, message: M) -> (Seq<D>, Self) {
        arbitrary()
    }

    fn new() -> (r: Self)
        ensures
            Self::obeys_worker_spec() ==> r == Self::initial(),
    ;

    fn handle(self, message: M) -> (r: (Mail<D>, Self))
        ensures
            Self::obeys_worker_spec() ==> r.0@ == self.handled(message).0,
            Self::obeys_worker_spec() ==> r.1 == self.handled(message).1,
    ;
}

} // verus!
