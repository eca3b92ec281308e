//! # Gen
//!
//! A generic server in the manner of the erlang OTP abstraction layer, built
//! to be more convenient than working with raw workers: a server answers
//! calls while it runs, stops when its state says so, and tells whoever
//! monitors it once it has stopped.
use std::collections::HashMap;
use std::marker::PhantomData;

use vstd::prelude::*;

use crate::envelope::{Envelope, Mail, Post};
use crate::worker::Worker;

verus! {

/// A system that can find the worker for messages of type `M` at addresses
/// of type `A`, and keep the worker that follows.
pub trait Home<A, M, D>: Sized {
    type Worker: Worker<M, D>;

    /// Whether `get` and `put` follow `got` and `with_put`. A system whose
    /// code is verified says so; of any other, nothing is known.
    open spec fn obeys_home_spec() -> bool {
        false
    }

    /// The worker found for `address`, and the system that remains.
    open spec fn got(self, address: A) -> (Self::Worker, Self) {
        arbitrary()
    }

    /// The system with `worker` kept at `address`.
    open spec fn with_put(self, address: A, worker: Self::Worker) -> Self {
        arbitrary()
    }

    fn get(self, address: &A) -> (r: (Self::Worker, Self))
        ensures
            Self::obeys_home_spec() ==> r == self.got(*address),
    ;

    fn put(self, address: A, worker: Self::Worker) -> (r: Self)
        ensures
            Self::obeys_home_spec() ==> r == self.with_put(address, worker),
    ;
}

/// What delivering `message` to the worker at `address` of `system` sends,
/// and the system it leaves: the worker found there handles the message and
/// the worker that follows is kept at the same address, so that its state
/// carries over to the next message.
pub open spec fn gen_delivered<A, M, D, S: Home<A, M, D>>(system: S, address: A, message: M) -> (
    Seq<D>,
    S,
) {
    let (worker, rest) = system.got(address);
    let (sent, next) = worker.handled(message);
    (sent, rest.with_put(address, next))
}

/// Delivers an envelope through a [`Home`]: the worker for its address
/// handles the message, the worker that follows is kept at that address, and
/// the mail it sent is returned with the system.
pub fn deliver<A, M, D, S: Home<A, M, D>>(envelope: Envelope<A, M>, system: S) -> (r: (
    Mail<D>,
    S,
))
    ensures
        S::obeys_home_spec() && S::Worker::obeys_worker_spec() ==> r.0@ == gen_delivered::<
            A,
            M,
            D,
            S,
        >(system, envelope.address, envelope.message).0,
        S::obeys_home_spec() && S::Worker::obeys_worker_spec() ==> r.1 == gen_delivered::<
            A,
            M,
            D,
            S,
        >(system, envelope.address, envelope.message).1,
{
    let Envelope { address, message } = envelope;
    let (worker, system) = system.get(&address);
    let (out, worker) = worker.handle(message);
    let system = system.put(address, worker);
    (out, system)
}

/// Who made a call: the address to reply to, and the reference that ties the
/// reply to the call.
pub struct Caller<A, Resp> {
    pub address: A,
    pub reference: i32,
    pub _response: PhantomData<Resp>,
}

impl<A, Resp> Caller<A, Resp> {
    pub fn new(address: A, reference: i32) -> (r: Self)
        ensures
            r.address == address,
            r.reference == reference,
    {
        Caller { address, reference, _response: PhantomData }
    }
}

/// A request together with the caller that made it.
pub struct Call<A, Req, Resp> {
    caller: Caller<A, Resp>,
    request: Req,
}

impl<A, Req, Resp> Call<A, Req, Resp> {
    pub fn new(caller: Caller<A, Resp>, request: Req) -> (r: Self)
        ensures
            r.caller() == caller,
            r.request() == request,
    {
        Call { caller, request }
    }

    pub closed spec fn caller(self) -> Caller<A, Resp> {
        self.caller
    }

    pub closed spec fn request(self) -> Req {
        self.request
    }
}

/// The answer to a call, tied to it by `reference`.
pub struct Reply<M> {
    pub reference: i32,
    pub response: M,
}

/// A request to be told when a server has stopped, with the address to tell.
pub struct Monitor<A> {
    pub address: A,
}

/// The message a monitor receives about a server that has stopped.
pub struct Down {
    pub error: Option<String>,
    pub reference: i32,
}

/// The state of a server that answers calls with requests of type `Req` by
/// responses of type `Resp`.
pub trait GenCall<Req, Resp, D>: Sized {
    /// Whether `handle_call` follows `called`. A state type whose code is
    /// verified says so; of any other, nothing is known.
    open spec fn obeys_gen_call_spec() -> bool {
        false
    }

    /// The mail sent when this state handles `request` from `caller`, and the
    /// state that follows, or `None` when the server is to stop.
    open spec fn called<A>(self, caller: Caller<A, Resp>, request: Req) -> (Seq<D>, Option<Self>) {
        arbitrary()
    }

    fn handle_call<A>(self, caller: Caller<A, Resp>, request: Req) -> (r: (Mail<D>, Option<Self>)) where
        D: Post<A, Reply<Resp>>,
        ensures
            Self::obeys_gen_call_spec() ==> r.0@ == self.called(caller, request).0,
            Self::obeys_gen_call_spec() ==> r.1 == self.called(caller, request).1,
    ;
}

/// A server: running with its state and the letters it keeps for monitors,
/// or stopped, with the error it stopped on, if any.
///
/// A stopped server can live a very long time, so it keeps nothing more than
/// the error.
pub enum GenServer<T, D> {
    Running { state: T, monitors: HashMap<i32, D> },
    Stopped { error: Option<String> },
}

/// The same optional error, held in a new value.
fn copy_error(error: &Option<String>) -> (r: Option<String>)
    ensures
        r == *error,
{
    match error {
        Some(e) => Some(e.clone()),
        None => None,
    }
}

/// How a running server is left by a call: running with the state its
/// state's answer gives, or stopped without an error when the answer gives
/// none. A stopped server takes no calls.
pub open spec fn answer_to_call<A, Req, Resp, T: GenCall<Req, Resp, D>, D>(
    server: GenServer<T, D>,
    caller: Caller<A, Resp>,
    request: Req,
    next: GenServer<T, D>,
) -> bool {
    match server {
        GenServer::Running { state, .. } => match state.called(caller, request).1 {
            Some(s) => next matches GenServer::Running { state, .. } && state == s,
            None => next is Stopped,
        },
        GenServer::Stopped { .. } => false,
    }
}

/// A server stops only on an answer with no next state: a call keeps a
/// running server running exactly when its state answers with a next state,
/// and then with that state; a stopped server takes no calls.
pub proof fn law_server_stops_only_on_none<A, Req, Resp, T: GenCall<Req, Resp, D>, D>(
    server: GenServer<T, D>,
    caller: Caller<A, Resp>,
    request: Req,
    next: GenServer<T, D>,
)
    requires
        answer_to_call(server, caller, request, next),
    ensures
        server is Running,
        next is Stopped <==> server->state.called(caller, request).1 is None,
        next is Running ==> server->state.called(caller, request).1 == Some(next->state),
{
}

impl<T, D> GenServer<T, D> {
    /// A running server with the given state and no monitors.
    pub fn new(state: T) -> (r: Self)
        ensures
            r matches GenServer::Running { state: s, monitors } && s == state && monitors@
                == Map::<i32, D>::empty(),
    {
        GenServer::Running { state, monitors: HashMap::new() }
    }

    /// Handles a call on a running server.
    ///
    /// The state answers the call. If it gives a next state, the server keeps
    /// running with it and with no monitors; if it gives none, the server
    /// stops without an error. The mail the state sent is not passed on: the
    /// server sends nothing.
    pub fn handle_call<A, Req, Resp>(self, call: Call<A, Req, Resp>) -> (r: (Mail<D>, Self)) where
        T: GenCall<Req, Resp, D>,
        D: Post<A, Reply<Resp>>,
        requires
            self is Running,
        ensures
            r.0@ == Seq::<D>::empty(),
            r.1 matches GenServer::Running { monitors, .. } ==> monitors@ == Map::<i32, D>::empty(),
            r.1 matches GenServer::Stopped { error } ==> error is None,
            T::obeys_gen_call_spec() ==> answer_to_call(self, call.caller(), call.request(), r.1),
    {
        let Call { caller, request } = call;
        match self {
            GenServer::Running { state, monitors: _ } => {
                match state.handle_call::<A>(caller, request) {
                    (_mail, Some(state)) => (
                        Vec::new(),
                        GenServer::Running { state, monitors: HashMap::new() },
                    ),
                    (_mail, None) => (Vec::new(), GenServer::Stopped { error: None }),
                }
            },
            GenServer::Stopped { .. } => {
                proof {
                    assert(false);
                }
                (Vec::new(), self)
            },
        }
    }

    /// Handles a request to monitor this server.
    ///
    /// A running server stays as it is and sends nothing. A stopped server
    /// stays stopped and sends one `Down` message, with its error and
    /// reference 1, to the monitor's address.
    pub fn handle_monitor<A>(self, monitor: Monitor<A>) -> (r: (Mail<D>, Self)) where
        D: Post<A, Down>,
        ensures
            r.1 == self,
            self is Running ==> r.0@ == Seq::<D>::empty(),
            self is Stopped ==> r.0@.len() == 1,
            self is Stopped && D::obeys_post_spec() ==> r.0@[0] == D::posted(
                Envelope { address: monitor.address, message: Down { error: self->error, reference: 1 } },
            ),
    {
        let Monitor { address } = monitor;
        match self {
            GenServer::Running { state, monitors } => (
                Vec::new(),
                GenServer::Running { state, monitors },
            ),
            GenServer::Stopped { error } => {
                let message = Down { error: copy_error(&error), reference: 1 };
                let envelope = Envelope { address, message };
                let mut mail = Vec::new();
                mail.push(D::post(envelope));
                (mail, GenServer::Stopped { error })
            },
        }
    }
}

/// Delivering through a home: the worker the home gives for the address, from
/// the system as passed in, is the one that handles the message; all the mail
/// it sent is returned, and the worker that follows is put back at the same
/// address of what the home left.
pub proof fn law_gen_delivery_uses_the_found_worker<A, M, D, S: Home<A, M, D>>(
    system: S,
    address: A,
    message: M,
    worker: S::Worker,
    rest: S,
)
    requires
        system.got(address) == (worker, rest),
    ensures
        gen_delivered::<A, M, D, S>(system, address, message) == (
            worker.handled(message).0,
            rest.with_put(address, worker.handled(message).1),
        ),
{
}

} // verus!
