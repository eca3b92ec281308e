use eyg::envelope::{Envelope, Mail, Post};
use eyg::gen::{deliver, Call, Caller, Down, GenCall, GenServer, Home, Monitor, Reply};
use eyg::worker::Worker;

#[derive(Debug, Clone, Copy, PartialEq, Eq, Hash)]
pub struct MyServerId(pub i32);

// Letters that the servers in these tests send.
#[derive(Debug)]
enum Letter {
    Reply(MyServerId, i32, i32),
    Down(MyServerId, Option<String>, i32),
}

impl Post<MyServerId, Reply<i32>> for Letter {
    fn post(envelope: Envelope<MyServerId, Reply<i32>>) -> Self {
        Letter::Reply(envelope.address, envelope.message.reference, envelope.message.response)
    }
}
impl Post<MyServerId, Reply<()>> for Letter {
    fn post(envelope: Envelope<MyServerId, Reply<()>>) -> Self {
        Letter::Reply(envelope.address, envelope.message.reference, 0)
    }
}
impl Post<MyServerId, Down> for Letter {
    fn post(envelope: Envelope<MyServerId, Down>) -> Self {
        Letter::Down(envelope.address, envelope.message.error, envelope.message.reference)
    }
}

#[derive(Debug, PartialEq)]
pub struct MyServer {}

// Answers a number with its successor and keeps running.
impl GenCall<i32, i32, Letter> for MyServer {
    fn handle_call<A>(self, caller: Caller<A, i32>, request: i32) -> (Mail<Letter>, Option<Self>)
    where
        Letter: Post<A, Reply<i32>>,
    {
        let Caller { address, reference, .. } = caller;
        let envelope = Envelope { address, message: Reply { reference, response: request + 1 } };
        (vec![Letter::post(envelope)], Some(self))
    }
}

enum Only {
    One,
}

// Answers `Only::One` and stops.
impl GenCall<Only, (), Letter> for MyServer {
    fn handle_call<A>(self, caller: Caller<A, ()>, _request: Only) -> (Mail<Letter>, Option<Self>)
    where
        Letter: Post<A, Reply<()>>,
    {
        let Caller { address, reference, .. } = caller;
        let envelope = Envelope { address, message: Reply { reference, response: () } };
        (vec![Letter::post(envelope)], None)
    }
}

#[test]
fn other_test() {
    let server: GenServer<MyServer, Letter> = GenServer::new(MyServer {});
    let call = Call::new(Caller::new(MyServerId(5), 111), 43);
    let (out, server) = server.handle_call(call);
    assert!(out.is_empty());
    match &server {
        GenServer::Running { state, monitors } => {
            assert_eq!(*state, MyServer {});
            assert!(monitors.is_empty());
        }
        GenServer::Stopped { .. } => panic!("server should run"),
    }
    let call = Call::new(Caller::new(MyServerId(5), 111), Only::One);
    let (out, server) = server.handle_call(call);
    assert!(out.is_empty());
    assert!(matches!(server, GenServer::Stopped { error: None }));
    let monitor = Monitor { address: MyServerId(5) };
    let (out, server) = server.handle_monitor(monitor);
    println!("Count - {:?}", out.iter().count());
    assert_eq!(out.len(), 1);
    assert!(matches!(&out[0], Letter::Down(MyServerId(5), None, 1)));
    assert!(matches!(server, GenServer::Stopped { error: None }));
}

#[test]
fn running_server_ignores_monitor() {
    let server: GenServer<MyServer, Letter> = GenServer::new(MyServer {});
    let (out, server) = server.handle_monitor(Monitor { address: MyServerId(1) });
    assert!(out.is_empty());
    assert!(matches!(server, GenServer::Running { state: MyServer {}, .. }));
}

#[test]
fn stopped_server_reports_its_error() {
    let server: GenServer<MyServer, Letter> = GenServer::Stopped { error: Some("crashed".to_string()) };
    let (out, server) = server.handle_monitor(Monitor { address: MyServerId(9) });
    assert_eq!(out.len(), 1);
    match &out[0] {
        Letter::Down(address, error, reference) => {
            assert_eq!(*address, MyServerId(9));
            assert_eq!(error.as_deref(), Some("crashed"));
            assert_eq!(*reference, 1);
        }
        _ => panic!("expected a Down letter"),
    }
    assert!(matches!(server, GenServer::Stopped { error: Some(_) }));
}

// A system that keeps one counter for every address.
struct OneCounter(i32);
#[derive(Debug, PartialEq)]
struct Count(i32);

impl Worker<i32, Letter> for Count {
    fn new() -> Self {
        Count(0)
    }
    fn handle(self, message: i32) -> (Mail<Letter>, Self) {
        (vec![Letter::Reply(MyServerId(0), 0, self.0 + message)], Count(self.0 + message))
    }
}

impl Home<MyServerId, i32, Letter> for OneCounter {
    type Worker = Count;
    fn get(self, _address: &MyServerId) -> (Count, Self) {
        (Count(self.0), self)
    }
    fn put(self, _address: MyServerId, worker: Count) -> Self {
        OneCounter(worker.0)
    }
}

#[test]
fn gen_deliver_keeps_the_worker_state() {
    let (out, system) = deliver(Envelope { address: MyServerId(3), message: 4 }, OneCounter(10));
    assert_eq!(out.len(), 1);
    assert!(matches!(out[0], Letter::Reply(MyServerId(0), 0, 14)));
    assert_eq!(system.0, 14);
    let (out, system) = deliver(Envelope { address: MyServerId(3), message: 1 }, system);
    assert!(matches!(out[0], Letter::Reply(MyServerId(0), 0, 15)));
    assert_eq!(system.0, 15);
}
