use eyg::mailbox::{deliver_to_workers, Deliverable, Envelope, Mailbox, Runtime, Todos, Worker};
use std::collections::HashMap;

#[derive(Debug, Copy, Clone)]
struct CounterProtocol();
impl Mailbox for CounterProtocol {
    type Id = i32;
    type Message = Self;
}

#[derive(Debug, Copy, Clone)]
struct Bar();
impl Mailbox for Bar {
    type Id = ();
    type Message = Self;
}

#[derive(Copy, Clone)]
enum Letter {
    Counter(Envelope<CounterProtocol>),
    Bar(Envelope<Bar>),
}

#[derive(Debug, PartialEq)]
struct FooWorker(i32);
#[derive(Debug, PartialEq)]
struct BarWorker(i32);

impl Worker<CounterProtocol, Letter> for FooWorker {
    fn new() -> Self {
        FooWorker(0)
    }
    fn handle(self, _message: &CounterProtocol) -> (Todos<Letter>, Self) {
        (
            vec![Letter::Bar(Envelope::<Bar> { id: (), message: Bar() })],
            FooWorker(self.0 + 1),
        )
    }
}
impl Worker<Bar, Letter> for BarWorker {
    fn new() -> Self {
        BarWorker(0)
    }
    fn handle(self, _message: &Bar) -> (Todos<Letter>, Self) {
        (vec![], BarWorker(self.0 + 1))
    }
}

// A system with one table of workers for each mailbox type.
#[derive(Debug, Default)]
struct Tables {
    counters: HashMap<i32, FooWorker>,
    bars: HashMap<(), BarWorker>,
}

impl Deliverable<Tables> for Letter {
    fn deliver(&self, mut system: Tables) -> (Todos<Letter>, Tables) {
        let out = match self {
            Letter::Counter(e) => deliver_to_workers(&mut system.counters, e),
            Letter::Bar(e) => deliver_to_workers(&mut system.bars, e),
        };
        (out, system)
    }
}

#[test]
fn worker_is_started_on_demand() {
    let mut counters: HashMap<i32, FooWorker> = HashMap::new();
    let sent = deliver_to_workers(&mut counters, &Envelope::<CounterProtocol> { id: 4, message: CounterProtocol() });
    assert_eq!(counters.get(&4), Some(&FooWorker(1)));
    assert_eq!(sent.len(), 1);
    assert!(matches!(sent[0], Letter::Bar(_)));
}

#[test]
fn worker_state_persists_and_others_are_untouched() {
    let mut counters: HashMap<i32, FooWorker> = HashMap::new();
    counters.insert(2, FooWorker(10));
    let e = Envelope::<CounterProtocol> { id: 1, message: CounterProtocol() };
    deliver_to_workers(&mut counters, &e);
    deliver_to_workers(&mut counters, &e);
    assert_eq!(counters.get(&1), Some(&FooWorker(2)));
    assert_eq!(counters.get(&2), Some(&FooWorker(10)));
    assert_eq!(counters.len(), 2);
}

#[test]
fn runtime_new_keeps_system_and_dispatch_delivers_all() {
    let runtime = Runtime::new(Tables::default());
    assert!(runtime.0.counters.is_empty());
    let e1 = Envelope::<CounterProtocol> { id: 1, message: CounterProtocol() };
    let e2 = Envelope::<Bar> { id: (), message: Bar() };
    let envelopes: Todos<Letter> = vec![Letter::Counter(e1), Letter::Bar(e2), Letter::Counter(e1)];
    let runtime = runtime.dispatch(envelopes);
    let no_mail: Todos<Letter> = vec![];
    let runtime = runtime.dispatch(no_mail);
    assert_eq!(runtime.0.counters.get(&1), Some(&FooWorker(2)));
    assert_eq!(runtime.0.bars.get(&()), Some(&BarWorker(3)));
}
