use eyg::mail::{Deliverable, Envelope, Home, Mailbox, Runtime, Todos, Worker};
use std::collections::HashMap;

#[derive(Debug, Copy, Clone)]
struct Foo();
impl Mailbox for Foo {
    type Id = i32;
    type Message = Self;
}

#[derive(Debug, Copy, Clone)]
struct Bar();
// Unit is the id because there is only one Bar worker.
impl Mailbox for Bar {
    type Id = ();
    type Message = Self;
}

// The letters that MySystem knows how to deliver.
#[derive(Copy, Clone)]
enum Letter {
    Foo(Envelope<Foo>),
    Bar(Envelope<Bar>),
}

#[derive(Debug, PartialEq)]
struct FooWorker(i32);
#[derive(Debug, Copy, Clone, PartialEq)]
struct BarWorker();

impl Worker<Foo, Letter> for FooWorker {
    fn handle(self, message: &Foo) -> (Todos<Letter>, Self) {
        println!("Foo processed {:?}", message);
        (
            vec![Letter::Bar(Envelope::<Bar> { id: (), message: Bar() })],
            FooWorker(self.0 + 1),
        )
    }
}
impl Worker<Bar, Letter> for BarWorker {
    fn handle(self, message: &Bar) -> (Todos<Letter>, Self) {
        println!("Bar processed {:?}", message);
        (vec![], self)
    }
}

#[derive(Debug)]
pub struct MySystem {
    foos: HashMap<i32, FooWorker>,
    bar: BarWorker,
}
impl MySystem {
    fn new() -> MySystem {
        MySystem { foos: HashMap::new(), bar: BarWorker() }
    }
}
impl Home<Foo, Letter, FooWorker> for MySystem {
    fn get(&mut self, id: i32) -> FooWorker {
        self.foos.remove(&id).unwrap_or(FooWorker(0))
    }
    fn put(&mut self, id: i32, worker: FooWorker) {
        self.foos.insert(id, worker);
    }
}
impl Home<Bar, Letter, BarWorker> for MySystem {
    fn get(&mut self, (): ()) -> BarWorker {
        self.bar
    }
    fn put(&mut self, (): (), worker: BarWorker) {
        self.bar = worker;
    }
}

impl Deliverable<MySystem> for Letter {
    fn deliver(&self, mut my_system: MySystem) -> (Todos<Letter>, MySystem) {
        match self {
            Letter::Foo(e) => {
                let worker: FooWorker = my_system.get(e.id);
                let (outbound, new_worker) = worker.handle(&e.message);
                my_system.put(e.id, new_worker);
                (outbound, my_system)
            }
            Letter::Bar(e) => {
                let worker: BarWorker = my_system.get(e.id);
                let (outbound, new_worker) = worker.handle(&e.message);
                my_system.put(e.id, new_worker);
                (outbound, my_system)
            }
        }
    }
}

#[test]
fn lib_it_works() {
    let runtime = Runtime(MySystem::new());
    let e1 = Envelope::<Foo> { id: 1, message: Foo() };
    let e2 = Envelope::<Bar> { id: (), message: Bar() };
    let envelopes: Todos<Letter> = vec![Letter::Foo(e1), Letter::Bar(e2), Letter::Foo(e1)];
    let runtime = runtime.dispatch(envelopes);
    let no_mail: Todos<Letter> = vec![];
    let runtime = runtime.dispatch(no_mail);
    println!("{:?}", runtime.0);
    assert_eq!(runtime.0.foos.get(&1), Some(&FooWorker(2)));
}
