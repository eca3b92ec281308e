use eyg::envelope;
use eyg::mail;
use eyg::runtime::OrderedRuntime;

// A letter that writes its number into the system's log when delivered and
// sends one new letter for each number in `spawn`.
#[derive(Clone, Debug, PartialEq)]
struct Note {
    number: u32,
    spawn: Vec<u32>,
}

fn note(number: u32, spawn: Vec<u32>) -> Note {
    Note { number, spawn }
}

impl mail::Deliverable<Vec<u32>> for Note {
    fn deliver(&self, mut log: Vec<u32>) -> (Vec<Note>, Vec<u32>) {
        log.push(self.number);
        (self.spawn.iter().map(|n| note(*n, vec![])).collect(), log)
    }
}

impl envelope::Deliverable<Vec<u32>> for Note {
    fn deliver(self, mut log: Vec<u32>) -> (Vec<Note>, Vec<u32>) {
        log.push(self.number);
        (self.spawn.iter().map(|n| note(*n, vec![])).collect(), log)
    }
}

#[test]
fn stack_runtime_delivers_last_letter_first() {
    let runtime = mail::Runtime(vec![]);
    let runtime = runtime.dispatch(vec![note(1, vec![10, 11]), note(2, vec![])]);
    assert_eq!(runtime.0, vec![2, 1, 11, 10]);
}

#[test]
fn stack_runtime_without_mail_keeps_system() {
    let runtime = mail::Runtime(vec![7u32]);
    let runtime = runtime.dispatch(Vec::<Note>::new());
    assert_eq!(runtime.0, vec![7]);
}

#[test]
fn stack_runtime_runs_top_before_under() {
    let under = vec![note(1, vec![3]), note(2, vec![])];
    let top = vec![note(4, vec![5, 6]), note(7, vec![8])];
    let mut whole = under.clone();
    whole.extend(top.clone());

    let at_once = mail::Runtime(vec![]).dispatch(whole);
    let top_then_under = mail::Runtime(vec![]).dispatch(top).dispatch(under);
    assert_eq!(at_once.0, top_then_under.0);
    assert_eq!(at_once.0, vec![7, 8, 4, 6, 5, 2, 1, 3]);
}

#[test]
fn ordered_runtime_delivers_in_order() {
    let runtime = OrderedRuntime::new(vec![]);
    let runtime = runtime.dispatch(vec![note(1, vec![10, 11]), note(2, vec![20]), note(3, vec![])]);
    // The given mail first, in its order, then what each delivery sent.
    assert_eq!(runtime.system, vec![1, 2, 3, 10, 11, 20]);
}

#[test]
fn ordered_runtime_without_mail_keeps_system() {
    let runtime = OrderedRuntime::new(vec![5u32, 6]);
    let runtime = runtime.dispatch(Vec::<Note>::new());
    assert_eq!(runtime.system, vec![5, 6]);
}

#[test]
fn ordered_runtime_delivers_given_mail_first() {
    let given = vec![note(9, vec![1, 2, 3]), note(8, vec![4]), note(7, vec![5])];
    let numbers: Vec<u32> = given.iter().map(|n| n.number).collect();
    let runtime = OrderedRuntime::new(vec![]).dispatch(given);
    assert_eq!(runtime.system[..numbers.len()], numbers[..]);
}

// Letters that add to a running total and send nothing: any two deliveries
// commute.
#[derive(Clone, Copy, Debug)]
struct Add(u64);

impl mail::Deliverable<u64> for Add {
    fn deliver(&self, total: u64) -> (Vec<Add>, u64) {
        (vec![], total + self.0)
    }
}

impl envelope::Deliverable<u64> for Add {
    fn deliver(self, total: u64) -> (Vec<Add>, u64) {
        (vec![], total + self.0)
    }
}

#[test]
fn commuting_mail_ends_the_same_in_any_order() {
    let mail = vec![Add(1), Add(20), Add(300)];
    let reordered = vec![Add(300), Add(1), Add(20)];
    let expected = 5 + 321;
    assert_eq!(mail::Runtime(5u64).dispatch(mail.clone()).0, expected);
    assert_eq!(mail::Runtime(5u64).dispatch(reordered.clone()).0, expected);
    assert_eq!(OrderedRuntime::new(5u64).dispatch(mail).system, expected);
    assert_eq!(OrderedRuntime::new(5u64).dispatch(reordered).system, expected);
}

#[test]
fn ordered_runtime_sends_mail_behind_earlier_mail() {
    // 1 sends 10 and 11; 2 sends 20; 10 sends nothing (only the given mail
    // spawns). The mail sent at each turn goes behind all that was pending.
    let runtime = OrderedRuntime::new(vec![]).dispatch(vec![note(1, vec![10, 11]), note(2, vec![20])]);
    assert_eq!(runtime.system, vec![1, 2, 10, 11, 20]);
}
