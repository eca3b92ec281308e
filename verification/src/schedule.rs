//! The mathematical model of running mail through a system.
//!
//! A system is driven by letters. Delivering a letter to a system gives back
//! the mail that the delivery sent and the system as the delivery left it; a
//! `spec_fn(D, S) -> (Seq<D>, S)` stands for that. A runtime keeps the mail
//! that is still to be delivered and takes one letter at a time:
//!
//! * the stack discipline takes the letter that was added last and puts what
//!   the delivery sent on top of the rest;
//! * the queue discipline takes the letter that was added first and puts what
//!   the delivery sent behind the rest.
//!
//! A run ends when no mail is left. Nothing forces that moment to come: a
//! worker may keep answering forever. The runtimes therefore ask, in their
//! `requires`, that the mail they are given drains.
use vstd::prelude::*;

verus! {

/// One turn of the stack discipline: the last letter is delivered and the mail
/// it sent goes on top. With no mail left, nothing changes.
pub open spec fn stack_turn<D, S>(
    step: spec_fn(D, S) -> (Seq<D>, S),
    system: S,
    mail: Seq<D>,
) -> (S, Seq<D>) {
    if mail.len() == 0 {
        (system, mail)
    } else {
        let (sent, next) = step(mail.last(), system);
        (next, mail.drop_last() + sent)
    }
}

/// One turn of the queue discipline: the first letter is delivered and the
/// mail it sent joins the back of the queue. With no mail left, nothing
/// changes.
pub open spec fn queue_turn<D, S>(
    step: spec_fn(D, S) -> (Seq<D>, S),
    system: S,
    mail: Seq<D>,
) -> (S, Seq<D>) {
    if mail.len() == 0 {
        (system, mail)
    } else {
        let (sent, next) = step(mail[0], system);
        (next, mail.drop_first() + sent)
    }
}

/// The system and the pending mail after `turns` turns of the stack discipline.
pub open spec fn stack_after<D, S>(
    step: spec_fn(D, S) -> (Seq<D>, S),
    system: S,
    mail: Seq<D>,
    turns: nat,
) -> (S, Seq<D>)
    decreases turns,
{
    if turns == 0 {
        (system, mail)
    } else {
        let (s, m) = stack_turn(step, system, mail);
        stack_after(step, s, m, (turns - 1) as nat)
    }
}

/// The system and the pending mail after `turns` turns of the queue discipline.
pub open spec fn queue_after<D, S>(
    step: spec_fn(D, S) -> (Seq<D>, S),
    system: S,
    mail: Seq<D>,
    turns: nat,
) -> (S, Seq<D>)
    decreases turns,
{
    if turns == 0 {
        (system, mail)
    } else {
        let (s, m) = queue_turn(step, system, mail);
        queue_after(step, s, m, (turns - 1) as nat)
    }
}

/// Under the stack discipline, the mail runs out after finitely many turns.
pub open spec fn stack_drains<D, S>(
    step: spec_fn(D, S) -> (Seq<D>, S),
    system: S,
    mail: Seq<D>,
) -> bool {
    exists|n: nat| (#[trigger] stack_after(step, system, mail, n)).1.len() == 0
}

/// Under the queue discipline, the mail runs out after finitely many turns.
pub open spec fn queue_drains<D, S>(
    step: spec_fn(D, S) -> (Seq<D>, S),
    system: S,
    mail: Seq<D>,
) -> bool {
    exists|n: nat| (#[trigger] queue_after(step, system, mail, n)).1.len() == 0
}

/// The system once the stack discipline has delivered all the mail.
pub open spec fn stack_outcome<D, S>(
    step: spec_fn(D, S) -> (Seq<D>, S),
    system: S,
    mail: Seq<D>,
) -> S {
    stack_after(
        step,
        system,
        mail,
        choose|n: nat| (#[trigger] stack_after(step, system, mail, n)).1.len() == 0,
    ).0
}

/// The system once the queue discipline has delivered all the mail.
pub open spec fn queue_outcome<D, S>(
    step: spec_fn(D, S) -> (Seq<D>, S),
    system: S,
    mail: Seq<D>,
) -> S {
    queue_after(
        step,
        system,
        mail,
        choose|n: nat| (#[trigger] queue_after(step, system, mail, n)).1.len() == 0,
    ).0
}

// ---------------------------------------------------------------------------
// Stack discipline: basic facts.

/// Turns compose: `a + b` turns are `a` turns followed by `b` turns.
pub proof fn lemma_stack_after_add<D, S>(
    step: spec_fn(D, S) -> (Seq<D>, S),
    system: S,
    mail: Seq<D>,
    a: nat,
    b: nat,
)
    ensures
        stack_after(step, system, mail, a + b) == stack_after(
            step,
            stack_after(step, system, mail, a).0,
            stack_after(step, system, mail, a).1,
            b,
        ),
    decreases a,
{
    if a > 0 {
        let (s, m) = stack_turn(step, system, mail);
        lemma_stack_after_add(step, s, m, (a - 1) as nat, b);
        assert((a + b - 1) as nat == ((a - 1) as nat + b) as nat);
    }
}

/// Once no mail is left, further turns change nothing.
pub proof fn lemma_stack_rest<D, S>(
    step: spec_fn(D, S) -> (Seq<D>, S),
    system: S,
    mail: Seq<D>,
    n: nat,
)
    requires
        mail.len() == 0,
    ensures
        stack_after(step, system, mail, n) == (system, mail),
    decreases n,
{
    if n > 0 {
        lemma_stack_rest(step, system, mail, (n - 1) as nat);
    }
}

/// Once the mail has run out at turn `k`, every later turn shows the same
/// system and no mail.
pub proof fn lemma_stack_stays_drained<D, S>(
    step: spec_fn(D, S) -> (Seq<D>, S),
    system: S,
    mail: Seq<D>,
    k: nat,
    j: nat,
)
    requires
        k <= j,
        stack_after(step, system, mail, k).1.len() == 0,
    ensures
        stack_after(step, system, mail, j) == stack_after(step, system, mail, k),
{
    lemma_stack_after_add(step, system, mail, k, (j - k) as nat);
    let (s, m) = stack_after(step, system, mail, k);
    lemma_stack_rest(step, s, m, (j - k) as nat);
    assert(k + (j - k) as nat == j);
}

/// Any two turns at which the mail has run out show the same system.
pub proof fn lemma_stack_drained_unique<D, S>(
    step: spec_fn(D, S) -> (Seq<D>, S),
    system: S,
    mail: Seq<D>,
    n: nat,
    m: nat,
)
    requires
        stack_after(step, system, mail, n).1.len() == 0,
        stack_after(step, system, mail, m).1.len() == 0,
    ensures
        stack_after(step, system, mail, n) == stack_after(step, system, mail, m),
{
    if n <= m {
        lemma_stack_stays_drained(step, system, mail, n, m);
    } else {
        lemma_stack_stays_drained(step, system, mail, m, n);
    }
}

/// The outcome is the system at any turn at which the mail has run out.
pub proof fn lemma_stack_outcome_at<D, S>(
    step: spec_fn(D, S) -> (Seq<D>, S),
    system: S,
    mail: Seq<D>,
    n: nat,
)
    requires
        stack_after(step, system, mail, n).1.len() == 0,
    ensures
        stack_drains(step, system, mail),
        stack_outcome(step, system, mail) == stack_after(step, system, mail, n).0,
{
    let c = choose|k: nat| (#[trigger] stack_after(step, system, mail, k)).1.len() == 0;
    lemma_stack_drained_unique(step, system, mail, n, c);
}

/// One turn neither ends nor starts the draining of the mail, and leaves the
/// outcome as it was.
pub proof fn lemma_stack_turn_keeps_outcome<D, S>(
    step: spec_fn(D, S) -> (Seq<D>, S),
    system: S,
    mail: Seq<D>,
    n: nat,
)
    requires
        mail.len() > 0,
        stack_after(step, system, mail, n).1.len() == 0,
    ensures
        n > 0,
        stack_after(
            step,
            stack_turn(step, system, mail).0,
            stack_turn(step, system, mail).1,
            (n - 1) as nat,
        ).1.len() == 0,
        stack_outcome(step, stack_turn(step, system, mail).0, stack_turn(step, system, mail).1)
            == stack_outcome(step, system, mail),
{
    let (s, m) = stack_turn(step, system, mail);
    lemma_stack_outcome_at(step, system, mail, n);
    lemma_stack_outcome_at(step, s, m, (n - 1) as nat);
}

// ---------------------------------------------------------------------------
// Queue discipline: basic facts.

/// Turns compose: `a + b` turns are `a` turns followed by `b` turns.
pub proof fn lemma_queue_after_add<D, S>(
    step: spec_fn(D, S) -> (Seq<D>, S),
    system: S,
    mail: Seq<D>,
    a: nat,
    b: nat,
)
    ensures
        queue_after(step, system, mail, a + b) == queue_after(
            step,
            queue_after(step, system, mail, a).0,
            queue_after(step, system, mail, a).1,
            b,
        ),
    decreases a,
{
    if a > 0 {
        let (s, m) = queue_turn(step, system, mail);
        lemma_queue_after_add(step, s, m, (a - 1) as nat, b);
        assert((a + b - 1) as nat == ((a - 1) as nat + b) as nat);
    }
}

/// Once no mail is left, further turns change nothing.
pub proof fn lemma_queue_rest<D, S>(
    step: spec_fn(D, S) -> (Seq<D>, S),
    system: S,
    mail: Seq<D>,
    n: nat,
)
    requires
        mail.len() == 0,
    ensures
        queue_after(step, system, mail, n) == (system, mail),
    decreases n,
{
    if n > 0 {
        lemma_queue_rest(step, system, mail, (n - 1) as nat);
    }
}

/// Any two turns at which the mail has run out show the same system.
pub proof fn lemma_queue_drained_unique<D, S>(
    step: spec_fn(D, S) -> (Seq<D>, S),
    system: S,
    mail: Seq<D>,
    n: nat,
    m: nat,
)
    requires
        queue_after(step, system, mail, n).1.len() == 0,
        queue_after(step, system, mail, m).1.len() == 0,
    ensures
        queue_after(step, system, mail, n) == queue_after(step, system, mail, m),
{
    if n <= m {
        lemma_queue_after_add(step, system, mail, n, (m - n) as nat);
        let (s, q) = queue_after(step, system, mail, n);
        lemma_queue_rest(step, s, q, (m - n) as nat);
        assert(n + (m - n) as nat == m);
    } else {
        lemma_queue_after_add(step, system, mail, m, (n - m) as nat);
        let (s, q) = queue_after(step, system, mail, m);
        lemma_queue_rest(step, s, q, (n - m) as nat);
        assert(m + (n - m) as nat == n);
    }
}

/// The outcome is the system at any turn at which the mail has run out.
pub proof fn lemma_queue_outcome_at<D, S>(
    step: spec_fn(D, S) -> (Seq<D>, S),
    system: S,
    mail: Seq<D>,
    n: nat,
)
    requires
        queue_after(step, system, mail, n).1.len() == 0,
    ensures
        queue_drains(step, system, mail),
        queue_outcome(step, system, mail) == queue_after(step, system, mail, n).0,
{
    let c = choose|k: nat| (#[trigger] queue_after(step, system, mail, k)).1.len() == 0;
    lemma_queue_drained_unique(step, system, mail, n, c);
}

/// One turn leaves the outcome as it was.
pub proof fn lemma_queue_turn_keeps_outcome<D, S>(
    step: spec_fn(D, S) -> (Seq<D>, S),
    system: S,
    mail: Seq<D>,
    n: nat,
)
    requires
        mail.len() > 0,
        queue_after(step, system, mail, n).1.len() == 0,
    ensures
        n > 0,
        queue_after(
            step,
            queue_turn(step, system, mail).0,
            queue_turn(step, system, mail).1,
            (n - 1) as nat,
        ).1.len() == 0,
        queue_outcome(step, queue_turn(step, system, mail).0, queue_turn(step, system, mail).1)
            == queue_outcome(step, system, mail),
{
    let (s, m) = queue_turn(step, system, mail);
    lemma_queue_outcome_at(step, system, mail, n);
    lemma_queue_outcome_at(step, s, m, (n - 1) as nat);
}

// ---------------------------------------------------------------------------
// Stack discipline: what lies underneath waits.

/// While the mail on top has not run out, a stack run on `under + top` is the
/// run on `top` with `under` lying untouched underneath.
proof fn lemma_stack_under<D, S>(
    step: spec_fn(D, S) -> (Seq<D>, S),
    system: S,
    under: Seq<D>,
    top: Seq<D>,
    n: nat,
)
    requires
        forall|k: nat| k < n ==> (#[trigger] stack_after(step, system, top, k)).1.len() > 0,
    ensures
        stack_after(step, system, under + top, n) == (
            stack_after(step, system, top, n).0,
            under + stack_after(step, system, top, n).1,
        ),
    decreases n,
{
    if n > 0 {
        assert(stack_after(step, system, top, 0).1.len() > 0);
        let (sent, next) = step(top.last(), system);
        let (s1, q1) = stack_turn(step, system, top);
        assert((under + top).last() == top.last());
        assert((under + top).drop_last() + sent =~= under + (top.drop_last() + sent));
        assert(stack_turn(step, system, under + top) == (s1, under + q1));
        assert forall|k: nat| k < (n - 1) as nat implies (#[trigger] stack_after(
            step,
            s1,
            q1,
            k,
        )).1.len() > 0 by {
            assert(stack_after(step, system, top, k + 1) == stack_after(step, s1, q1, k));
        }
        lemma_stack_under(step, s1, under, q1, (n - 1) as nat);
    }
}

/// The first turn at which the mail has run out.
proof fn lemma_stack_first_drain<D, S>(
    step: spec_fn(D, S) -> (Seq<D>, S),
    system: S,
    mail: Seq<D>,
    n: nat,
) -> (m: nat)
    requires
        stack_after(step, system, mail, n).1.len() == 0,
    ensures
        m <= n,
        stack_after(step, system, mail, m).1.len() == 0,
        forall|k: nat| k < m ==> (#[trigger] stack_after(step, system, mail, k)).1.len() > 0,
    decreases n,
{
    if n == 0 {
        0
    } else if stack_after(step, system, mail, (n - 1) as nat).1.len() == 0 {
        lemma_stack_first_drain(step, system, mail, (n - 1) as nat)
    } else {
        assert forall|k: nat| k < n implies (#[trigger] stack_after(
            step,
            system,
            mail,
            k,
        )).1.len() > 0 by {
            if stack_after(step, system, mail, k).1.len() == 0 {
                lemma_stack_stays_drained(step, system, mail, k, (n - 1) as nat);
            }
        }
        n
    }
}

/// Delivering no mail leaves the system as it is.
pub proof fn law_stack_no_mail<D, S>(step: spec_fn(D, S) -> (Seq<D>, S), system: S)
    ensures
        stack_drains(step, system, Seq::<D>::empty()),
        stack_outcome(step, system, Seq::<D>::empty()) == system,
{
    lemma_stack_outcome_at(step, system, Seq::<D>::empty(), 0);
}

/// Under the stack discipline, mail lying underneath is only delivered once
/// the mail on top, and all it sends, has been delivered. Running
/// `under + top` is running `top` and then running `under` on the system that
/// `top` left; the one drains exactly when both parts do.
pub proof fn law_stack_runs_top_first<D, S>(
    step: spec_fn(D, S) -> (Seq<D>, S),
    system: S,
    under: Seq<D>,
    top: Seq<D>,
)
    ensures
        stack_drains(step, system, under + top) <==> (stack_drains(step, system, top)
            && stack_drains(step, stack_outcome(step, system, top), under)),
        stack_drains(step, system, under + top) ==> stack_outcome(step, system, under + top)
            == stack_outcome(step, stack_outcome(step, system, top), under),
{
    let whole = under + top;
    if stack_drains(step, system, top) {
        let n = choose|n: nat| (#[trigger] stack_after(step, system, top, n)).1.len() == 0;
        let m = lemma_stack_first_drain(step, system, top, n);
        lemma_stack_under(step, system, under, top, m);
        lemma_stack_outcome_at(step, system, top, m);
        let mid = stack_outcome(step, system, top);
        assert(under + stack_after(step, system, top, m).1 =~= under);
        assert(stack_after(step, system, whole, m) == (mid, under));
        if stack_drains(step, mid, under) {
            let j = choose|j: nat| (#[trigger] stack_after(step, mid, under, j)).1.len() == 0;
            lemma_stack_after_add(step, system, whole, m, j);
            lemma_stack_outcome_at(step, system, whole, m + j);
            lemma_stack_outcome_at(step, mid, under, j);
        }
        if stack_drains(step, system, whole) {
            let k = choose|k: nat| (#[trigger] stack_after(step, system, whole, k)).1.len() == 0;
            let big = if k < m {
                m
            } else {
                k
            };
            lemma_stack_stays_drained(step, system, whole, k, big);
            lemma_stack_after_add(step, system, whole, m, (big - m) as nat);
            assert(m + (big - m) as nat == big);
            lemma_stack_outcome_at(step, mid, under, (big - m) as nat);
        }
    } else {
        if stack_drains(step, system, whole) {
            let k = choose|k: nat| (#[trigger] stack_after(step, system, whole, k)).1.len() == 0;
            assert forall|j: nat| j < k implies (#[trigger] stack_after(
                step,
                system,
                top,
                j,
            )).1.len() > 0 by {
                if stack_after(step, system, top, j).1.len() == 0 {
                    lemma_stack_outcome_at(step, system, top, j);
                }
            }
            lemma_stack_under(step, system, under, top, k);
            if stack_after(step, system, top, k).1.len() == 0 {
                lemma_stack_outcome_at(step, system, top, k);
            }
            assert((under + stack_after(step, system, top, k).1).len() > 0);
        }
    }
}

// ---------------------------------------------------------------------------
// Queue discipline: mail goes out in order.

/// After `k` turns, the queue still starts with the letters of `mail` from
/// position `k` on, in their order.
proof fn lemma_queue_front<D, S>(
    step: spec_fn(D, S) -> (Seq<D>, S),
    system: S,
    mail: Seq<D>,
    k: nat,
)
    requires
        k <= mail.len(),
    ensures
        queue_after(step, system, mail, k).1.len() >= mail.len() - k,
        forall|i: int|
            0 <= i < mail.len() - k ==> #[trigger] queue_after(step, system, mail, k).1[i]
                == mail[k + i],
    decreases k,
{
    if k > 0 {
        let (s1, q1) = queue_turn(step, system, mail);
        lemma_queue_front(step, s1, q1, (k - 1) as nat);
        assert forall|i: int| 0 <= i < mail.len() - k implies #[trigger] queue_after(
            step,
            system,
            mail,
            k,
        ).1[i] == mail[k + i] by {
            assert(q1[(k - 1) + i] == mail[k + i]);
        }
    }
}

/// Delivering no mail leaves the system as it is.
pub proof fn law_queue_no_mail<D, S>(step: spec_fn(D, S) -> (Seq<D>, S), system: S)
    ensures
        queue_drains(step, system, Seq::<D>::empty()),
        queue_outcome(step, system, Seq::<D>::empty()) == system,
{
    lemma_queue_outcome_at(step, system, Seq::<D>::empty(), 0);
}

/// Under the queue discipline the given mail is delivered in its order: the
/// letter that turn `k` delivers is `mail[k]`, for each position of the given
/// mail, whatever the deliveries before it sent.
pub proof fn law_queue_delivers_in_order<D, S>(
    step: spec_fn(D, S) -> (Seq<D>, S),
    system: S,
    mail: Seq<D>,
    k: nat,
)
    requires
        k < mail.len(),
    ensures
        queue_after(step, system, mail, k).1.len() > 0,
        queue_after(step, system, mail, k).1[0] == mail[k as int],
{
    lemma_queue_front(step, system, mail, k);
    assert(queue_after(step, system, mail, k).1[0] == mail[k + 0int]);
}

/// Under the queue discipline, mail waits its turn: at any turn, the letter
/// at position `i` of the pending mail is the one delivered `i` turns later,
/// and the mail a delivery sends goes, in its order, behind all the mail that
/// was pending before it. So a sent letter is delivered after its sender and
/// after all mail sent earlier.
pub proof fn law_queue_mail_waits_its_turn<D, S>(
    step: spec_fn(D, S) -> (Seq<D>, S),
    system: S,
    mail: Seq<D>,
    k: nat,
    i: nat,
)
    requires
        i < queue_after(step, system, mail, k).1.len(),
    ensures
        queue_after(step, system, mail, k + i).1.len() > 0,
        queue_after(step, system, mail, k + i).1[0] == queue_after(step, system, mail, k).1[i as int],
        queue_after(step, system, mail, k + 1).1 == queue_after(step, system, mail, k).1.drop_first()
            + step(queue_after(step, system, mail, k).1[0], queue_after(step, system, mail, k).0).0,
{
    let (sk, qk) = queue_after(step, system, mail, k);
    lemma_queue_after_add(step, system, mail, k, i);
    lemma_queue_front(step, sk, qk, i);
    assert(queue_after(step, sk, qk, i).1[0] == qk[i + 0int]);
    lemma_queue_after_add(step, system, mail, k, 1);
    let (s1, q1) = queue_turn(step, sk, qk);
    assert(queue_after(step, s1, q1, 0) == (s1, q1));
    assert(queue_after(step, sk, qk, 1) == queue_turn(step, sk, qk));
}

// ---------------------------------------------------------------------------
// Mail whose order does not matter.

/// No delivery sends any mail.
pub open spec fn sends_nothing<D, S>(step: spec_fn(D, S) -> (Seq<D>, S)) -> bool {
    forall|d: D, s: S| (#[trigger] step(d, s)).0.len() == 0
}

/// Any two deliveries, made one after the other, leave the same system in
/// either order.
pub open spec fn deliveries_commute<D, S>(step: spec_fn(D, S) -> (Seq<D>, S)) -> bool {
    forall|a: D, b: D, s: S| #[trigger] step(a, step(b, s).1).1 == step(b, step(a, s).1).1
}

/// The system left by delivering the letters of `mail` once each, in order,
/// with the mail they send set aside.
pub open spec fn deliver_all<D, S>(step: spec_fn(D, S) -> (Seq<D>, S), system: S, mail: Seq<D>) -> S
    decreases mail.len(),
{
    if mail.len() == 0 {
        system
    } else {
        deliver_all(step, step(mail[0], system).1, mail.drop_first())
    }
}

proof fn lemma_deliver_all_concat<D, S>(
    step: spec_fn(D, S) -> (Seq<D>, S),
    system: S,
    a: Seq<D>,
    b: Seq<D>,
)
    ensures
        deliver_all(step, system, a + b) == deliver_all(step, deliver_all(step, system, a), b),
    decreases a.len(),
{
    if a.len() == 0 {
        assert(a + b =~= b);
    } else {
        assert((a + b).drop_first() =~= a.drop_first() + b);
        assert((a + b)[0] == a[0]);
        lemma_deliver_all_concat(step, step(a[0], system).1, a.drop_first(), b);
    }
}

/// A delivery that commutes with all others can be made first or last.
proof fn lemma_deliver_all_moves_past<D, S>(
    step: spec_fn(D, S) -> (Seq<D>, S),
    system: S,
    x: D,
    mail: Seq<D>,
)
    requires
        deliveries_commute(step),
    ensures
        deliver_all(step, step(x, system).1, mail) == step(x, deliver_all(step, system, mail)).1,
    decreases mail.len(),
{
    if mail.len() > 0 {
        assert(step(mail[0], step(x, system).1).1 == step(x, step(mail[0], system).1).1);
        lemma_deliver_all_moves_past(step, step(mail[0], system).1, x, mail.drop_first());
    }
}

/// With commuting deliveries, any reordering of the mail leaves the same
/// system.
proof fn lemma_deliver_all_reordered<D, S>(
    step: spec_fn(D, S) -> (Seq<D>, S),
    system: S,
    mail: Seq<D>,
    reordered: Seq<D>,
)
    requires
        deliveries_commute(step),
        reordered.to_multiset() == mail.to_multiset(),
    ensures
        deliver_all(step, system, reordered) == deliver_all(step, system, mail),
    decreases mail.len(),
{
    broadcast use vstd::seq_lib::group_to_multiset_ensures;

    if mail.len() == 0 {
        assert(reordered.to_multiset().len() == 0);
    } else {
        let x = mail[0];
        assert(mail.contains(x));
        assert(mail.to_multiset().count(x) > 0);
        assert(reordered.contains(x));
        let j = choose|j: int| 0 <= j < reordered.len() && reordered[j] == x;
        let before = reordered.take(j);
        let after = reordered.skip(j + 1);
        assert(reordered =~= before + (seq![x] + after));
        lemma_deliver_all_concat(step, system, before, seq![x] + after);
        let mid = deliver_all(step, system, before);
        assert((seq![x] + after).drop_first() =~= after);
        assert(deliver_all(step, mid, seq![x] + after) == deliver_all(step, step(x, mid).1, after));
        lemma_deliver_all_moves_past(step, system, x, before);
        lemma_deliver_all_concat(step, step(x, system).1, before, after);
        assert(reordered.remove(j) =~= before + after);
        assert(mail.remove(0) =~= mail.drop_first());
        lemma_deliver_all_reordered(step, step(x, system).1, mail.drop_first(), before + after);
    }
}

/// When no delivery sends mail, the queue discipline delivers each letter
/// once, in order.
proof fn lemma_queue_without_sending<D, S>(
    step: spec_fn(D, S) -> (Seq<D>, S),
    system: S,
    mail: Seq<D>,
)
    requires
        sends_nothing(step),
    ensures
        queue_after(step, system, mail, mail.len()) == (
            deliver_all(step, system, mail),
            Seq::<D>::empty(),
        ),
    decreases mail.len(),
{
    if mail.len() > 0 {
        assert(step(mail[0], system).0.len() == 0);
        assert(mail.drop_first() + step(mail[0], system).0 =~= mail.drop_first());
        lemma_queue_without_sending(step, step(mail[0], system).1, mail.drop_first());
    }
}

/// When no delivery sends mail, the stack discipline delivers each letter
/// once, the last one first.
proof fn lemma_stack_without_sending<D, S>(
    step: spec_fn(D, S) -> (Seq<D>, S),
    system: S,
    mail: Seq<D>,
)
    requires
        sends_nothing(step),
    ensures
        stack_after(step, system, mail, mail.len()) == (
            deliver_all(step, system, mail.reverse()),
            Seq::<D>::empty(),
        ),
    decreases mail.len(),
{
    if mail.len() > 0 {
        let last = mail.last();
        assert(step(last, system).0.len() == 0);
        assert(mail.drop_last() + step(last, system).0 =~= mail.drop_last());
        lemma_stack_without_sending(step, step(last, system).1, mail.drop_last());
        assert(mail.reverse()[0] == last);
        assert(mail.reverse().drop_first() =~= mail.drop_last().reverse());
    }
}

/// When deliveries send no mail and any two of them commute, the order of
/// delivery does not matter: the stack and the queue discipline, run on the
/// mail or on any reordering of it, all drain and end in the same system,
/// the one left by delivering every letter once.
pub proof fn law_commuting_mail_is_order_free<D, S>(
    step: spec_fn(D, S) -> (Seq<D>, S),
    system: S,
    mail: Seq<D>,
    reordered: Seq<D>,
)
    requires
        sends_nothing(step),
        deliveries_commute(step),
        reordered.to_multiset() == mail.to_multiset(),
    ensures
        stack_drains(step, system, mail),
        queue_drains(step, system, mail),
        stack_drains(step, system, reordered),
        queue_drains(step, system, reordered),
        stack_outcome(step, system, mail) == deliver_all(step, system, mail),
        queue_outcome(step, system, mail) == deliver_all(step, system, mail),
        stack_outcome(step, system, reordered) == deliver_all(step, system, mail),
        queue_outcome(step, system, reordered) == deliver_all(step, system, mail),
{
    mail.lemma_reverse_to_multiset();
    reordered.lemma_reverse_to_multiset();
    lemma_queue_without_sending(step, system, mail);
    lemma_queue_outcome_at(step, system, mail, mail.len());
    lemma_stack_without_sending(step, system, mail);
    lemma_stack_outcome_at(step, system, mail, mail.len());
    lemma_deliver_all_reordered(step, system, mail, mail.reverse());
    lemma_queue_without_sending(step, system, reordered);
    lemma_queue_outcome_at(step, system, reordered, reordered.len());
    lemma_deliver_all_reordered(step, system, mail, reordered);
    lemma_stack_without_sending(step, system, reordered);
    lemma_stack_outcome_at(step, system, reordered, reordered.len());
    lemma_deliver_all_reordered(step, system, mail, reordered.reverse());
}

} // verus!
