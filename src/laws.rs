//! Runs of the worker over sequences of events, and what they deliver.
use vstd::prelude::*;
use crate::machine::{backoff_ms, next, WorkerAction, WorkerEvent, WorkerState, MAX_RETRIES};

verus! {

/// The final state and the actions of the worker fed `evs` from state `s`.
pub open spec fn run(s: WorkerState, evs: Seq<WorkerEvent>) -> (WorkerState, Seq<WorkerAction>)
    decreases evs.len(),
{
    if evs.len() == 0 {
        (s, Seq::empty())
    } else {
        let first = next(s, evs[0]);
        let rest = run(first.0, evs.drop_first());
        (rest.0, seq![first.1] + rest.1)
    }
}

/// The POST requests among `acts`, in order.
pub open spec fn posts(acts: Seq<WorkerAction>) -> Seq<WorkerAction>
    decreases acts.len(),
{
    if acts.len() == 0 {
        Seq::empty()
    } else {
        let rest = posts(acts.drop_first());
        if acts[0] is Post {
            seq![acts[0]] + rest
        } else {
            rest
        }
    }
}

/// `n` transport failures, each followed by the end of its backoff sleep.
pub open spec fn failures(n: nat) -> Seq<WorkerEvent>
    decreases n,
{
    if n == 0 {
        Seq::empty()
    } else {
        seq![WorkerEvent::TransportFailed, WorkerEvent::Slept] + failures((n - 1) as nat)
    }
}

/// Attempts made on a message whose endpoint fails `k` times before answering.
pub open spec fn attempts(k: nat) -> nat {
    if k < MAX_RETRIES {
        k + 1
    } else {
        MAX_RETRIES as nat
    }
}

/// The events of one message: dequeued with body `body` in wire form, then
/// `k` transport failures (at most as many as are attempted), then a response
/// unless every attempt failed.
pub open spec fn cycle(url: String, body: String, k: nat) -> Seq<WorkerEvent> {
    seq![WorkerEvent::Data { url, wire: Ok(body) }] + if k < MAX_RETRIES {
        failures(k) + seq![WorkerEvent::Responded]
    } else {
        failures(MAX_RETRIES as nat)
    }
}

/// The posts of one message whose endpoint fails `k` times before answering.
pub open spec fn cycle_posts(url: String, body: String, k: nat) -> Seq<WorkerAction> {
    Seq::new(attempts(k), |j: int| WorkerAction::Post { url, body, attempt: j as u32 })
}

/// The events of messages `(url, body, k)` taken off the queue one after another.
pub open spec fn session(msgs: Seq<(String, String, nat)>) -> Seq<WorkerEvent>
    decreases msgs.len(),
{
    if msgs.len() == 0 {
        Seq::empty()
    } else {
        cycle(msgs[0].0, msgs[0].1, msgs[0].2) + session(msgs.drop_first())
    }
}

/// The posts owed to messages `(url, body, k)`, in queue order.
pub open spec fn session_posts(msgs: Seq<(String, String, nat)>) -> Seq<WorkerAction>
    decreases msgs.len(),
{
    if msgs.len() == 0 {
        Seq::empty()
    } else {
        cycle_posts(msgs[0].0, msgs[0].1, msgs[0].2) + session_posts(msgs.drop_first())
    }
}

proof fn lemma_run_append(s: WorkerState, a: Seq<WorkerEvent>, b: Seq<WorkerEvent>)
    ensures
        run(s, a + b) == (run(run(s, a).0, b).0, run(s, a).1 + run(run(s, a).0, b).1),
    decreases a.len(),
{
    if a.len() == 0 {
        assert(a + b =~= b);
        assert(run(s, a).1 + run(s, b).1 =~= run(s, b).1);
    } else {
        let s1 = next(s, a[0]).0;
        assert((a + b).drop_first() =~= a.drop_first() + b);
        lemma_run_append(s1, a.drop_first(), b);
        let m = run(s1, a.drop_first());
        assert(seq![next(s, a[0]).1] + (m.1 + run(m.0, b).1) =~= (seq![next(s, a[0]).1] + m.1)
            + run(m.0, b).1);
    }
}

proof fn lemma_run_len(s: WorkerState, evs: Seq<WorkerEvent>)
    ensures
        run(s, evs).1.len() == evs.len(),
    decreases evs.len(),
{
    if evs.len() > 0 {
        lemma_run_len(next(s, evs[0]).0, evs.drop_first());
    }
}

proof fn lemma_posts_append(a: Seq<WorkerAction>, b: Seq<WorkerAction>)
    ensures
        posts(a + b) == posts(a) + posts(b),
    decreases a.len(),
{
    if a.len() == 0 {
        assert(a + b =~= b);
        assert(posts(a) + posts(b) =~= posts(b));
    } else {
        assert((a + b).drop_first() =~= a.drop_first() + b);
        lemma_posts_append(a.drop_first(), b);
        assert(seq![a[0]] + (posts(a.drop_first()) + posts(b)) =~= (seq![a[0]] + posts(
            a.drop_first(),
        )) + posts(b));
    }
}

/// From attempt `i` in flight, `n` failures: each failure sleeps its backoff,
/// and each end of sleep posts the next attempt, or drops the message after
/// the last one.
proof fn lemma_failures(url: String, body: String, i: nat, n: nat)
    requires
        i < MAX_RETRIES,
        i + n <= MAX_RETRIES,
    ensures
        ({
            let r = run(WorkerState::Delivering { url, body, attempt: i as u32 }, failures(n));
            &&& r.1.len() == 2 * n
            &&& forall|j: int|
                0 <= j < n ==> #[trigger] r.1[2 * j] == WorkerAction::Sleep {
                    ms: backoff_ms((i + j) as nat) as u64,
                }
            &&& forall|j: int|
                0 <= j < n && i + j + 1 < MAX_RETRIES ==> #[trigger] r.1[2 * j + 1]
                    == WorkerAction::Post { url, body, attempt: (i + 1 + j) as u32 }
            &&& i + n < MAX_RETRIES ==> r.0 == WorkerState::Delivering {
                url,
                body,
                attempt: (i + n) as u32,
            }
            &&& i + n < MAX_RETRIES ==> posts(r.1) =~= Seq::new(
                n,
                |j: int| WorkerAction::Post { url, body, attempt: (i + 1 + j) as u32 },
            )
            &&& i + n == MAX_RETRIES ==> r.0 == WorkerState::Running
            &&& i + n == MAX_RETRIES ==> r.1[2 * n - 1] == WorkerAction::ReportDropped { url }
            &&& i + n == MAX_RETRIES ==> posts(r.1) =~= Seq::new(
                (n - 1) as nat,
                |j: int| WorkerAction::Post { url, body, attempt: (i + 1 + j) as u32 },
            )
        }),
    decreases n,
{
    let d = WorkerState::Delivering { url, body, attempt: i as u32 };
    if n == 0 {
        assert(failures(0) =~= Seq::<WorkerEvent>::empty());
    } else {
        let head = seq![WorkerEvent::TransportFailed, WorkerEvent::Slept];
        let tail = failures((n - 1) as nat);
        assert(failures(n) == head + tail);
        lemma_run_append(d, head, tail);
        let b = WorkerState::Backoff { url, body, attempt: i as u32 };
        let sleep = WorkerAction::Sleep { ms: backoff_ms(i) as u64 };
        assert(head.drop_first() =~= seq![WorkerEvent::Slept]);
        assert(head.drop_first().drop_first() =~= Seq::<WorkerEvent>::empty());
        let h = run(d, head);
        assert(h == run(d, head)) by {
            reveal_with_fuel(run, 3);
        }
        assert(run(b, head.drop_first()) == (
            run(next(b, WorkerEvent::Slept).0, Seq::empty()).0,
            seq![next(b, WorkerEvent::Slept).1],
        )) by {
            reveal_with_fuel(run, 2);
            assert(seq![next(b, WorkerEvent::Slept).1] + Seq::<WorkerAction>::empty() =~= seq![
                next(b, WorkerEvent::Slept).1,
            ]);
        }
        assert(next(d, WorkerEvent::TransportFailed) == (b, sleep));
        if i + 1 < MAX_RETRIES {
            let d1 = WorkerState::Delivering { url, body, attempt: (i + 1) as u32 };
            let post = WorkerAction::Post { url, body, attempt: (i + 1) as u32 };
            assert(h.0 == d1);
            assert(h.1 =~= seq![sleep, post]);
            lemma_failures(url, body, i + 1, (n - 1) as nat);
            let t = run(d1, tail);
            lemma_posts_append(h.1, t.1);
            assert(posts(h.1) =~= seq![post]) by {
                assert(h.1.drop_first() =~= seq![post]);
                assert(h.1.drop_first().drop_first() =~= Seq::<WorkerAction>::empty());
                reveal_with_fuel(posts, 3);
            }
            let r = run(d, failures(n));
            assert(r.1 == h.1 + t.1);
            assert forall|j: int| 0 <= j < n implies #[trigger] r.1[2 * j]
                == WorkerAction::Sleep { ms: backoff_ms((i + j) as nat) as u64 } by {
                if j > 0 {
                    assert(r.1[2 * j] == t.1[2 * (j - 1)]);
                }
            }
            assert forall|j: int| 0 <= j < n && i + j + 1 < MAX_RETRIES implies #[trigger] r.1[2
                * j + 1] == WorkerAction::Post { url, body, attempt: (i + 1 + j) as u32 } by {
                if j > 0 {
                    assert(r.1[2 * j + 1] == t.1[2 * (j - 1) + 1]);
                }
            }
        } else {
            let drop = WorkerAction::ReportDropped { url };
            assert(h.0 == WorkerState::Running);
            assert(h.1 =~= seq![sleep, drop]);
            assert(n == 1);
            assert(tail =~= Seq::<WorkerEvent>::empty());
            assert(posts(h.1) =~= Seq::<WorkerAction>::empty()) by {
                assert(h.1.drop_first() =~= seq![drop]);
                assert(h.1.drop_first().drop_first() =~= Seq::<WorkerAction>::empty());
                reveal_with_fuel(posts, 3);
            }
        }
    }
}

proof fn lemma_run_single(s: WorkerState, e: WorkerEvent)
    ensures
        run(s, seq![e]) == (next(s, e).0, seq![next(s, e).1]),
{
    assert(seq![e].drop_first() =~= Seq::<WorkerEvent>::empty());
    assert(seq![next(s, e).1] + Seq::<WorkerAction>::empty() =~= seq![next(s, e).1]);
    reveal_with_fuel(run, 2);
}

proof fn lemma_data_then(url: String, body: String, evs: Seq<WorkerEvent>)
    ensures
        ({
            let d = WorkerState::Delivering { url, body, attempt: 0 };
            let r = run(WorkerState::Running, seq![WorkerEvent::Data { url, wire: Ok(body) }] + evs);
            &&& r.0 == run(d, evs).0
            &&& r.1 == seq![WorkerAction::Post { url, body, attempt: 0 }] + run(d, evs).1
        }),
{
    let data = seq![WorkerEvent::Data { url, wire: Ok(body) }];
    lemma_run_append(WorkerState::Running, data, evs);
    lemma_run_single(WorkerState::Running, WorkerEvent::Data { url, wire: Ok(body) });
}

proof fn lemma_posts_single(a: WorkerAction)
    ensures
        posts(seq![a]) == if a is Post {
            seq![a]
        } else {
            Seq::<WorkerAction>::empty()
        },
{
    assert(seq![a].drop_first() =~= Seq::<WorkerAction>::empty());
    reveal_with_fuel(posts, 2);
}

/// An endpoint that never answers: the message is attempted exactly
/// `MAX_RETRIES` times, each failed attempt number `i` is followed by a sleep
/// of `100 * 2^i` milliseconds, and the message is then reported as dropped.
pub proof fn lemma_unreachable_endpoint(url: String, body: String)
    ensures
        ({
            let r = run(
                WorkerState::Running,
                seq![WorkerEvent::Data { url, wire: Ok(body) }] + failures(MAX_RETRIES as nat),
            );
            &&& r.0 == WorkerState::Running
            &&& r.1.len() == 2 * MAX_RETRIES + 1
            &&& forall|i: int|
                0 <= i < MAX_RETRIES ==> #[trigger] r.1[2 * i] == WorkerAction::Post {
                    url,
                    body,
                    attempt: i as u32,
                }
            &&& forall|i: int|
                0 <= i < MAX_RETRIES ==> #[trigger] r.1[2 * i + 1] == WorkerAction::Sleep {
                    ms: backoff_ms(i as nat) as u64,
                }
            &&& r.1[2 * MAX_RETRIES as int] == WorkerAction::ReportDropped { url }
            &&& posts(r.1) == cycle_posts(url, body, MAX_RETRIES as nat)
        }),
{
    let n = MAX_RETRIES as nat;
    let d = WorkerState::Delivering { url, body, attempt: 0 };
    let first = WorkerAction::Post { url, body, attempt: 0 };
    lemma_data_then(url, body, failures(n));
    lemma_failures(url, body, 0, n);
    let t = run(d, failures(n));
    let r = run(
        WorkerState::Running,
        seq![WorkerEvent::Data { url, wire: Ok(body) }] + failures(n),
    );
    assert forall|i: int| 0 <= i < MAX_RETRIES implies #[trigger] r.1[2 * i]
        == WorkerAction::Post { url, body, attempt: i as u32 } by {
        if i > 0 {
            assert(r.1[2 * i] == t.1[2 * (i - 1) + 1]);
        }
    }
    assert forall|i: int| 0 <= i < MAX_RETRIES implies #[trigger] r.1[2 * i + 1]
        == WorkerAction::Sleep { ms: backoff_ms(i as nat) as u64 } by {
        assert(r.1[2 * i + 1] == t.1[2 * i]);
    }
    lemma_posts_append(seq![first], t.1);
    lemma_posts_single(first);
    assert(posts(r.1) =~= cycle_posts(url, body, n));
}

/// An endpoint that answers on attempt `k` (counted from 1, at most
/// `MAX_RETRIES`): exactly `k` attempts are made, and no sleep follows the
/// one that was answered.
pub proof fn lemma_answer_on_attempt(url: String, body: String, k: nat)
    requires
        1 <= k <= MAX_RETRIES,
    ensures
        ({
            let r = run(
                WorkerState::Running,
                seq![WorkerEvent::Data { url, wire: Ok(body) }] + failures((k - 1) as nat) + seq![
                    WorkerEvent::Responded,
                ],
            );
            &&& r.0 == WorkerState::Running
            &&& r.1.len() == 2 * k
            &&& forall|i: int|
                0 <= i < k ==> #[trigger] r.1[2 * i] == WorkerAction::Post {
                    url,
                    body,
                    attempt: i as u32,
                }
            &&& forall|i: int|
                0 <= i < k - 1 ==> #[trigger] r.1[2 * i + 1] == WorkerAction::Sleep {
                    ms: backoff_ms(i as nat) as u64,
                }
            &&& r.1[2 * k - 1] == WorkerAction::Receive
            &&& posts(r.1) == cycle_posts(url, body, (k - 1) as nat)
        }),
{
    let n = (k - 1) as nat;
    let d = WorkerState::Delivering { url, body, attempt: 0 };
    let first = WorkerAction::Post { url, body, attempt: 0 };
    let answered = seq![WorkerEvent::Responded];
    let data = seq![WorkerEvent::Data { url, wire: Ok(body) }];
    assert(data + failures(n) + answered =~= data + (failures(n) + answered));
    lemma_data_then(url, body, failures(n) + answered);
    lemma_failures(url, body, 0, n);
    lemma_run_append(d, failures(n), answered);
    let t = run(d, failures(n));
    let dk = WorkerState::Delivering { url, body, attempt: n as u32 };
    lemma_run_single(dk, WorkerEvent::Responded);
    let r = run(WorkerState::Running, data + failures(n) + answered);
    assert(r.1 =~= seq![first] + t.1 + seq![WorkerAction::Receive]);
    assert forall|i: int| 0 <= i < k implies #[trigger] r.1[2 * i] == WorkerAction::Post {
        url,
        body,
        attempt: i as u32,
    } by {
        if i > 0 {
            assert(r.1[2 * i] == t.1[2 * (i - 1) + 1]);
        }
    }
    assert forall|i: int| 0 <= i < k - 1 implies #[trigger] r.1[2 * i + 1] == WorkerAction::Sleep {
        ms: backoff_ms(i as nat) as u64,
    } by {
        assert(r.1[2 * i + 1] == t.1[2 * i]);
    }
    lemma_posts_append(seq![first] + t.1, seq![WorkerAction::Receive]);
    lemma_posts_append(seq![first], t.1);
    lemma_posts_single(first);
    lemma_posts_single(WorkerAction::Receive);
    assert(posts(r.1) =~= cycle_posts(url, body, n));
}

proof fn lemma_cycle(url: String, body: String, k: nat)
    ensures
        run(WorkerState::Running, cycle(url, body, k)).0 == WorkerState::Running,
        posts(run(WorkerState::Running, cycle(url, body, k)).1) == cycle_posts(url, body, k),
{
    let data = seq![WorkerEvent::Data { url, wire: Ok(body) }];
    if k < MAX_RETRIES {
        let answered = seq![WorkerEvent::Responded];
        assert(data + failures(k) + answered =~= cycle(url, body, k));
        lemma_answer_on_attempt(url, body, k + 1);
    } else {
        lemma_unreachable_endpoint(url, body);
        assert(cycle_posts(url, body, k) =~= cycle_posts(url, body, MAX_RETRIES as nat));
    }
}

proof fn lemma_session(msgs: Seq<(String, String, nat)>)
    ensures
        run(WorkerState::Running, session(msgs)).0 == WorkerState::Running,
        posts(run(WorkerState::Running, session(msgs)).1) == session_posts(msgs),
    decreases msgs.len(),
{
    if msgs.len() == 0 {
        assert(posts(Seq::<WorkerAction>::empty()) =~= Seq::<WorkerAction>::empty());
    } else {
        let c = cycle(msgs[0].0, msgs[0].1, msgs[0].2);
        lemma_cycle(msgs[0].0, msgs[0].1, msgs[0].2);
        lemma_session(msgs.drop_first());
        lemma_run_append(WorkerState::Running, c, session(msgs.drop_first()));
        lemma_posts_append(
            run(WorkerState::Running, c).1,
            run(WorkerState::Running, session(msgs.drop_first())).1,
        );
    }
}

/// A stopped worker stays stopped: whatever events reach it afterwards, it
/// answers each with `Exit` and posts nothing.
pub proof fn lemma_stopped_stays_stopped(evs: Seq<WorkerEvent>)
    ensures
        run(WorkerState::Terminated, evs).0 == WorkerState::Terminated,
        run(WorkerState::Terminated, evs).1.len() == evs.len(),
        forall|j: int|
            0 <= j < evs.len() ==> #[trigger] run(WorkerState::Terminated, evs).1[j]
                == WorkerAction::Exit,
        posts(run(WorkerState::Terminated, evs).1) == Seq::<WorkerAction>::empty(),
    decreases evs.len(),
{
    if evs.len() > 0 {
        lemma_stopped_stays_stopped(evs.drop_first());
        let t = run(WorkerState::Terminated, evs.drop_first()).1;
        lemma_posts_append(seq![WorkerAction::Exit], t);
        lemma_posts_single(WorkerAction::Exit);
        assert(posts(seq![WorkerAction::Exit] + t) =~= Seq::<WorkerAction>::empty());
    } else {
        assert(posts(Seq::<WorkerAction>::empty()) =~= Seq::<WorkerAction>::empty());
    }
}

/// Messages followed by the shutdown sentinel: every message before the
/// sentinel is attempted, in queue order, as often as its endpoint calls for
/// and never more; the worker then stops, and whatever comes after the
/// sentinel only meets `Exit`.
pub proof fn lemma_drain_in_order(msgs: Seq<(String, String, nat)>, tail: Seq<WorkerEvent>)
    ensures
        ({
            let evs = session(msgs) + seq![WorkerEvent::Shutdown] + tail;
            let r = run(WorkerState::Running, evs);
            &&& r.0 == WorkerState::Terminated
            &&& r.1.len() == evs.len()
            &&& posts(r.1) == session_posts(msgs)
            &&& forall|j: int|
                session(msgs).len() <= j < evs.len() ==> #[trigger] r.1[j] == WorkerAction::Exit
        }),
{
    let head = session(msgs);
    let stop = seq![WorkerEvent::Shutdown];
    let evs = head + stop + tail;
    assert(evs =~= head + (stop + tail));
    lemma_session(msgs);
    lemma_run_append(WorkerState::Running, head, stop + tail);
    lemma_run_append(WorkerState::Running, stop, tail);
    lemma_run_single(WorkerState::Running, WorkerEvent::Shutdown);
    lemma_stopped_stays_stopped(tail);
    lemma_run_len(WorkerState::Running, evs);
    lemma_run_len(WorkerState::Running, head);
    let h = run(WorkerState::Running, head).1;
    let t = run(WorkerState::Terminated, tail).1;
    let r = run(WorkerState::Running, evs);
    assert(r.1 == h + (seq![WorkerAction::Exit] + t));
    lemma_posts_append(h, seq![WorkerAction::Exit] + t);
    lemma_posts_append(seq![WorkerAction::Exit], t);
    lemma_posts_single(WorkerAction::Exit);
    assert(posts(r.1) =~= session_posts(msgs));
    assert forall|j: int| head.len() <= j < evs.len() implies #[trigger] r.1[j]
        == WorkerAction::Exit by {
        if j > head.len() {
            assert(r.1[j] == t[j - head.len() - 1]);
        }
    }
}

} // verus!
