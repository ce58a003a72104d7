use vstd::prelude::*;
use crate::models::Log;
use crate::worker::{chunk_len, FLUSH_CHUNK_SIZE};
use crate::backlog::BACKLOG_CHUNK_SIZE;

verus! {

/// Where every entry of the engine stands: delivered to the endpoint, in the
/// backlog file, in the backlog's queue or in the worker's queue; and the
/// entries that callers logged, in the order they logged them.
pub ghost struct Pipeline {
    pub history: Seq<Log>,
    pub delivered: Seq<Log>,
    pub disk: Seq<Log>,
    pub backlog: Seq<Log>,
    pub worker: Seq<Log>,
}

/// One step of the engine, with the outcome of any request it makes.
pub ghost enum Event {
    /// A caller logs an entry; a send made because the queue filled succeeds or not.
    Log(Log, bool),
    /// The engine itself logs an entry (a failure report, a trace) through the worker's input.
    Inject(Log, bool),
    /// The worker's periodic flush; its send succeeds or not.
    Tick(bool),
    /// A backlog retry probes the endpoint: reachable or not; when not,
    /// whether writing the queue to the backlog file succeeded.
    Probe(bool, bool),
    /// The backlog sends its oldest chunk: it succeeds, or fails with a report.
    Drain(Result<(), Log>),
    /// Shutdown: the backlog offers its queue to the file, which takes it or not.
    Exit(bool),
}

pub open spec fn initial() -> Pipeline {
    Pipeline {
        history: seq![],
        delivered: seq![],
        disk: seq![],
        backlog: seq![],
        worker: seq![],
    }
}

/// Everything the engine holds, in the order it will be delivered.
pub open spec fn total(s: Pipeline) -> Seq<Log> {
    s.delivered + s.disk + s.backlog + s.worker
}

/// Nothing waits in the backlog, in memory or on disk.
pub open spec fn backlog_idle(s: Pipeline) -> bool {
    s.backlog.len() == 0 && s.disk.len() == 0
}

pub open spec fn nothing_pending(s: Pipeline) -> bool {
    backlog_idle(s) && s.worker.len() == 0
}

/// `a` is `b` with some entries left out.
pub open spec fn is_subseq(a: Seq<Log>, b: Seq<Log>) -> bool
    decreases b.len(),
{
    if b.len() == 0 {
        a.len() == 0
    } else {
        is_subseq(a, b.drop_last()) || (a.len() > 0 && a.last() == b.last() && is_subseq(
            a.drop_last(),
            b.drop_last(),
        ))
    }
}

/// The worker's flush: the oldest chunk goes behind the backlog while that
/// holds entries, else to the endpoint; when that send fails, to the backlog.
pub open spec fn worker_flush(s: Pipeline, ok: bool) -> Pipeline {
    let n = chunk_len(s.worker.len()) as int;
    let c = s.worker.take(n);
    let rest = s.worker.skip(n);
    if s.worker.len() == 0 {
        s
    } else if !backlog_idle(s) || !ok {
        Pipeline { backlog: s.backlog + c, worker: rest, ..s }
    } else {
        Pipeline { delivered: s.delivered + c, worker: rest, ..s }
    }
}

/// An entry enters the worker's queue, which is flushed once it holds a chunk.
pub open spec fn enqueue(s: Pipeline, e: Log, ok: bool) -> Pipeline {
    let s1 = Pipeline { worker: s.worker.push(e), ..s };
    if s1.worker.len() >= FLUSH_CHUNK_SIZE {
        worker_flush(s1, ok)
    } else {
        s1
    }
}

/// The backlog's queue moves to the file when the write succeeds.
pub open spec fn persist(s: Pipeline, written: bool) -> Pipeline {
    if written {
        Pipeline { disk: s.disk + s.backlog, backlog: seq![], ..s }
    } else {
        s
    }
}

/// A retry's probe: when reachable the file is read back in front of the
/// queue; when not, the queue is offered to the file.
pub open spec fn probe(s: Pipeline, reachable: bool, written: bool) -> Pipeline {
    if backlog_idle(s) {
        s
    } else if reachable {
        Pipeline { backlog: s.disk + s.backlog, disk: seq![], ..s }
    } else {
        persist(s, written)
    }
}

/// The backlog sends its oldest chunk, once the file has been read back.
pub open spec fn drain(s: Pipeline, result: Result<(), Log>) -> Pipeline {
    let n = if s.backlog.len() < BACKLOG_CHUNK_SIZE {
        s.backlog.len() as int
    } else {
        BACKLOG_CHUNK_SIZE as int
    };
    let c = s.backlog.take(n);
    let rest = s.backlog.skip(n);
    if s.backlog.len() == 0 || s.disk.len() > 0 {
        s
    } else {
        match result {
            Ok(()) => Pipeline { delivered: s.delivered + c, backlog: rest, ..s },
            Err(report) => Pipeline { backlog: c + seq![report] + rest, ..s },
        }
    }
}

pub open spec fn step(s: Pipeline, ev: Event) -> Pipeline {
    match ev {
        Event::Log(e, ok) => enqueue(Pipeline { history: s.history.push(e), ..s }, e, ok),
        Event::Inject(e, ok) => enqueue(s, e, ok),
        Event::Tick(ok) => worker_flush(s, ok),
        Event::Probe(reachable, written) => probe(s, reachable, written),
        Event::Drain(result) => drain(s, result),
        Event::Exit(written) => persist(s, written),
    }
}

/// The state after a sequence of events from the start.
pub open spec fn run(events: Seq<Event>) -> Pipeline
    decreases events.len(),
{
    if events.len() == 0 {
        initial()
    } else {
        step(run(events.drop_last()), events.last())
    }
}

/// A retry that finds the endpoint reachable and sends every chunk.
pub open spec fn drain_all(s: Pipeline) -> Pipeline
    decreases s.backlog.len(),
{
    if s.backlog.len() == 0 || s.disk.len() > 0 {
        s
    } else {
        drain_all(drain(s, Ok(())))
    }
}

/// A flush against a reachable endpoint: the worker flushes, then the
/// backlog retries.
pub open spec fn flush_reachable(s: Pipeline) -> Pipeline {
    drain_all(probe(worker_flush(s, true), true, true))
}

/// What holds of every state: no entry a caller logged is lost or moved out
/// of order, and the worker never holds a full chunk.
pub open spec fn sound(s: Pipeline) -> bool {
    is_subseq(s.history, total(s)) && s.worker.len() < FLUSH_CHUNK_SIZE
}

proof fn lemma_subseq_empty(b: Seq<Log>)
    ensures
        is_subseq(seq![], b),
    decreases b.len(),
{
    if b.len() > 0 {
        lemma_subseq_empty(b.drop_last());
    }
}

proof fn lemma_subseq_insert(a: Seq<Log>, b: Seq<Log>, i: int, x: Log)
    requires
        is_subseq(a, b),
        0 <= i <= b.len(),
    ensures
        is_subseq(a, b.insert(i, x)),
    decreases b.len(),
{
    let bi = b.insert(i, x);
    if i == b.len() {
        assert(bi.drop_last() =~= b);
    } else {
        assert(bi.drop_last() =~= b.drop_last().insert(i, x));
        assert(bi.last() == b.last());
        if is_subseq(a, b.drop_last()) {
            lemma_subseq_insert(a, b.drop_last(), i, x);
        } else {
            lemma_subseq_insert(a.drop_last(), b.drop_last(), i, x);
        }
    }
}

proof fn lemma_subseq_split(a1: Seq<Log>, a2: Seq<Log>, d: Seq<Log>) -> (i: int)
    requires
        is_subseq(a1 + a2, d),
    ensures
        0 <= i <= d.len(),
        is_subseq(a1, d.take(i)),
        is_subseq(a2, d.skip(i)),
    decreases d.len(),
{
    if a2.len() == 0 {
        assert(a1 + a2 =~= a1);
        assert(d.take(d.len() as int) =~= d);
        lemma_subseq_empty(d.skip(d.len() as int));
        d.len() as int
    } else if d.len() == 0 {
        0
    } else {
        let d0 = d.drop_last();
        if is_subseq(a1 + a2, d0) {
            let i = lemma_subseq_split(a1, a2, d0);
            assert(d.take(i) =~= d0.take(i));
            assert(d.skip(i).drop_last() =~= d0.skip(i));
            i
        } else {
            assert((a1 + a2).drop_last() =~= a1 + a2.drop_last());
            assert((a1 + a2).last() == a2.last());
            let i = lemma_subseq_split(a1, a2.drop_last(), d0);
            assert(d.take(i) =~= d0.take(i));
            assert(d.skip(i).drop_last() =~= d0.skip(i));
            assert(d.skip(i).last() == d.last());
            i
        }
    }
}

proof fn lemma_flush_sound(s: Pipeline, ok: bool)
    requires
        is_subseq(s.history, total(s)),
    ensures
        is_subseq(worker_flush(s, ok).history, total(worker_flush(s, ok))),
        worker_flush(s, ok).worker.len() == s.worker.len() - chunk_len(s.worker.len()),
        worker_flush(s, ok).history == s.history,
{
    let t = worker_flush(s, ok);
    let n = chunk_len(s.worker.len()) as int;
    if s.worker.len() > 0 {
        assert(s.worker =~= s.worker.take(n) + s.worker.skip(n));
        assert(total(t) =~= total(s));
    }
}

proof fn lemma_enqueue_sound(s: Pipeline, e: Log, ok: bool)
    requires
        is_subseq(s.history, total(s)),
        s.worker.len() < FLUSH_CHUNK_SIZE,
    ensures
        sound(enqueue(s, e, ok)),
        enqueue(s, e, ok).history == s.history,
{
    let s1 = Pipeline { worker: s.worker.push(e), ..s };
    assert(total(s1) =~= total(s).push(e));
    assert(total(s).push(e) =~= total(s).insert(total(s).len() as int, e));
    lemma_subseq_insert(s.history, total(s), total(s).len() as int, e);
    if s1.worker.len() >= FLUSH_CHUNK_SIZE {
        lemma_flush_sound(s1, ok);
    }
}

proof fn lemma_step_sound(s: Pipeline, ev: Event)
    requires
        sound(s),
    ensures
        sound(step(s, ev)),
{
    let t = step(s, ev);
    match ev {
        Event::Log(e, ok) => {
            let s0 = Pipeline { history: s.history.push(e), ..s };
            let s1 = Pipeline { worker: s0.worker.push(e), ..s0 };
            assert(total(s1) =~= total(s).push(e));
            assert(total(s1).drop_last() =~= total(s));
            assert(s1.history.drop_last() =~= s.history);
            assert(is_subseq(s1.history, total(s1)));
            if s1.worker.len() >= FLUSH_CHUNK_SIZE {
                lemma_flush_sound(s1, ok);
            }
        },
        Event::Inject(e, ok) => {
            lemma_enqueue_sound(s, e, ok);
        },
        Event::Tick(ok) => {
            lemma_flush_sound(s, ok);
        },
        Event::Probe(reachable, written) => {
            assert(total(t) =~= total(s));
        },
        Event::Drain(result) => {
            let n = if s.backlog.len() < BACKLOG_CHUNK_SIZE {
                s.backlog.len() as int
            } else {
                BACKLOG_CHUNK_SIZE as int
            };
            if s.backlog.len() > 0 && s.disk.len() == 0 {
                assert(s.backlog =~= s.backlog.take(n) + s.backlog.skip(n));
                match result {
                    Ok(()) => {
                        assert(total(t) =~= total(s));
                    },
                    Err(report) => {
                        let at = s.delivered.len() + n;
                        assert(total(t) =~= total(s).insert(at, report));
                        lemma_subseq_insert(s.history, total(s), at, report);
                    },
                }
            }
        },
        Event::Exit(written) => {
            assert(total(t) =~= total(s));
        },
    }
}

/// Whatever happens, with any outcome of any request, no entry that a caller
/// logged is lost or reordered: the logged entries, in order, are found among
/// those delivered, then those in the backlog file, then those in the
/// backlog's queue, then those in the worker's queue.
pub proof fn lemma_order_kept(events: Seq<Event>)
    ensures
        sound(run(events)),
        is_subseq(run(events).history, total(run(events))),
    decreases events.len(),
{
    if events.len() == 0 {
        lemma_subseq_empty(total(initial()));
    } else {
        lemma_order_kept(events.drop_last());
        lemma_step_sound(run(events.drop_last()), events.last());
    }
}

/// Entries logged earlier reach the endpoint earlier, across failed sends
/// and retries: once nothing is pending, for any point in the history of
/// logged entries, the delivered sequence splits so that the entries logged
/// before that point are delivered, in order, before those logged after it.
pub proof fn lemma_delivered_in_order(events: Seq<Event>, k: int) -> (i: int)
    requires
        nothing_pending(run(events)),
        0 <= k <= run(events).history.len(),
    ensures
        0 <= i <= run(events).delivered.len(),
        is_subseq(run(events).history.take(k), run(events).delivered.take(i)),
        is_subseq(run(events).history.skip(k), run(events).delivered.skip(i)),
{
    let s = run(events);
    lemma_order_kept(events);
    assert(total(s) =~= s.delivered);
    assert(s.history =~= s.history.take(k) + s.history.skip(k));
    lemma_subseq_split(s.history.take(k), s.history.skip(k), s.delivered)
}

proof fn lemma_drain_all(s: Pipeline)
    requires
        is_subseq(s.history, total(s)),
        s.disk.len() == 0,
    ensures
        drain_all(s).backlog.len() == 0,
        drain_all(s).disk.len() == 0,
        drain_all(s).worker == s.worker,
        drain_all(s).history == s.history,
        is_subseq(drain_all(s).history, total(drain_all(s))),
    decreases s.backlog.len(),
{
    if s.backlog.len() > 0 {
        let t = drain(s, Ok(()));
        let n = if s.backlog.len() < BACKLOG_CHUNK_SIZE {
            s.backlog.len() as int
        } else {
            BACKLOG_CHUNK_SIZE as int
        };
        assert(s.backlog =~= s.backlog.take(n) + s.backlog.skip(n));
        assert(total(t) =~= total(s));
        lemma_drain_all(t);
    }
}

/// A flush against a reachable endpoint delivers everything: after any
/// sequence of events, once the worker has flushed and the backlog has
/// retried with every send succeeding, nothing is pending and every entry a
/// caller logged has been delivered, in order.
pub proof fn lemma_flush_delivers(events: Seq<Event>)
    ensures
        nothing_pending(flush_reachable(run(events))),
        flush_reachable(run(events)).history == run(events).history,
        is_subseq(run(events).history, flush_reachable(run(events)).delivered),
{
    let s = run(events);
    lemma_order_kept(events);
    lemma_flush_sound(s, true);
    let s1 = worker_flush(s, true);
    let s2 = probe(s1, true, true);
    assert(total(s2) =~= total(s1));
    lemma_drain_all(s2);
    let t = drain_all(s2);
    assert(total(t) =~= t.delivered);
}

/// Persisting on shutdown is idempotent: once the file took the queue, a
/// second exit writes nothing more to it.
pub proof fn lemma_exit_idempotent(s: Pipeline, written: bool)
    ensures
        step(step(s, Event::Exit(true)), Event::Exit(written)) == step(s, Event::Exit(true)),
{
    let t = step(s, Event::Exit(true));
    assert(t.disk + t.backlog =~= t.disk);
}

/// Entries the engine adds of its own in one step: an injected entry, or
/// the report of a failed backlog send.
pub open spec fn added(ev: Event) -> nat {
    match ev {
        Event::Inject(_, _) => 1,
        Event::Drain(Err(_)) => 1,
        _ => 0,
    }
}

pub open spec fn count_added(events: Seq<Event>) -> nat
    decreases events.len(),
{
    if events.len() == 0 {
        0
    } else {
        count_added(events.drop_last()) + added(events.last())
    }
}

proof fn lemma_subseq_len(a: Seq<Log>, b: Seq<Log>)
    requires
        is_subseq(a, b),
    ensures
        a.len() <= b.len(),
        a.len() == b.len() ==> a == b,
    decreases b.len(),
{
    if b.len() > 0 {
        if is_subseq(a, b.drop_last()) {
            lemma_subseq_len(a, b.drop_last());
        } else {
            lemma_subseq_len(a.drop_last(), b.drop_last());
            if a.len() == b.len() {
                assert(a =~= a.drop_last().push(a.last()));
                assert(b =~= b.drop_last().push(b.last()));
            }
        }
    }
}

proof fn lemma_step_len(s: Pipeline, ev: Event)
    ensures
        total(step(s, ev)).len() <= total(s).len() + added(ev) + if ev is Log {
            1nat
        } else {
            0nat
        },
        step(s, ev).history.len() == s.history.len() + if ev is Log {
            1nat
        } else {
            0nat
        },
{
    let t = step(s, ev);
    match ev {
        Event::Log(e, ok) => {
            let s0 = Pipeline { history: s.history.push(e), ..s };
            let s1 = Pipeline { worker: s0.worker.push(e), ..s0 };
            assert(total(s1).len() == total(s).len() + 1);
            let n = chunk_len(s1.worker.len()) as int;
            if s1.worker.len() >= FLUSH_CHUNK_SIZE {
                assert(s1.worker =~= s1.worker.take(n) + s1.worker.skip(n));
            }
        },
        Event::Inject(e, ok) => {
            let s1 = Pipeline { worker: s.worker.push(e), ..s };
            let n = chunk_len(s1.worker.len()) as int;
            if s1.worker.len() >= FLUSH_CHUNK_SIZE {
                assert(s1.worker =~= s1.worker.take(n) + s1.worker.skip(n));
            }
        },
        Event::Tick(ok) => {
            let n = chunk_len(s.worker.len()) as int;
            if s.worker.len() > 0 {
                assert(s.worker =~= s.worker.take(n) + s.worker.skip(n));
            }
        },
        Event::Probe(reachable, written) => {},
        Event::Drain(result) => {
            let n = if s.backlog.len() < BACKLOG_CHUNK_SIZE {
                s.backlog.len() as int
            } else {
                BACKLOG_CHUNK_SIZE as int
            };
            if s.backlog.len() > 0 && s.disk.len() == 0 {
                assert(s.backlog =~= s.backlog.take(n) + s.backlog.skip(n));
            }
        },
        Event::Exit(written) => {},
    }
}

proof fn lemma_run_len(events: Seq<Event>)
    ensures
        total(run(events)).len() <= run(events).history.len() + count_added(events),
    decreases events.len(),
{
    if events.len() > 0 {
        lemma_run_len(events.drop_last());
        lemma_step_len(run(events.drop_last()), events.last());
    }
}

/// Nothing is delivered twice: once nothing is pending, the delivered
/// sequence holds the logged entries in order, and besides them at most as
/// many entries as the engine added of its own (injected entries and
/// reports of failed backlog sends). When it added none, what was delivered
/// is exactly what was logged, each entry once, in order.
pub proof fn lemma_delivered_once(events: Seq<Event>)
    requires
        nothing_pending(run(events)),
    ensures
        is_subseq(run(events).history, run(events).delivered),
        run(events).delivered.len() <= run(events).history.len() + count_added(events),
        count_added(events) == 0 ==> run(events).delivered == run(events).history,
{
    let s = run(events);
    lemma_order_kept(events);
    lemma_run_len(events);
    assert(total(s) =~= s.delivered);
    lemma_subseq_len(s.history, s.delivered);
}

} // verus!
