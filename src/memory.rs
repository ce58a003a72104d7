use vstd::prelude::*;
use crate::models::Log;
use crate::worker::{Route, SendOutcome, Worker};
use crate::backlog::{Backlog, BacklogSignal};
use crate::pipeline::{
    Event, Pipeline, backlog_idle, enqueue, initial, is_subseq, run, step, total, worker_flush,
    lemma_order_kept,
};

verus! {

/// A worker and a backlog wired together in one thread, with an in-memory
/// endpoint and backlog file. The outcome of each request is passed in, so
/// every schedule of failures can be played. Each operation is one step of
/// the delivery model.
pub struct InMemoryEngine {
    worker: Worker,
    backlog: Backlog,
    file: Vec<Log>,
    delivered: Vec<Log>,
    history: Ghost<Seq<Log>>,
    events: Ghost<Seq<Event>>,
}

impl InMemoryEngine {
    /// Where every entry stands.
    pub closed spec fn model(&self) -> Pipeline {
        Pipeline {
            history: self.history@,
            delivered: self.delivered@,
            disk: self.file@,
            backlog: self.backlog.queue(),
            worker: self.worker.queue(),
        }
    }

    /// Consecutive failed retries of the backlog.
    pub closed spec fn failures(&self) -> nat {
        self.backlog.failures()
    }

    /// The steps taken so far.
    pub closed spec fn events(&self) -> Seq<Event> {
        self.events@
    }

    pub closed spec fn wf(&self) -> bool {
        &&& self.backlog.on_disk() == (self.file@.len() > 0)
        &&& self.model() == run(self.events@)
    }

    pub fn new() -> (r: InMemoryEngine)
        ensures
            r.wf(),
            r.events() == Seq::<Event>::empty(),
            r.model() == initial(),
    {
        let mut backlog = Backlog::new();
        backlog.load(Vec::new());
        let r = InMemoryEngine {
            worker: Worker::new(),
            backlog,
            file: Vec::new(),
            delivered: Vec::new(),
            history: Ghost(Seq::empty()),
            events: Ghost(Seq::empty()),
        };
        assert(r.model() =~= initial());
        r
    }

    /// The worker's flush, with the outcome of its send; a failure report
    /// comes back, to go through the worker's input.
    fn flush_worker(&mut self, send: Result<(), Log>) -> (r: Option<Log>)
        requires
            old(self).backlog.on_disk() == (old(self).file@.len() > 0),
        ensures
            final(self).backlog.on_disk() == (final(self).file@.len() > 0),
            final(self).model() == worker_flush(old(self).model(), send is Ok),
            final(self).history == old(self).history,
            final(self).events == old(self).events,
            r is Some <==> (old(self).model().worker.len() > 0 && backlog_idle(old(self).model())
                && send is Err),
            r matches Some(x) ==> send == Err::<(), Log>(x),
    {
        let ghost s = self.model();
        let empty = self.backlog.is_empty();
        match self.worker.flush(empty) {
            Route::Nothing => {
                assert(s.worker.skip(0) =~= s.worker);
                assert(self.model() =~= s);
                None
            },
            Route::ToBacklog(b) => {
                self.backlog.receive(BacklogSignal::Entries(b));
                assert(self.model() =~= worker_flush(s, send is Ok));
                None
            },
            Route::Send(b) => {
                let ghost ok = send is Ok;
                match Worker::send_outcome(b, send) {
                    SendOutcome::Delivered(b) => {
                        let mut b = b;
                        self.delivered.append(&mut b);
                        assert(self.model() =~= worker_flush(s, ok));
                        None
                    },
                    SendOutcome::Failed { to_backlog, report } => {
                        self.backlog.receive(BacklogSignal::Entries(to_backlog));
                        assert(self.model() =~= worker_flush(s, ok));
                        Some(report)
                    },
                }
            },
        }
    }

    fn enqueue(&mut self, e: Log, send: Result<(), Log>) -> (r: Option<Log>)
        requires
            old(self).backlog.on_disk() == (old(self).file@.len() > 0),
        ensures
            final(self).backlog.on_disk() == (final(self).file@.len() > 0),
            final(self).model() == enqueue(old(self).model(), e, send is Ok),
            final(self).history == old(self).history,
            final(self).events == old(self).events,
            r matches Some(x) ==> send == Err::<(), Log>(x),
    {
        let ghost s = self.model();
        let full = self.worker.add(e);
        assert(self.model() =~= Pipeline { worker: s.worker.push(e), ..s });
        if full {
            self.flush_worker(send)
        } else {
            None
        }
    }

    /// A caller logs an entry; `send` is the outcome of the send made if the
    /// worker's queue fills. A failure report comes back, to be injected.
    pub fn log(&mut self, e: Log, send: Result<(), Log>) -> (r: Option<Log>)
        requires
            old(self).wf(),
        ensures
            final(self).wf(),
            final(self).events() == old(self).events().push(Event::Log(e, send is Ok)),
            final(self).model() == step(old(self).model(), Event::Log(e, send is Ok)),
            r matches Some(x) ==> send == Err::<(), Log>(x),
    {
        let ghost ev = Event::Log(e, send is Ok);
        self.history = Ghost(self.history@.push(e));
        let r = self.enqueue(e, send);
        self.events = Ghost(self.events@.push(ev));
        assert(self.events@.drop_last() =~= old(self).events@);
        r
    }

    /// The engine logs an entry of its own (a failure report, a trace).
    pub fn inject(&mut self, e: Log, send: Result<(), Log>) -> (r: Option<Log>)
        requires
            old(self).wf(),
        ensures
            final(self).wf(),
            final(self).events() == old(self).events().push(Event::Inject(e, send is Ok)),
            final(self).model() == step(old(self).model(), Event::Inject(e, send is Ok)),
            r matches Some(x) ==> send == Err::<(), Log>(x),
    {
        let ghost ev = Event::Inject(e, send is Ok);
        let r = self.enqueue(e, send);
        self.events = Ghost(self.events@.push(ev));
        assert(self.events@.drop_last() =~= old(self).events@);
        r
    }

    /// The worker's periodic flush. When a direct send fails, its report
    /// comes back, to be injected.
    pub fn tick(&mut self, send: Result<(), Log>) -> (r: Option<Log>)
        requires
            old(self).wf(),
        ensures
            final(self).wf(),
            final(self).events() == old(self).events().push(Event::Tick(send is Ok)),
            final(self).model() == step(old(self).model(), Event::Tick(send is Ok)),
            r is Some <==> (old(self).model().worker.len() > 0 && backlog_idle(old(self).model())
                && send is Err),
            r matches Some(x) ==> send == Err::<(), Log>(x),
    {
        let ghost ev = Event::Tick(send is Ok);
        let r = self.flush_worker(send);
        self.events = Ghost(self.events@.push(ev));
        assert(self.events@.drop_last() =~= old(self).events@);
        r
    }

    /// A retry's probe: reachable, the file is read back; not, the queue is
    /// offered to the file, which takes it when `written`.
    pub fn probe(&mut self, reachable: bool, written: bool)
        requires
            old(self).wf(),
        ensures
            final(self).wf(),
            final(self).events() == old(self).events().push(Event::Probe(reachable, written)),
            final(self).model() == step(old(self).model(), Event::Probe(reachable, written)),
    {
        let ghost s = self.model();
        if self.backlog.should_retry() {
            if reachable {
                let mut disk: Vec<Log> = Vec::new();
                std::mem::swap(&mut disk, &mut self.file);
                self.backlog.load(disk);
            } else {
                let mut queue = self.backlog.persisted(written);
                self.file.append(&mut queue);
            }
        }
        assert(self.model() =~= step(s, Event::Probe(reachable, written)));
        self.events = Ghost(self.events@.push(Event::Probe(reachable, written)));
        assert(self.events@.drop_last() =~= old(self).events@);
    }

    /// The backlog sends its oldest chunk; on failure the report goes back
    /// with it.
    pub fn drain(&mut self, send: Result<(), Log>)
        requires
            old(self).wf(),
        ensures
            final(self).wf(),
            final(self).events() == old(self).events().push(Event::Drain(send)),
            final(self).model() == step(old(self).model(), Event::Drain(send)),
    {
        let ghost s = self.model();
        let ghost ev = Event::Drain(send);
        match self.backlog.next_chunk() {
            None => {},
            Some(chunk) => {
                match self.backlog.sent(chunk, send) {
                    Some(done) => {
                        let mut done = done;
                        self.delivered.append(&mut done);
                    },
                    None => {},
                }
            },
        }
        assert(self.model() =~= step(s, ev));
        self.events = Ghost(self.events@.push(ev));
        assert(self.events@.drop_last() =~= old(self).events@);
    }

    /// Shutdown: the backlog's queue is offered to the file, which takes it
    /// when `written`.
    pub fn exit(&mut self, written: bool)
        requires
            old(self).wf(),
        ensures
            final(self).wf(),
            final(self).events() == old(self).events().push(Event::Exit(written)),
            final(self).model() == step(old(self).model(), Event::Exit(written)),
    {
        let ghost s = self.model();
        let mut queue = self.backlog.persisted(written);
        self.file.append(&mut queue);
        assert(self.model() =~= step(s, Event::Exit(written)));
        self.events = Ghost(self.events@.push(Event::Exit(written)));
        assert(self.events@.drop_last() =~= old(self).events@);
    }

    /// What the endpoint received, in order.
    pub fn delivered(&self) -> (r: &Vec<Log>)
        ensures
            r@ == self.model().delivered,
    {
        &self.delivered
    }

    /// What the backlog file holds, in order.
    pub fn file(&self) -> (r: &Vec<Log>)
        ensures
            r@ == self.model().disk,
    {
        &self.file
    }

    /// Entries waiting in the backlog's queue and in the worker's.
    pub fn pending(&self) -> (r: (usize, usize))
        ensures
            r.0 == self.model().backlog.len(),
            r.1 == self.model().worker.len(),
    {
        (self.backlog.pending(), self.worker.pending())
    }

    /// The wait before the backlog's next retry.
    pub fn retry_interval_secs(&self) -> (r: u64)
        ensures
            r == crate::backlog::retry_interval(self.failures()),
    {
        self.backlog.retry_interval_secs()
    }
}

/// Whatever the engine did, no entry a caller logged is lost or reordered.
pub proof fn lemma_engine_order_kept(e: &InMemoryEngine)
    requires
        e.wf(),
    ensures
        is_subseq(e.model().history, total(e.model())),
{
    lemma_order_kept(e.events());
}

} // verus!
