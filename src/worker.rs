use vstd::prelude::*;
use crate::models::Log;

verus! {

/// Largest number of entries sent in one request.
pub const FLUSH_CHUNK_SIZE: usize = 1_000;

/// The first entries of a queue that one flush takes.
pub open spec fn chunk_len(n: nat) -> nat {
    if n < FLUSH_CHUNK_SIZE {
        n
    } else {
        FLUSH_CHUNK_SIZE as nat
    }
}

/// A signal handed to the worker task.
pub enum Signal {
    Log(Log),
    Flush,
    Exit,
}

/// What the task running a worker does after a signal.
#[derive(Clone, Copy, Debug, PartialEq, Eq, Structural)]
pub enum WorkerAction {
    /// Nothing beyond the queueing that already happened.
    Idle,
    /// The queue reached the chunk size: flush now.
    Flush,
    /// Flush, forward a flush to the backlog, wait for its answer, then answer the caller.
    FlushAndSync,
    /// Flush, forward the exit to the backlog, answer the caller and stop.
    FlushAndExit,
}

/// Where a flushed chunk goes.
pub enum Route {
    /// The queue was empty.
    Nothing,
    /// The backlog is empty: send the chunk to the endpoint directly.
    Send(Vec<Log>),
    /// The backlog still holds older entries: queue the chunk behind them.
    ToBacklog(Vec<Log>),
}

/// What follows a direct send of a chunk.
pub enum SendOutcome {
    /// The endpoint took the chunk.
    Delivered(Vec<Log>),
    /// The send failed: the chunk goes to the backlog, and the report of the
    /// failure goes back through the worker's own input.
    Failed { to_backlog: Vec<Log>, report: Log },
}

/// The primary queue: it buffers new entries and forms the batches.
pub struct Worker {
    queue: Vec<Log>,
    exit: bool,
}

impl Worker {
    /// The queued entries, oldest first.
    pub closed spec fn queue(&self) -> Seq<Log> {
        self.queue@
    }

    /// Whether an exit signal was received.
    pub closed spec fn exiting(&self) -> bool {
        self.exit
    }

    pub fn new() -> (r: Worker)
        ensures
            r.queue() == Seq::<Log>::empty(),
            !r.exiting(),
    {
        Worker { queue: Vec::new(), exit: false }
    }

    pub fn is_exiting(&self) -> (r: bool)
        ensures
            r == self.exiting(),
    {
        self.exit
    }

    /// Number of queued entries.
    pub fn pending(&self) -> (r: usize)
        ensures
            r == self.queue().len(),
    {
        self.queue.len()
    }

    /// Queues an entry; says whether the queue reached the chunk size.
    pub fn add(&mut self, log: Log) -> (full: bool)
        ensures
            final(self).queue() == old(self).queue().push(log),
            final(self).exiting() == old(self).exiting(),
            full == (final(self).queue().len() >= FLUSH_CHUNK_SIZE),
    {
        self.queue.push(log);
        self.queue.len() >= FLUSH_CHUNK_SIZE
    }

    /// Handles one signal.
    pub fn receive(&mut self, signal: Signal) -> (r: WorkerAction)
        ensures
            match signal {
                Signal::Log(e) => {
                    &&& final(self).queue() == old(self).queue().push(e)
                    &&& final(self).exiting() == old(self).exiting()
                    &&& r == if final(self).queue().len() >= FLUSH_CHUNK_SIZE {
                        WorkerAction::Flush
                    } else {
                        WorkerAction::Idle
                    }
                },
                Signal::Flush => {
                    &&& final(self).queue() == old(self).queue()
                    &&& final(self).exiting() == old(self).exiting()
                    &&& r == WorkerAction::FlushAndSync
                },
                Signal::Exit => {
                    &&& final(self).queue() == old(self).queue()
                    &&& final(self).exiting()
                    &&& r == WorkerAction::FlushAndExit
                },
            },
    {
        match signal {
            Signal::Log(e) => {
                if self.add(e) {
                    WorkerAction::Flush
                } else {
                    WorkerAction::Idle
                }
            },
            Signal::Flush => WorkerAction::FlushAndSync,
            Signal::Exit => {
                self.exit = true;
                WorkerAction::FlushAndExit
            },
        }
    }

    /// Takes the oldest chunk of the queue and routes it: straight to the
    /// endpoint when the backlog is empty, behind the backlog otherwise.
    pub fn flush(&mut self, backlog_empty: bool) -> (r: Route)
        ensures
            ({
                let q = old(self).queue();
                let n = chunk_len(q.len()) as int;
                &&& final(self).queue() == q.skip(n)
                &&& final(self).exiting() == old(self).exiting()
                &&& match r {
                    Route::Nothing => q.len() == 0,
                    Route::Send(b) => q.len() > 0 && backlog_empty && b@ == q.take(n),
                    Route::ToBacklog(b) => q.len() > 0 && !backlog_empty && b@ == q.take(n),
                }
            }),
    {
        if self.queue.len() == 0 {
            return Route::Nothing;
        }
        let ghost q = self.queue@;
        let n: usize = if self.queue.len() < FLUSH_CHUNK_SIZE {
            self.queue.len()
        } else {
            FLUSH_CHUNK_SIZE
        };
        let mut chunk = self.queue.split_off(n);
        std::mem::swap(&mut self.queue, &mut chunk);
        assert(chunk@ =~= q.take(n as int));
        assert(self.queue@ =~= q.skip(n as int));
        if backlog_empty {
            Route::Send(chunk)
        } else {
            Route::ToBacklog(chunk)
        }
    }

    /// Decides what follows the direct send of a chunk that `flush` routed
    /// to the endpoint, from the outcome of that send.
    pub fn send_outcome(batch: Vec<Log>, result: Result<(), Log>) -> (r: SendOutcome)
        ensures
            match result {
                Ok(()) => r matches SendOutcome::Delivered(b) && b@ == batch@,
                Err(e) => r matches SendOutcome::Failed { to_backlog, report } && to_backlog@
                    == batch@ && report == e,
            },
    {
        match result {
            Ok(()) => SendOutcome::Delivered(batch),
            Err(report) => SendOutcome::Failed { to_backlog: batch, report },
        }
    }
}

} // verus!
