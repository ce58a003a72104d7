use vstd::prelude::*;
use vstd::arithmetic::power2::{pow2, lemma2_to64, lemma_pow2_unfold, lemma_pow2_strictly_increases};
use crate::models::{Log, Priority};
use crate::codec::views;
use crate::text::{decimal, decimal_string};

verus! {

/// Largest number of backlog entries sent in one request.
pub const BACKLOG_CHUNK_SIZE: usize = 1_000;

/// Wait before the first retry, and after a retry that delivered everything.
pub const RETRY_BASE_SECS: u64 = 10;

/// Longest wait between two retries.
pub const RETRY_MAX_SECS: u64 = 120;

/// The wait between retries after `failures` consecutive failed retries:
/// the base, doubled on each failure after the first, capped at the maximum.
pub open spec fn retry_interval(failures: nat) -> nat {
    if failures == 0 {
        RETRY_BASE_SECS as nat
    } else if RETRY_BASE_SECS * pow2((failures - 1) as nat) < RETRY_MAX_SECS {
        (RETRY_BASE_SECS * pow2((failures - 1) as nat)) as nat
    } else {
        RETRY_MAX_SECS as nat
    }
}

/// After `k` consecutive failed retries the wait is `min(base * 2^(k-1), max)`;
/// with no failure since the last success it is the base.
pub proof fn lemma_backoff_law(k: nat)
    ensures
        k >= 1 ==> retry_interval(k) == vstd::math::min(
            RETRY_BASE_SECS * pow2((k - 1) as nat),
            RETRY_MAX_SECS as int,
        ),
        retry_interval(0) == RETRY_BASE_SECS,
{
}

/// The wait between retries, in seconds, after `failures` consecutive failures.
pub fn backoff_secs(failures: u32) -> (r: u64)
    ensures
        r == retry_interval(failures as nat),
{
    if failures == 0 {
        return RETRY_BASE_SECS;
    }
    let mut v: u64 = RETRY_BASE_SECS;
    let mut i: u32 = 1;
    proof {
        lemma2_to64();
    }
    while i < failures && v < RETRY_MAX_SECS
        invariant
            1 <= i <= failures,
            v == RETRY_BASE_SECS * pow2((i - 1) as nat),
            v <= 2 * RETRY_MAX_SECS,
        decreases failures - i,
    {
        proof {
            lemma_pow2_unfold(i as nat);
        }
        v = v * 2;
        i = i + 1;
    }
    if i < failures {
        proof {
            lemma_pow2_strictly_increases((i - 1) as nat, (failures - 1) as nat);
        }
    }
    if v < RETRY_MAX_SECS {
        v
    } else {
        RETRY_MAX_SECS
    }
}

/// A signal handed to the backlog task.
pub enum BacklogSignal {
    Entries(Vec<Log>),
    Flush,
    Exit,
}

/// What the task running a backlog does after a signal.
#[derive(Clone, Copy, Debug, PartialEq, Eq, Structural)]
pub enum BacklogAction {
    /// Nothing beyond the queueing that already happened.
    Idle,
    /// Take the entries already waiting in the channel, retry once now, then answer.
    RetryAndAnswer,
    /// Persist what is queued and stop.
    PersistAndStop,
}

/// The secondary queue: entries that could not be delivered yet, in order,
/// and whether older entries wait in the backlog file.
pub struct Backlog {
    queue: Vec<Log>,
    failures: u32,
    on_disk: bool,
    exit: bool,
}

impl Backlog {
    pub closed spec fn queue(&self) -> Seq<Log> {
        self.queue@
    }

    /// Consecutive failed retries.
    pub closed spec fn failures(&self) -> nat {
        self.failures as nat
    }

    /// Whether entries were persisted to the backlog file and not read back.
    pub closed spec fn on_disk(&self) -> bool {
        self.on_disk
    }

    pub closed spec fn exiting(&self) -> bool {
        self.exit
    }

    /// An empty backlog. The file may still hold entries from an earlier
    /// run until `load` has read them.
    pub fn new() -> (r: Backlog)
        ensures
            r.queue() == Seq::<Log>::empty(),
            r.failures() == 0,
            r.on_disk(),
            !r.exiting(),
    {
        Backlog { queue: Vec::new(), failures: 0, on_disk: true, exit: false }
    }

    /// Whether the backlog holds nothing, in memory or on disk: only then
    /// may new batches go straight to the endpoint.
    pub fn is_empty(&self) -> (r: bool)
        ensures
            r == (self.queue().len() == 0 && !self.on_disk()),
    {
        self.queue.len() == 0 && !self.on_disk
    }

    pub fn is_exiting(&self) -> (r: bool)
        ensures
            r == self.exiting(),
    {
        self.exit
    }

    /// Number of queued entries.
    pub fn pending(&self) -> (r: usize)
        ensures
            r == self.queue().len(),
    {
        self.queue.len()
    }

    /// The seconds to wait before the next retry.
    pub fn retry_interval_secs(&self) -> (r: u64)
        ensures
            r == retry_interval(self.failures()),
    {
        backoff_secs(self.failures)
    }

    /// Takes the entries read from the backlog file: they are older than
    /// everything queued, so they go first.
    pub fn load(&mut self, from_disk: Vec<Log>)
        ensures
            final(self).queue() == from_disk@ + old(self).queue(),
            !final(self).on_disk(),
            final(self).failures() == old(self).failures(),
            final(self).exiting() == old(self).exiting(),
    {
        let mut from_disk = from_disk;
        from_disk.append(&mut self.queue);
        self.queue = from_disk;
        self.on_disk = false;
    }

    /// Handles one signal.
    pub fn receive(&mut self, signal: BacklogSignal) -> (r: BacklogAction)
        ensures
            final(self).failures() == old(self).failures(),
            final(self).on_disk() == old(self).on_disk(),
            match signal {
                BacklogSignal::Entries(b) => {
                    &&& final(self).queue() == old(self).queue() + b@
                    &&& final(self).exiting() == old(self).exiting()
                    &&& r == BacklogAction::Idle
                },
                BacklogSignal::Flush => {
                    &&& final(self).queue() == old(self).queue()
                    &&& final(self).exiting() == old(self).exiting()
                    &&& r == BacklogAction::RetryAndAnswer
                },
                BacklogSignal::Exit => {
                    &&& final(self).queue() == old(self).queue()
                    &&& final(self).exiting()
                    &&& r == BacklogAction::PersistAndStop
                },
            },
    {
        match signal {
            BacklogSignal::Entries(b) => {
                let mut b = b;
                self.queue.append(&mut b);
                BacklogAction::Idle
            },
            BacklogSignal::Flush => BacklogAction::RetryAndAnswer,
            BacklogSignal::Exit => {
                self.exit = true;
                BacklogAction::PersistAndStop
            },
        }
    }

    /// Whether a retry tick has anything to do: the endpoint is probed only
    /// while entries wait, in memory or in the backlog file.
    pub fn should_retry(&self) -> (r: bool)
        ensures
            r == (self.queue().len() > 0 || self.on_disk()),
    {
        self.queue.len() > 0 || self.on_disk
    }

    fn count_failure(&mut self)
        ensures
            final(self).failures() == if old(self).failures() < u32::MAX {
                old(self).failures() + 1
            } else {
                old(self).failures()
            },
            final(self).queue() == old(self).queue(),
            final(self).on_disk() == old(self).on_disk(),
            final(self).exiting() == old(self).exiting(),
    {
        if self.failures < u32::MAX {
            self.failures = self.failures + 1;
        }
    }

    /// Copies of the queued entries, to be written to the backlog file. The
    /// queue keeps them until `persisted` says the write succeeded.
    pub fn pending_entries(&self) -> (r: Vec<Log>)
        ensures
            views(r@) == views(self.queue()),
    {
        let mut out: Vec<Log> = Vec::new();
        let mut i: usize = 0;
        while i < self.queue.len()
            invariant
                i <= self.queue@.len(),
                out@.len() == i,
                forall|k: int| 0 <= k < i ==> #[trigger] out@[k]@ == self.queue@[k]@,
            decreases self.queue@.len() - i,
        {
            out.push(self.queue[i].duplicate());
            i = i + 1;
        }
        assert(views(out@) =~= views(self.queue@));
        out
    }

    /// The queue was offered to the backlog file (on shutdown, or because the
    /// endpoint is unreachable). When the write succeeded the queue is handed
    /// back, now owned by the file; when it failed the queue stays as it was,
    /// so nothing is lost. The wait before the next retry does not change.
    pub fn persisted(&mut self, written: bool) -> (r: Vec<Log>)
        ensures
            final(self).failures() == old(self).failures(),
            final(self).exiting() == old(self).exiting(),
            written ==> {
                &&& r@ == old(self).queue()
                &&& final(self).queue() == Seq::<Log>::empty()
                &&& final(self).on_disk() == (old(self).on_disk() || old(self).queue().len() > 0)
            },
            !written ==> {
                &&& r@ == Seq::<Log>::empty()
                &&& final(self).queue() == old(self).queue()
                &&& final(self).on_disk() == old(self).on_disk()
            },
    {
        let mut out: Vec<Log> = Vec::new();
        if written {
            if self.queue.len() > 0 {
                self.on_disk = true;
            }
            std::mem::swap(&mut out, &mut self.queue);
        }
        out
    }

    /// The oldest chunk to send; `None` when nothing is queued, or while
    /// the backlog file has not been read back (its entries come first).
    pub fn next_chunk(&mut self) -> (r: Option<Vec<Log>>)
        ensures
            ({
                let q = old(self).queue();
                let n = if q.len() < BACKLOG_CHUNK_SIZE {
                    q.len() as int
                } else {
                    BACKLOG_CHUNK_SIZE as int
                };
                &&& final(self).failures() == old(self).failures()
                &&& final(self).on_disk() == old(self).on_disk()
                &&& final(self).exiting() == old(self).exiting()
                &&& match r {
                    None => (q.len() == 0 || old(self).on_disk()) && final(self).queue() == q,
                    Some(b) => q.len() > 0 && !old(self).on_disk() && b@ == q.take(n)
                        && final(self).queue() == q.skip(n),
                }
            }),
    {
        if self.queue.len() == 0 || self.on_disk {
            return None;
        }
        let ghost q = self.queue@;
        let n: usize = if self.queue.len() < BACKLOG_CHUNK_SIZE {
            self.queue.len()
        } else {
            BACKLOG_CHUNK_SIZE
        };
        let mut chunk = self.queue.split_off(n);
        std::mem::swap(&mut self.queue, &mut chunk);
        assert(chunk@ =~= q.take(n as int));
        assert(self.queue@ =~= q.skip(n as int));
        Some(chunk)
    }

    /// Sending a chunk failed: the chunk and the report of the failure go
    /// back to the front of the queue, and the retry counts as failed.
    pub fn chunk_failed(&mut self, chunk: Vec<Log>, report: Log)
        ensures
            final(self).queue() == chunk@ + seq![report] + old(self).queue(),
            final(self).failures() == if old(self).failures() < u32::MAX {
                old(self).failures() + 1
            } else {
                old(self).failures()
            },
            final(self).on_disk() == old(self).on_disk(),
            final(self).exiting() == old(self).exiting(),
    {
        let mut front = chunk;
        front.push(report);
        front.append(&mut self.queue);
        self.queue = front;
        self.count_failure();
    }

    /// The outcome of sending a chunk that `next_chunk` handed out: on
    /// success the chunk is handed back as delivered and the retry goes on;
    /// on failure it goes back to the front with the report, the retry
    /// counts as failed and stops.
    pub fn sent(&mut self, chunk: Vec<Log>, result: Result<(), Log>) -> (r: Option<Vec<Log>>)
        ensures
            final(self).on_disk() == old(self).on_disk(),
            final(self).exiting() == old(self).exiting(),
            match result {
                Ok(()) => {
                    &&& r matches Some(d) && d@ == chunk@
                    &&& final(self).queue() == old(self).queue()
                    &&& final(self).failures() == old(self).failures()
                },
                Err(report) => {
                    &&& r is None
                    &&& final(self).queue() == chunk@ + seq![report] + old(self).queue()
                    &&& final(self).failures() == if old(self).failures() < u32::MAX {
                        old(self).failures() + 1
                    } else {
                        old(self).failures()
                    }
                },
            },
    {
        match result {
            Ok(()) => Some(chunk),
            Err(report) => {
                self.chunk_failed(chunk, report);
                None
            },
        }
    }

    /// A retry delivered every queued entry: the wait goes back to the base.
    pub fn drained(&mut self)
        ensures
            final(self).failures() == if old(self).queue().len() == 0 {
                0
            } else {
                old(self).failures()
            },
            final(self).queue() == old(self).queue(),
            final(self).on_disk() == old(self).on_disk(),
            final(self).exiting() == old(self).exiting(),
    {
        if self.queue.len() == 0 {
            self.failures = 0;
        }
    }

    /// The trace entry that announces a retry of the queued entries.
    pub fn retry_note(&self) -> (r: Log)
        ensures
            r.priority == Priority::Trace,
            r.text@ == "[dlog] Retrying ingest for "@ + decimal(self.queue().len() as nat)
                + " logs"@,
    {
        let mut text = String::from_str("[dlog] Retrying ingest for ");
        let n = decimal_string(self.queue.len() as u64);
        text.append(n.as_str());
        text.append(" logs");
        Log::new(Priority::Trace, text)
    }

    /// The trace entry that announces the wait before the next retry.
    pub fn wait_note(&self) -> (r: Log)
        ensures
            r.priority == Priority::Trace,
            r.text@ == "[dlog] Will retry in "@ + decimal(retry_interval(self.failures()))
                + " seconds"@,
    {
        let mut text = String::from_str("[dlog] Will retry in ");
        let n = decimal_string(self.retry_interval_secs());
        text.append(n.as_str());
        text.append(" seconds");
        Log::new(Priority::Trace, text)
    }
}

} // verus!
