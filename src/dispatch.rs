use vstd::prelude::*;

verus! {

broadcast use vstd::string::group_string_axioms;

/// Whether the engine may start: a rejected credential stops it before any
/// entry is accepted.
pub fn startup(credential_valid: bool) -> (r: Result<(), String>)
    ensures
        r is Ok <==> credential_valid,
        r matches Err(m) ==> m@ == "[dlog::logger] Please configure dlog with a valid API_KEY"@,
{
    if credential_valid {
        Ok(())
    } else {
        Err(String::from_str("[dlog::logger] Please configure dlog with a valid API_KEY"))
    }
}

/// How the wait for an acknowledgement ended.
#[derive(Clone, Copy, Debug, PartialEq, Eq, Structural)]
pub enum Ack {
    Received,
    TimedOut,
    Disconnected,
}

/// The caller's result of a flush: an error unless the acknowledgement
/// came. A timeout is reported but does not undo what was flushed.
pub fn flush_result(ack: Ack) -> (r: Result<(), String>)
    ensures
        r is Ok <==> ack == Ack::Received,
        ack == Ack::TimedOut ==> (r matches Err(m) && m@
            == "[dlog::logger] Timed out waiting for the flush to complete"@),
        ack == Ack::Disconnected ==> (r matches Err(m) && m@
            == "[dlog::logger] Failed to receive thread signal"@),
{
    match ack {
        Ack::Received => Ok(()),
        Ack::TimedOut => Err(
            String::from_str("[dlog::logger] Timed out waiting for the flush to complete"),
        ),
        Ack::Disconnected => Err(String::from_str("[dlog::logger] Failed to receive thread signal")),
    }
}

/// Whether the engine has been shut down.
#[derive(Debug)]
pub struct Lifecycle {
    stopped: bool,
}

impl Lifecycle {
    pub closed spec fn stopped(&self) -> bool {
        self.stopped
    }

    pub fn new() -> (r: Lifecycle)
        ensures
            !r.stopped(),
    {
        Lifecycle { stopped: false }
    }

    pub fn is_stopped(&self) -> (r: bool)
        ensures
            r == self.stopped(),
    {
        self.stopped
    }

    /// Shuts the engine down; says whether the exit signal must be sent,
    /// which is so only the first time.
    pub fn clean_up(&mut self) -> (send_exit: bool)
        ensures
            (send_exit, final(self).stopped()) == clean_up_step(old(self).stopped()),
    {
        let first = !self.stopped;
        self.stopped = true;
        first
    }
}

/// One shutdown request: from whether the engine was stopped, whether the
/// exit signal is sent and whether it is stopped afterwards.
pub open spec fn clean_up_step(stopped: bool) -> (bool, bool) {
    (!stopped, true)
}

/// Shutting down twice sends the exit signal, and so persists the queues,
/// at most once: the second request asks for nothing.
pub proof fn lemma_clean_up_idempotent(stopped: bool)
    ensures
        !clean_up_step(clean_up_step(stopped).1).0,
        clean_up_step(clean_up_step(stopped).1).1,
{
}

} // verus!
