use vstd::prelude::*;
use crate::models::{Log, Priority};
use crate::codec::{encode_line, encodable, entry_text, views, LogView};

verus! {

broadcast use vstd::string::group_string_axioms;

/// The text that the endpoint puts in its answer when it rejects the credential.
pub const REJECTION_MARKER: &'static str = "Invalid API_KEY";

/// `needle` occurs in `hay`.
pub open spec fn occurs_in(hay: Seq<char>, needle: Seq<char>) -> bool {
    exists|i: int| 0 <= i <= hay.len() - needle.len() && #[trigger] hay.subrange(i, i + needle.len()) == needle
}

/// Whether `needle` occurs in `hay`.
pub fn contains_text(hay: &str, needle: &str) -> (r: bool)
    ensures
        r == occurs_in(hay@, needle@),
{
    let h = crate::text::chars_of(hay);
    let n = crate::text::chars_of(needle);
    if n.len() > h.len() {
        return false;
    }
    let mut i: usize = 0;
    while i <= h.len() - n.len()
        invariant
            h@ == hay@,
            n@ == needle@,
            n@.len() <= h@.len(),
            i <= h@.len() - n@.len() + 1,
            forall|k: int| 0 <= k < i ==> #[trigger] h@.subrange(k, k + n@.len()) != n@,
        decreases h@.len() - n@.len() + 1 - i,
    {
        let mut j: usize = 0;
        let mut same = true;
        while j < n.len()
            invariant
                h@ == hay@,
                n@ == needle@,
                i + n@.len() <= h@.len() <= usize::MAX,
                j <= n@.len(),
                same == (forall|m: int| 0 <= m < j ==> h@[i + m] == n@[m]),
            decreases n@.len() - j,
        {
            if h[i + j] != n[j] {
                same = false;
            }
            j = j + 1;
        }
        if same {
            assert(h@.subrange(i as int, i + n@.len()) =~= n@);
            return true;
        }
        assert(h@.subrange(i as int, i + n@.len()) != n@) by {
            let m = choose|m: int| 0 <= m < n@.len() && h@[i + m] != n@[m];
            assert(h@.subrange(i as int, i + n@.len())[m] == h@[i + m]);
        }
        i = i + 1;
    }
    false
}

/// The answer to one request to the endpoint.
pub enum Response {
    /// The request did not get an answer; the text says why.
    Unreachable(String),
    /// The endpoint answered with a status in the success range or not, and a body.
    Answered { success: bool, body: String },
}

/// The body of a request that carries the given entries:
/// `{"logs":[...]}` with one JSON object per entry.
pub open spec fn request_text(s: Seq<LogView>) -> Seq<char> {
    "{\"logs\":["@ + joined_entries(s) + "]}"@
}

/// The JSON texts of the encodable entries, separated by commas.
pub open spec fn joined_entries(s: Seq<LogView>) -> Seq<char>
    decreases s.len(),
{
    if s.len() == 0 {
        seq![]
    } else {
        let front = joined_entries(s.drop_last());
        if !encodable(s.last()) {
            front
        } else if front.len() == 0 {
            entry_text(s.last())
        } else {
            front + seq![','] + entry_text(s.last())
        }
    }
}

/// A batch of entries as the endpoint receives it.
pub struct LogRequest<'a> {
    pub logs: &'a [Log],
}

impl<'a> LogRequest<'a> {
    pub fn new(logs: &'a [Log]) -> (r: LogRequest<'a>)
        ensures
            r.logs@ == logs@,
    {
        LogRequest { logs }
    }

    /// The JSON body of the request; `None` when an entry's instant cannot
    /// be written, which fails the whole request.
    pub fn body(&self) -> (r: Option<String>)
        ensures
            r is Some <==> (forall|i: int| 0 <= i < self.logs@.len() ==> encodable(
                #[trigger] self.logs@[i]@,
            )),
            r matches Some(t) ==> t@ == request_text(views(self.logs@)),
    {
        let mut inner = String::new();
        let mut i: usize = 0;
        while i < self.logs.len()
            invariant
                i <= self.logs@.len(),
                inner@ == joined_entries(views(self.logs@.subrange(0, i as int))),
                forall|k: int| 0 <= k < i ==> encodable(#[trigger] self.logs@[k]@),
            decreases self.logs@.len() - i,
        {
            proof {
                let s = views(self.logs@.subrange(0, i as int + 1));
                assert(s.drop_last() =~= views(self.logs@.subrange(0, i as int)));
                assert(s.last() == self.logs@[i as int]@);
            }
            match encode_line(&self.logs[i]) {
                Some(line) => {
                    if inner.unicode_len() > 0 {
                        inner.append(",");
                        proof {
                            reveal_strlit(",");
                            assert(","@ =~= seq![',']);
                        }
                    }
                    inner.append(line.as_str());
                },
                None => {
                    return None;
                },
            }
            i = i + 1;
        }
        assert(self.logs@.subrange(0, self.logs@.len() as int) =~= self.logs@);
        let mut out = String::from_str("{\"logs\":[");
        out.append(inner.as_str());
        out.append("]}");
        Some(out)
    }
}

/// What was learnt from one delivery attempt: success, or the trace entry
/// that reports the failure.
pub open spec fn failure_text(r: Response) -> Option<Seq<char>> {
    match r {
        Response::Unreachable(why) => Some("[dlog] API connection error: "@ + why@),
        Response::Answered { success, body } => if success {
            None
        } else {
            Some("[dlog] Log ingestion failed: "@ + body@)
        },
    }
}

pub struct HttpIngestor;

impl HttpIngestor {
    /// The outcome of submitting a batch: `Ok` when the endpoint answered with
    /// success, otherwise a low-priority entry that reports the failure.
    pub fn log_outcome(response: Response) -> (r: Result<(), Log>)
        ensures
            match failure_text(response) {
                None => r is Ok,
                Some(t) => r matches Err(e) && e.priority == Priority::Trace && e.text@ == t,
            },
    {
        match response {
            Response::Unreachable(why) => {
                let mut text = String::from_str("[dlog] API connection error: ");
                text.append(why.as_str());
                Err(Log::new(Priority::Trace, text))
            },
            Response::Answered { success, body } => {
                if success {
                    Ok(())
                } else {
                    let mut text = String::from_str("[dlog] Log ingestion failed: ");
                    text.append(body.as_str());
                    Err(Log::new(Priority::Trace, text))
                }
            },
        }
    }

    /// The endpoint is reachable and accepts the credential: the probe with
    /// an empty batch was answered with success.
    pub fn check(response: &Response) -> (r: bool)
        ensures
            r == match *response {
                Response::Unreachable(_) => false,
                Response::Answered { success, .. } => success,
            },
    {
        match response {
            Response::Unreachable(_) => false,
            Response::Answered { success, .. } => *success,
        }
    }

    /// The credential is accepted unless an answer to the probe carries the
    /// rejection marker; a probe without an answer says nothing against it.
    pub fn has_valid_api_key(response: &Response) -> (r: bool)
        ensures
            r == match *response {
                Response::Unreachable(_) => true,
                Response::Answered { body, .. } => !occurs_in(body@, REJECTION_MARKER@),
            },
    {
        match response {
            Response::Unreachable(_) => true,
            Response::Answered { body, .. } => !contains_text(body.as_str(), REJECTION_MARKER),
        }
    }
}

} // verus!
