use vstd::prelude::*;

verus! {

/// Severity of a log entry, from the most to the least severe.
#[derive(Clone, Copy, Debug, PartialEq, Eq, Structural)]
pub enum Priority {
    Critical,
    Error,
    Warning,
    Info,
    Debug,
    Trace,
}

/// The human-readable label of a priority.
pub open spec fn priority_label(p: Priority) -> Seq<char> {
    match p {
        Priority::Critical => "Critical"@,
        Priority::Error => "Error"@,
        Priority::Warning => "Warning"@,
        Priority::Info => "Informational"@,
        Priority::Debug => "Debug"@,
        Priority::Trace => "Trace"@,
    }
}

/// The name under which a priority travels on the wire and in the backlog file.
pub open spec fn priority_name(p: Priority) -> Seq<char> {
    match p {
        Priority::Critical => "Critical"@,
        Priority::Error => "Error"@,
        Priority::Warning => "Warning"@,
        Priority::Info => "Info"@,
        Priority::Debug => "Debug"@,
        Priority::Trace => "Trace"@,
    }
}

/// The priority whose wire name is `s`, if any.
pub open spec fn priority_of_name(s: Seq<char>) -> Option<Priority> {
    if s == "Critical"@ {
        Some(Priority::Critical)
    } else if s == "Error"@ {
        Some(Priority::Error)
    } else if s == "Warning"@ {
        Some(Priority::Warning)
    } else if s == "Info"@ {
        Some(Priority::Info)
    } else if s == "Debug"@ {
        Some(Priority::Debug)
    } else if s == "Trace"@ {
        Some(Priority::Trace)
    } else {
        None
    }
}

/// Two strings with the same characters.
pub fn same_text(a: &str, b: &str) -> (r: bool)
    ensures
        r == (a@ == b@),
{
    let x = a.to_owned();
    let y = b.to_owned();
    x == y
}

impl Priority {
    /// The label shown to people: `Info` reads as "Informational".
    pub fn to_string(&self) -> (r: String)
        ensures
            r@ == priority_label(*self),
    {
        match self {
            Priority::Critical => String::from_str("Critical"),
            Priority::Error => String::from_str("Error"),
            Priority::Warning => String::from_str("Warning"),
            Priority::Info => String::from_str("Informational"),
            Priority::Debug => String::from_str("Debug"),
            Priority::Trace => String::from_str("Trace"),
        }
    }

    /// The wire name of the priority.
    pub fn name(&self) -> (r: String)
        ensures
            r@ == priority_name(*self),
    {
        match self {
            Priority::Critical => String::from_str("Critical"),
            Priority::Error => String::from_str("Error"),
            Priority::Warning => String::from_str("Warning"),
            Priority::Info => String::from_str("Info"),
            Priority::Debug => String::from_str("Debug"),
            Priority::Trace => String::from_str("Trace"),
        }
    }

    /// The priority with the given wire name.
    pub fn from_name(s: &str) -> (r: Option<Priority>)
        ensures
            r == priority_of_name(s@),
    {
        if same_text(s, "Critical") {
            Some(Priority::Critical)
        } else if same_text(s, "Error") {
            Some(Priority::Error)
        } else if same_text(s, "Warning") {
            Some(Priority::Warning)
        } else if same_text(s, "Info") {
            Some(Priority::Info)
        } else if same_text(s, "Debug") {
            Some(Priority::Debug)
        } else if same_text(s, "Trace") {
            Some(Priority::Trace)
        } else {
            None
        }
    }
}

/// Every priority is read back from its wire name.
pub proof fn lemma_priority_name_round_trip(p: Priority)
    ensures
        priority_of_name(priority_name(p)) == Some(p),
{
    reveal_strlit("Critical");
    reveal_strlit("Error");
    reveal_strlit("Warning");
    reveal_strlit("Info");
    reveal_strlit("Debug");
    reveal_strlit("Trace");
    assert("Critical"@[0] == 'C' && "Error"@[0] == 'E' && "Warning"@[0] == 'W');
    assert("Info"@[0] == 'I' && "Debug"@[0] == 'D' && "Trace"@[0] == 'T');
}

/// A wall-clock instant, in nanoseconds since the Unix epoch (UTC).
#[derive(Clone, Copy, Debug, PartialEq, Eq, Structural)]
pub struct Timestamp {
    pub unix_nanos: i128,
}

/// Relies on time::OffsetDateTime::now_utc and unix_timestamp_nanos: the
/// current instant; nothing is promised of its value.
#[verifier::external_body]
fn now_unix_nanos() -> (r: i128) {
    time::OffsetDateTime::now_utc().unix_timestamp_nanos()
}

impl Timestamp {
    /// The current instant.
    pub fn now() -> (r: Timestamp) {
        Timestamp { unix_nanos: now_unix_nanos() }
    }
}

/// One log record. Its text has already been through the transforms.
#[derive(Debug)]
pub struct Log {
    pub timestamp: Timestamp,
    pub priority: Priority,
    pub text: String,
}

impl Log {
    /// An entry stamped with the current instant.
    pub fn new(priority: Priority, message: String) -> (r: Log)
        ensures
            r.priority == priority,
            r.text@ == message@,
    {
        Log { timestamp: Timestamp::now(), priority, text: message }
    }

    /// An entry with a given instant.
    pub fn at(timestamp: Timestamp, priority: Priority, message: String) -> (r: Log)
        ensures
            r.timestamp == timestamp,
            r.priority == priority,
            r.text@ == message@,
    {
        Log { timestamp, priority, text: message }
    }

    /// A copy of the entry.
    pub fn duplicate(&self) -> (r: Log)
        ensures
            r.timestamp == self.timestamp,
            r.priority == self.priority,
            r.text@ == self.text@,
    {
        Log { timestamp: self.timestamp, priority: self.priority, text: self.text.clone() }
    }
}

} // verus!
