use vstd::prelude::*;
use crate::models::Priority;
use crate::transforms::{Transforms, TransformKind};

verus! {

/// The levels of the `log` facade, from the most to the least severe.
#[derive(Clone, Copy, Debug, PartialEq, Eq, Structural)]
pub enum Level {
    Error,
    Warn,
    Info,
    Debug,
    Trace,
}

/// How verbose a level is: `Error` is the least verbose.
pub open spec fn verbosity(l: Level) -> nat {
    match l {
        Level::Error => 1,
        Level::Warn => 2,
        Level::Info => 3,
        Level::Debug => 4,
        Level::Trace => 5,
    }
}

fn rank(l: Level) -> (r: u8)
    ensures
        r == verbosity(l),
{
    match l {
        Level::Error => 1,
        Level::Warn => 2,
        Level::Info => 3,
        Level::Debug => 4,
        Level::Trace => 5,
    }
}

/// The priority of a record of the `log` facade.
pub fn convert_level(level: Level) -> (r: Priority)
    ensures
        r == match level {
            Level::Error => Priority::Error,
            Level::Warn => Priority::Warning,
            Level::Info => Priority::Info,
            Level::Debug => Priority::Debug,
            Level::Trace => Priority::Trace,
        },
{
    match level {
        Level::Error => Priority::Error,
        Level::Warn => Priority::Warning,
        Level::Info => Priority::Info,
        Level::Debug => Priority::Debug,
        Level::Trace => Priority::Trace,
    }
}

/// The priority of a numeric level as Python's `logging` writes it
/// (50 critical, 40 error, 30 warning, 20 info); any other number is debug.
pub fn convert_priority(level: i32) -> (r: Priority)
    ensures
        r == if level == 50 {
            Priority::Critical
        } else if level == 40 {
            Priority::Error
        } else if level == 30 {
            Priority::Warning
        } else if level == 20 {
            Priority::Info
        } else {
            Priority::Debug
        },
{
    match level {
        50 => Priority::Critical,
        40 => Priority::Error,
        30 => Priority::Warning,
        20 => Priority::Info,
        _ => Priority::Debug,
    }
}

/// The priority of a numeric level as Node's loggers write it
/// (50 error, 40 warning, 30 info, 20 debug); any other number is trace.
pub fn priority_of_number(level: i32) -> (r: Priority)
    ensures
        r == if level == 50 {
            Priority::Error
        } else if level == 40 {
            Priority::Warning
        } else if level == 30 {
            Priority::Info
        } else if level == 20 {
            Priority::Debug
        } else {
            Priority::Trace
        },
{
    match level {
        50 => Priority::Error,
        40 => Priority::Warning,
        30 => Priority::Info,
        20 => Priority::Debug,
        _ => Priority::Trace,
    }
}

/// The engine seen from the `log` facade, with the level it was configured with.
pub struct DlogLogger<L> {
    core: L,
    level: Level,
}

impl<L> DlogLogger<L> {
    pub closed spec fn level_spec(&self) -> Level {
        self.level
    }

    pub closed spec fn core_spec(&self) -> L {
        self.core
    }

    pub fn new(core: L, level: Level) -> (r: DlogLogger<L>)
        ensures
            r.core_spec() == core,
            r.level_spec() == level,
    {
        DlogLogger { core, level }
    }

    /// The engine behind the logger.
    pub fn engine(&self) -> (r: &L)
        ensures
            *r == self.core_spec(),
    {
        &self.core
    }

    pub fn level(&self) -> (r: Level)
        ensures
            r == self.level_spec(),
    {
        self.level
    }

    /// Whether a record of the given level is taken: it must be at least as
    /// severe as the configured level.
    pub fn enabled(&self, level: Level) -> (r: bool)
        ensures
            r == (verbosity(level) <= verbosity(self.level_spec())),
    {
        rank(level) <= rank(self.level)
    }
}

/// What a builder settles: the credential, the level and the transforms.
pub struct Settings {
    pub api_key: String,
    pub level: Level,
    pub transforms: Transforms,
}

/// Configures the engine step by step.
pub struct Builder {
    api_key: Option<String>,
    level: Option<Level>,
    transforms: Transforms,
}

impl Builder {
    pub closed spec fn api_key_spec(&self) -> Option<Seq<char>> {
        match self.api_key {
            Some(k) => Some(k@),
            None => None,
        }
    }

    pub closed spec fn level_spec(&self) -> Option<Level> {
        self.level
    }

    pub closed spec fn kinds(&self) -> Seq<TransformKind> {
        self.transforms.kinds()
    }

    /// No credential, no level, the console echo alone.
    pub fn new() -> (r: Builder)
        ensures
            r.api_key_spec() is None,
            r.level_spec() is None,
            r.kinds() == seq![TransformKind::Console],
    {
        Builder { api_key: None, level: None, transforms: Transforms::new() }
    }

    /// Sets the credential.
    pub fn with_str_api_key(self, api_key: String) -> (r: Builder)
        ensures
            r.api_key_spec() == Some(api_key@),
            r.level_spec() == self.level_spec(),
            r.kinds() == self.kinds(),
    {
        Builder { api_key: Some(api_key), ..self }
    }

    /// Sets the credential from the value of an environment variable: an
    /// unset variable gives the empty credential.
    pub fn with_env_api_key(self, value: Option<String>) -> (r: Builder)
        ensures
            r.api_key_spec() == Some(
                match value {
                    Some(v) => v@,
                    None => Seq::<char>::empty(),
                },
            ),
            r.level_spec() == self.level_spec(),
            r.kinds() == self.kinds(),
    {
        let key = match value {
            Some(v) => v,
            None => String::new(),
        };
        Builder { api_key: Some(key), ..self }
    }

    /// Sets the least severe level that is logged.
    pub fn with_level(self, level: Level) -> (r: Builder)
        ensures
            r.api_key_spec() == self.api_key_spec(),
            r.level_spec() == Some(level),
            r.kinds() == self.kinds(),
    {
        Builder { level: Some(level), ..self }
    }

    /// Adds the card-number sanitizer in front of the transforms.
    pub fn with_credit_card_sanitizer(self) -> (r: Builder)
        ensures
            r.api_key_spec() == self.api_key_spec(),
            r.level_spec() == self.level_spec(),
            r.kinds() == seq![TransformKind::CreditCard] + self.kinds(),
    {
        let mut b = self;
        b.transforms.add_credit_card_sanitizer(true);
        b
    }

    /// The settings: a missing credential is empty, a missing level is `Debug`.
    pub fn settings(self) -> (r: Settings)
        ensures
            r.api_key@ == match self.api_key_spec() {
                Some(k) => k,
                None => Seq::<char>::empty(),
            },
            r.level == match self.level_spec() {
                Some(l) => l,
                None => Level::Debug,
            },
            r.transforms.kinds() == self.kinds(),
    {
        let api_key = match self.api_key {
            Some(k) => k,
            None => String::new(),
        };
        let level = match self.level {
            Some(l) => l,
            None => Level::Debug,
        };
        Settings { api_key, level, transforms: self.transforms }
    }
}

impl Default for Builder {
    fn default() -> (r: Builder)
        ensures
            r.api_key_spec() is None,
            r.level_spec() is None,
            r.kinds() == seq![TransformKind::Console],
    {
        Builder::new()
    }
}

/// A builder with the given credential and the card-number sanitizer.
pub fn configure(api_key: String) -> (r: Builder)
    ensures
        r.api_key_spec() == Some(api_key@),
        r.level_spec() is None,
        r.kinds() == seq![TransformKind::CreditCard, TransformKind::Console],
{
    let b = Builder::new().with_str_api_key(api_key).with_credit_card_sanitizer();
    assert(seq![TransformKind::CreditCard] + seq![TransformKind::Console] =~= seq![
        TransformKind::CreditCard,
        TransformKind::Console,
    ]);
    b
}

} // verus!
