//! Log levels and the logger that decides which records are written.

use crate::text::{same_text, to_uppercase, uppercase_of};
use vstd::prelude::*;
use vstd::string::StringExecFns;

verus! {

/// The severity of a log record, from the least to the most severe.
#[derive(Debug, Clone, Copy, PartialEq, Eq, PartialOrd, Ord, Structural)]
pub enum LogLevel {
    TRACE,
    DEBUG,
    INFO,
    WARN,
    ERROR,
    CRITICAL,
}

impl Default for LogLevel {
    fn default() -> (r: Self)
        ensures
            r == LogLevel::INFO,
    {
        LogLevel::INFO
    }
}

impl LogLevel {
    /// The place of the level in the order of severity.
    pub open spec fn rank(self) -> nat {
        match self {
            LogLevel::TRACE => 0,
            LogLevel::DEBUG => 1,
            LogLevel::INFO => 2,
            LogLevel::WARN => 3,
            LogLevel::ERROR => 4,
            LogLevel::CRITICAL => 5,
        }
    }

    /// The level as it is written: the one table that relates levels and
    /// their text.
    pub open spec fn label(self) -> Seq<char> {
        match self {
            LogLevel::TRACE => "TRACE"@,
            LogLevel::DEBUG => "DEBUG"@,
            LogLevel::INFO => "INFO"@,
            LogLevel::WARN => "WARN"@,
            LogLevel::ERROR => "ERROR"@,
            LogLevel::CRITICAL => "CRITICAL"@,
        }
    }

    /// The level that is written `t`, if there is one.
    pub open spec fn named(t: Seq<char>) -> Option<LogLevel> {
        if exists|l: LogLevel| l.label() == t {
            Some(choose|l: LogLevel| l.label() == t)
        } else {
            None
        }
    }

    /// The place of the level in the order of severity.
    pub fn severity(self) -> (r: u8)
        ensures
            r == self.rank(),
    {
        match self {
            LogLevel::TRACE => 0,
            LogLevel::DEBUG => 1,
            LogLevel::INFO => 2,
            LogLevel::WARN => 3,
            LogLevel::ERROR => 4,
            LogLevel::CRITICAL => 5,
        }
    }

    /// The level as it is written.
    pub fn as_str(&self) -> (r: &'static str)
        ensures
            r@ == self.label(),
    {
        match self {
            LogLevel::TRACE => "TRACE",
            LogLevel::DEBUG => "DEBUG",
            LogLevel::INFO => "INFO",
            LogLevel::WARN => "WARN",
            LogLevel::ERROR => "ERROR",
            LogLevel::CRITICAL => "CRITICAL",
        }
    }

    /// The level that the uppercase text `upper` names, if there is one.
    pub fn from_uppercase(upper: &str) -> (r: Option<Self>)
        ensures
            r == Self::named(upper@),
    {
        let r = if same_text(upper, "TRACE") {
            Some(LogLevel::TRACE)
        } else if same_text(upper, "DEBUG") {
            Some(LogLevel::DEBUG)
        } else if same_text(upper, "INFO") {
            Some(LogLevel::INFO)
        } else if same_text(upper, "WARN") {
            Some(LogLevel::WARN)
        } else if same_text(upper, "ERROR") {
            Some(LogLevel::ERROR)
        } else if same_text(upper, "CRITICAL") {
            Some(LogLevel::CRITICAL)
        } else {
            None
        };
        proof {
            match r {
                Some(l) => {
                    lemma_level_named(l);
                },
                None => {
                    assert forall|l: LogLevel| l.label() != upper@ by {
                        match l {
                            LogLevel::TRACE => {},
                            LogLevel::DEBUG => {},
                            LogLevel::INFO => {},
                            LogLevel::WARN => {},
                            LogLevel::ERROR => {},
                            LogLevel::CRITICAL => {},
                        }
                    }
                },
            }
        }
        r
    }

    /// The level that `s` names, in any case.
    pub fn from_str(s: &str) -> (r: Option<Self>)
        ensures
            r == Self::named(uppercase_of(s@)),
    {
        let upper = to_uppercase(s);
        Self::from_uppercase(upper.as_str())
    }
}

/// No two levels are written alike.
pub proof fn lemma_levels_distinct(a: LogLevel, b: LogLevel)
    requires
        a.label() == b.label(),
    ensures
        a == b,
{
    reveal_strlit("TRACE");
    reveal_strlit("DEBUG");
    reveal_strlit("INFO");
    reveal_strlit("WARN");
    reveal_strlit("ERROR");
    reveal_strlit("CRITICAL");
    let x = a.label();
    let y = b.label();
    assert(x.len() == y.len());
    assert(x[0] == y[0]);
}

/// A level is the one that its own text names.
pub proof fn lemma_level_named(l: LogLevel)
    ensures
        LogLevel::named(l.label()) == Some(l),
{
    let found = choose|c: LogLevel| c.label() == l.label();
    lemma_levels_distinct(found, l);
}

/// Reads the local clock through `chrono::Local::now` and writes it as
/// year/month/day hour:minute:second. The text depends on the clock and the
/// time zone, so nothing is claimed of it.
#[verifier::external_body]
pub(crate) fn local_timestamp() -> (r: String) {
    chrono::Local::now().format("%Y/%m/%d %H:%M:%S").to_string()
}

/// A log record as it is written: the time and the level in brackets, then
/// the message.
pub open spec fn log_line(timestamp: Seq<char>, level: LogLevel, message: Seq<char>) -> Seq<char> {
    "["@ + timestamp + "] ["@ + level.label() + "] "@ + message
}

/// Decides which records are written: those at or above its level, once it
/// is enabled.
#[derive(Debug, Clone, Copy, PartialEq, Eq, Structural)]
pub struct Logger {
    pub level: LogLevel,
    pub enabled: bool,
}

impl Logger {
    /// The logger at the level `INFO`, not enabled yet.
    pub fn default() -> (r: Self)
        ensures
            r == (Logger { level: LogLevel::INFO, enabled: false }),
    {
        Logger { level: LogLevel::INFO, enabled: false }
    }

    /// Whether a record of severity `level` is written.
    pub open spec fn emits(self, level: LogLevel) -> bool {
        self.enabled && self.level.rank() <= level.rank()
    }

    /// What `record` answers for a record of severity `level`: a line with
    /// some time stamp where the record is written, nothing where it is not.
    pub open spec fn recorded(self, level: LogLevel, message: Seq<char>, r: Option<String>) -> bool {
        &&& r is Some <==> self.emits(level)
        &&& r matches Some(line) ==> exists|timestamp: Seq<char>|
            line@ == log_line(timestamp, level, message)
    }

    /// Writes a record out as a line.
    pub fn render(timestamp: &str, level: LogLevel, message: &str) -> (line: String)
        ensures
            line@ == log_line(timestamp@, level, message@),
    {
        let mut line = String::from_str("[");
        line.append(timestamp);
        line.append("] [");
        line.append(level.as_str());
        line.append("] ");
        line.append(message);
        line
    }

    /// The line for a record of severity `level`, stamped with the local
    /// time, where the logger writes it.
    pub fn record(&self, level: LogLevel, message: &str) -> (r: Option<String>)
        ensures
            self.recorded(level, message@, r),
    {
        if self.level.severity() > level.severity() {
            return None;
        }
        self.log(level, message)
    }

    fn log(&self, level: LogLevel, message: &str) -> (r: Option<String>)
        ensures
            r is Some <==> self.enabled,
            r matches Some(line) ==> exists|timestamp: Seq<char>|
                line@ == log_line(timestamp, level, message@),
    {
        if !self.enabled {
            return None;
        }
        let timestamp = local_timestamp();
        let line = Self::render(timestamp.as_str(), level, message);
        assert(line@ == log_line(timestamp@, level, message@));
        Some(line)
    }

    /// The line of a `TRACE` record, where the logger writes it.
    pub fn trace(&self, message: &str) -> (r: Option<String>)
        ensures
            self.recorded(LogLevel::TRACE, message@, r),
    {
        self.record(LogLevel::TRACE, message)
    }

    /// The line of a `DEBUG` record, where the logger writes it.
    pub fn debug(&self, message: &str) -> (r: Option<String>)
        ensures
            self.recorded(LogLevel::DEBUG, message@, r),
    {
        self.record(LogLevel::DEBUG, message)
    }

    /// The line of an `INFO` record, where the logger writes it.
    pub fn info(&self, message: &str) -> (r: Option<String>)
        ensures
            self.recorded(LogLevel::INFO, message@, r),
    {
        self.record(LogLevel::INFO, message)
    }

    /// The line of a `WARN` record, where the logger writes it.
    pub fn warn(&self, message: &str) -> (r: Option<String>)
        ensures
            self.recorded(LogLevel::WARN, message@, r),
    {
        self.record(LogLevel::WARN, message)
    }

    /// The line of an `ERROR` record, where the logger writes it.
    pub fn error(&self, message: &str) -> (r: Option<String>)
        ensures
            self.recorded(LogLevel::ERROR, message@, r),
    {
        self.record(LogLevel::ERROR, message)
    }

    /// The line of a `CRITICAL` record, where the logger writes it.
    pub fn critical(&self, message: &str) -> (r: Option<String>)
        ensures
            self.recorded(LogLevel::CRITICAL, message@, r),
    {
        self.record(LogLevel::CRITICAL, message)
    }

    /// Sets the level from which records are written.
    pub fn change_level(&mut self, level: LogLevel)
        ensures
            *final(self) == (Logger { level, enabled: old(self).enabled }),
    {
        self.level = level;
    }

    /// Lets the logger write from now on.
    pub fn enable(&mut self)
        ensures
            *final(self) == (Logger { level: old(self).level, enabled: true }),
    {
        self.enabled = true;
    }
}

} // verus!
