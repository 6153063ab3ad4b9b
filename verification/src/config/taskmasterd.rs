//! The daemon's own settings and the keys of its section.

use crate::config::logger::LogLevel;
use crate::text::same_text;
use vstd::prelude::*;

verus! {

/// The daemon's own settings.
#[derive(Debug, Clone, PartialEq, Eq)]
pub struct Taskmasterd {
    pub logfile: String,
    pub loglevel: LogLevel,
}

impl Taskmasterd {
    /// The settings before any is read: no log file, level `INFO`.
    pub fn default() -> (r: Self)
        ensures
            r.logfile@ == Seq::<char>::empty(),
            r.loglevel == LogLevel::INFO,
    {
        Taskmasterd { logfile: String::new(), loglevel: LogLevel::INFO }
    }

    /// The settings before any is read: no log file, level `INFO`.
    pub fn new() -> (r: Self)
        ensures
            r.logfile@ == Seq::<char>::empty(),
            r.loglevel == LogLevel::INFO,
    {
        Self::default()
    }
}

/// The keys that the daemon's section may hold.
#[derive(Debug, Clone, Copy, PartialEq, Eq, Structural)]
pub enum TaskmasterdSection {
    Logfile,
    Loglevel,
}

impl TaskmasterdSection {
    /// The key as it is written in a configuration.
    pub open spec fn key(self) -> Seq<char> {
        match self {
            TaskmasterdSection::Logfile => "logfile"@,
            TaskmasterdSection::Loglevel => "loglevel"@,
        }
    }

    /// The key that is written `t`, if there is one.
    pub open spec fn named(t: Seq<char>) -> Option<TaskmasterdSection> {
        if exists|k: TaskmasterdSection| k.key() == t {
            Some(choose|k: TaskmasterdSection| k.key() == t)
        } else {
            None
        }
    }

    /// The key as it is written in a configuration.
    pub fn as_str(&self) -> (r: &'static str)
        ensures
            r@ == self.key(),
    {
        match self {
            TaskmasterdSection::Logfile => "logfile",
            TaskmasterdSection::Loglevel => "loglevel",
        }
    }

    /// The key that is written `s`, if there is one.
    pub fn from_str(s: &str) -> (r: Option<Self>)
        ensures
            r == Self::named(s@),
    {
        if same_text(s, "logfile") {
            proof {
                lemma_daemon_key_named(TaskmasterdSection::Logfile);
            }
            Some(TaskmasterdSection::Logfile)
        } else if same_text(s, "loglevel") {
            proof {
                lemma_daemon_key_named(TaskmasterdSection::Loglevel);
            }
            Some(TaskmasterdSection::Loglevel)
        } else {
            assert forall|k: TaskmasterdSection| k.key() != s@ by {
                match k {
                    TaskmasterdSection::Logfile => {},
                    TaskmasterdSection::Loglevel => {},
                }
            }
            None
        }
    }
}

/// No two keys of the daemon's section are written alike.
pub proof fn lemma_daemon_keys_distinct(a: TaskmasterdSection, b: TaskmasterdSection)
    requires
        a.key() == b.key(),
    ensures
        a == b,
{
    reveal_strlit("logfile");
    reveal_strlit("loglevel");
    let x = a.key();
    let y = b.key();
    assert(x.len() == y.len());
    assert(x[0] == y[0]);
}

/// A key is the one that its own text names.
pub proof fn lemma_daemon_key_named(k: TaskmasterdSection)
    ensures
        TaskmasterdSection::named(k.key()) == Some(k),
{
    let found = choose|c: TaskmasterdSection| c.key() == k.key();
    lemma_daemon_keys_distinct(found, k);
}

} // verus!
