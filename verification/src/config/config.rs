//! The configuration as a whole: the programs by name and the daemon's own
//! settings.

use crate::config::logger::LogLevel;
use crate::config::program::{Program, ProgramView};
use crate::config::taskmasterd::Taskmasterd;
use crate::errors::{ConfigParseError, Fault};
use crate::text::same_text;
use vstd::prelude::*;

verus! {

/// The views of a list of programs.
pub open spec fn program_views(v: Seq<Program>) -> Seq<ProgramView> {
    Seq::new(v.len(), |i: int| v[i]@)
}

/// Whether one of `programs` is named `name`.
pub open spec fn holds(programs: Seq<ProgramView>, name: Seq<char>) -> bool {
    exists|i: int| 0 <= i < programs.len() && (#[trigger] programs[i]).programname == name
}

/// Whether `i` is the first place in `programs` of a program named `name`.
pub open spec fn first_named(programs: Seq<ProgramView>, name: Seq<char>, i: int) -> bool {
    &&& 0 <= i < programs.len()
    &&& programs[i].programname == name
    &&& forall|j: int| 0 <= j < i ==> (#[trigger] programs[j]).programname != name
}

/// The mathematical content of a [`Config`].
pub struct ConfigView {
    pub programs: Seq<ProgramView>,
    pub logfile: Seq<char>,
    pub loglevel: LogLevel,
}

impl ConfigView {
    /// The configuration before anything is read.
    pub open spec fn initial() -> ConfigView {
        ConfigView { programs: Seq::empty(), logfile: Seq::empty(), loglevel: LogLevel::INFO }
    }

    /// The invariant of a configuration: every program is well formed, and no
    /// two carry the same name.
    pub open spec fn wf(self) -> bool {
        &&& forall|i: int| 0 <= i < self.programs.len() ==> (#[trigger] self.programs[i]).wf()
        &&& forall|i: int, j: int|
            0 <= i < j < self.programs.len() ==> (#[trigger] self.programs[i]).programname != (
            #[trigger] self.programs[j]).programname
    }
}

/// The places where a configuration file is looked for, in this order.
pub open spec fn default_config_paths() -> Seq<Seq<char>> {
    seq!["./taskmaster.conf"@]
}

/// Asks `std::path::Path::is_file` whether `path` names a regular file. The
/// answer depends on the disk, so nothing is claimed of it.
#[verifier::external_body]
pub(crate) fn is_file(path: &str) -> (r: bool) {
    std::path::Path::new(path).is_file()
}

/// The configuration: the programs by name and the daemon's own settings.
#[derive(Debug)]
pub struct Config {
    programs: Vec<Program>,
    taskmasterd: Taskmasterd,
}

impl View for Config {
    type V = ConfigView;

    closed spec fn view(&self) -> ConfigView {
        ConfigView {
            programs: program_views(self.programs@),
            logfile: self.taskmasterd.logfile@,
            loglevel: self.taskmasterd.loglevel,
        }
    }
}

impl Config {
    /// The invariant of a configuration.
    pub open spec fn wf(&self) -> bool {
        self@.wf()
    }

    /// The configuration before anything is read.
    pub fn new() -> (r: Self)
        ensures
            r@ == ConfigView::initial(),
            r.wf(),
    {
        let r = Config { programs: Vec::new(), taskmasterd: Taskmasterd::new() };
        proof {
            assert(r@.programs =~= Seq::<ProgramView>::empty());
        }
        r
    }

    /// The program named `name`, if the configuration holds one.
    pub fn get_program(&self, name: &String) -> (r: Option<&Program>)
        ensures
            match r {
                Some(p) => exists|i: int|
                    first_named(self@.programs, name@, i) && #[trigger] self@.programs[i] == p@,
                None => !holds(self@.programs, name@),
            },
    {
        let mut i: usize = 0;
        while i < self.programs.len()
            invariant
                i <= self.programs@.len(),
                forall|j: int| 0 <= j < i ==> (#[trigger] self@.programs[j]).programname != name@,
            decreases self.programs@.len() - i,
        {
            if same_text(self.programs[i].programname().as_str(), name.as_str()) {
                proof {
                    assert(first_named(self@.programs, name@, i as int));
                    assert(self@.programs[i as int] == self.programs[i as int]@);
                }
                return Some(&self.programs[i]);
            }
            i += 1;
        }
        None
    }

    /// The program named `program`, if the configuration holds one.
    pub fn find_program(&self, program: &String) -> (r: Option<&Program>)
        ensures
            match r {
                Some(p) => exists|i: int|
                    first_named(self@.programs, program@, i) && #[trigger] self@.programs[i]
                        == p@,
                None => !holds(self@.programs, program@),
            },
    {
        self.get_program(program)
    }

    /// Whether the configuration holds a program named `name`.
    pub fn contains_program(&self, name: &String) -> (r: bool)
        ensures
            r == holds(self@.programs, name@),
    {
        self.get_program(name).is_some()
    }

    /// The programs, in the order in which they were added.
    pub fn programs(&self) -> (r: &Vec<Program>)
        ensures
            program_views(r@) == self@.programs,
    {
        &self.programs
    }

    /// The daemon's own settings.
    pub fn taskmasterd(&self) -> (r: &Taskmasterd)
        ensures
            r.logfile@ == self@.logfile,
            r.loglevel == self@.loglevel,
    {
        &self.taskmasterd
    }

    /// Adds a program under a name that is not taken.
    pub fn add_program(&mut self, program: Program)
        requires
            old(self).wf(),
            program@.wf(),
            !holds(old(self)@.programs, program@.programname),
        ensures
            final(self).wf(),
            final(self)@ == (ConfigView {
                programs: old(self)@.programs.push(program@),
                ..old(self)@
            }),
    {
        let ghost before = self@.programs;
        self.programs.push(program);
        proof {
            assert(self@.programs =~= before.push(program@));
            assert forall|i: int, j: int| 0 <= i < j < self@.programs.len() implies (
            #[trigger] self@.programs[i]).programname != (#[trigger] self@.programs[j]).programname by {
                if j == before.len() {
                    assert(before[i].programname != program@.programname);
                } else {
                    assert(self@.programs[i] == before[i]);
                    assert(self@.programs[j] == before[j]);
                }
            }
            assert forall|i: int| 0 <= i < self@.programs.len() implies (
            #[trigger] self@.programs[i]).wf() by {
                if i < before.len() {
                    assert(self@.programs[i] == before[i]);
                }
            }
        }
    }

    /// Sets the daemon's log file.
    pub fn set_logfile(&mut self, logfile: String)
        ensures
            final(self)@ == (ConfigView { logfile: logfile@, ..old(self)@ }),
    {
        self.taskmasterd.logfile = logfile;
    }

    /// Sets the daemon's log level.
    pub fn set_loglevel(&mut self, loglevel: LogLevel)
        ensures
            final(self)@ == (ConfigView { loglevel, ..old(self)@ }),
    {
        self.taskmasterd.loglevel = loglevel;
    }

    /// The first default path that `present` marks as an existing file;
    /// `present[i]` speaks of the path at place `i`, and a path without a mark
    /// counts as absent.
    pub fn select_config(present: &Vec<bool>) -> (r: Result<String, ConfigParseError>)
        ensures
            match r {
                Ok(path) => exists|i: int|
                    {
                        &&& 0 <= i < present@.len()
                        &&& i < default_config_paths().len()
                        &&& present@[i]
                        &&& #[trigger] default_config_paths()[i] == path@
                        &&& forall|j: int| 0 <= j < i ==> !present@[j]
                    },
                Err(e) => e@ == Fault::FileNotFound && forall|i: int|
                    0 <= i < present@.len() && i < default_config_paths().len() ==> !present@[i],
            },
    {
        if present.len() > 0 && present[0] {
            let path = "./taskmaster.conf".to_owned();
            assert(default_config_paths()[0] == path@);
            Ok(path)
        } else {
            Err(ConfigParseError::FileNotFound)
        }
    }

    /// Looks for a configuration file at the default paths and answers the
    /// first that exists. Which files exist is for the disk to say: the
    /// answer is one of the default paths, or that none was found.
    pub fn find_config() -> (r: Result<String, ConfigParseError>)
        ensures
            match r {
                Ok(path) => default_config_paths().contains(path@),
                Err(e) => e@ == Fault::FileNotFound,
            },
    {
        let mut present: Vec<bool> = Vec::new();
        present.push(is_file("./taskmaster.conf"));
        Self::select_config(&present)
    }
}

} // verus!
