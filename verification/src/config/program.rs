//! The description of one supervised program, its builder, and the keys of a
//! program section.

use crate::decimal::{decimal_digits, digits_value, lemma_decimal_round_trip, push_decimal};
use crate::errors::ProgramBuilderError;
use crate::text::{copy_texts, lemma_texts_push, push_char, same_text, texts};
use vstd::prelude::*;
use vstd::string::StringExecFns;

verus! {

/// When a process that has exited by itself is started again.
#[derive(Debug, PartialEq, Eq, Copy, Clone, Structural)]
pub enum AutoRestart {
    /// Only after an exit whose code is not among the expected ones.
    Unexpected,
    /// After every exit.
    True,
    /// Never.
    False,
}

/// The number of the termination signal, `SIGTERM`, as `signal_hook` exports
/// it from `libc`: 15.
#[verifier::external_body]
pub(crate) fn sigterm() -> (r: i32)
    ensures
        r == 15,
{
    signal_hook::consts::signal::SIGTERM
}

/// The name of the replica `index` of the program `program`: the program's
/// name, `#`, and the index in decimal.
pub open spec fn instance_name(program: Seq<char>, index: nat) -> Seq<char> {
    program.push('#') + decimal_digits(index)
}

/// The names of the first `count` replicas of `program`, by index.
pub open spec fn instance_names(program: Seq<char>, count: nat) -> Seq<Seq<char>> {
    Seq::new(count, |i: int| instance_name(program, i as nat))
}

/// Two replicas of one program with different indices have different names.
pub proof fn lemma_instance_names_distinct(program: Seq<char>, i: nat, j: nat)
    requires
        i != j,
    ensures
        instance_name(program, i) != instance_name(program, j),
{
    let a = instance_name(program, i);
    let b = instance_name(program, j);
    if a == b {
        let k = program.len() + 1;
        assert(a.skip(k as int) == decimal_digits(i));
        assert(b.skip(k as int) == decimal_digits(j));
        lemma_decimal_round_trip(i);
        lemma_decimal_round_trip(j);
        assert(digits_value(decimal_digits(i)) == digits_value(decimal_digits(j)));
    }
}

/// Builds the name of the replica `index` of `program`.
pub fn make_instance_name(program: &str, index: u8) -> (name: String)
    ensures
        name@ == instance_name(program@, index as nat),
{
    let mut name = program.to_owned();
    push_char(&mut name, '#');
    push_decimal(&mut name, index);
    name
}

/// The mathematical content of a [`Program`].
pub struct ProgramView {
    pub programname: Seq<char>,
    pub command: Seq<Seq<char>>,
    pub numprocs: u8,
    pub autostart: bool,
    pub autorestart: AutoRestart,
    pub exitcodes: Seq<i32>,
    pub startsecs: u8,
    pub startretries: u8,
    pub stopsignal: i32,
    pub stopwaitsecs: u32,
    pub stdout_logfile: Seq<char>,
    pub stderr_logfile: Seq<char>,
    pub environment: Option<Seq<Seq<char>>>,
    pub directory: Option<Seq<char>>,
    pub umask: Option<u16>,
    pub processnames: Seq<Seq<char>>,
}

impl ProgramView {
    /// The invariant of a program description: a command to run, at least one
    /// replica, at least one expected exit code, and one name per replica.
    pub open spec fn wf(self) -> bool {
        &&& self.command.len() > 0
        &&& self.numprocs >= 1
        &&& self.exitcodes.len() > 0
        &&& self.processnames == instance_names(self.programname, self.numprocs as nat)
    }

    /// Whether an exit with `code` counts as expected.
    pub open spec fn expects(self, code: i32) -> bool {
        self.exitcodes.contains(code)
    }
}

/// The view of an optional string.
pub open spec fn opt_text(s: Option<String>) -> Option<Seq<char>> {
    match s {
        Some(s) => Some(s@),
        None => None,
    }
}

/// The view of an optional list of strings.
pub open spec fn opt_texts(v: Option<Vec<String>>) -> Option<Seq<Seq<char>>> {
    match v {
        Some(v) => Some(texts(v@)),
        None => None,
    }
}

/// The view of an optional list of exit codes.
pub open spec fn opt_codes(v: Option<Vec<i32>>) -> Option<Seq<i32>> {
    match v {
        Some(v) => Some(v@),
        None => None,
    }
}

/// The program that a name, a command and the optional settings describe:
/// each setting that is absent takes its default.
pub open spec fn described(
    programname: Seq<char>,
    command: Seq<Seq<char>>,
    numprocs: Option<u8>,
    autostart: Option<bool>,
    autorestart: Option<AutoRestart>,
    exitcodes: Option<Seq<i32>>,
    startsecs: Option<u8>,
    startretries: Option<u8>,
    stopsignal: Option<i32>,
    stopwaitsecs: Option<u32>,
    stdout_logfile: Option<Seq<char>>,
    stderr_logfile: Option<Seq<char>>,
    environment: Option<Seq<Seq<char>>>,
    directory: Option<Seq<char>>,
    umask: Option<u16>,
) -> ProgramView {
    let count = match numprocs {
        Some(n) => n,
        None => 1u8,
    };
    ProgramView {
        programname,
        command,
        numprocs: count,
        autostart: match autostart {
            Some(b) => b,
            None => true,
        },
        autorestart: match autorestart {
            Some(a) => a,
            None => AutoRestart::Unexpected,
        },
        exitcodes: match exitcodes {
            Some(codes) => codes,
            None => seq![0i32],
        },
        startsecs: match startsecs {
            Some(n) => n,
            None => 1u8,
        },
        startretries: match startretries {
            Some(n) => n,
            None => 3u8,
        },
        stopsignal: match stopsignal {
            Some(n) => n,
            None => 15i32,
        },
        stopwaitsecs: match stopwaitsecs {
            Some(n) => n,
            None => 10u32,
        },
        stdout_logfile: match stdout_logfile {
            Some(path) => path,
            None => programname + ".log"@,
        },
        stderr_logfile: match stderr_logfile {
            Some(path) => path,
            None => programname + "_err.log"@,
        },
        environment,
        directory,
        umask,
        processnames: instance_names(programname, count as nat),
    }
}

/// The description of one supervised program. It does not change once built.
#[derive(Debug)]
pub struct Program {
    programname: String,
    command: Vec<String>,
    numprocs: u8,
    autostart: bool,
    autorestart: AutoRestart,
    exitcodes: Vec<i32>,
    startsecs: u8,
    startretries: u8,
    stopsignal: i32,
    stopwaitsecs: u32,
    stdout_logfile: String,
    stderr_logfile: String,
    enviroment: Option<Vec<String>>,
    directory: Option<String>,
    umask: Option<u16>,
    processnames: Vec<String>,
}

impl View for Program {
    type V = ProgramView;

    closed spec fn view(&self) -> ProgramView {
        ProgramView {
            programname: self.programname@,
            command: texts(self.command@),
            numprocs: self.numprocs,
            autostart: self.autostart,
            autorestart: self.autorestart,
            exitcodes: self.exitcodes@,
            startsecs: self.startsecs,
            startretries: self.startretries,
            stopsignal: self.stopsignal,
            stopwaitsecs: self.stopwaitsecs,
            stdout_logfile: self.stdout_logfile@,
            stderr_logfile: self.stderr_logfile@,
            environment: opt_texts(self.enviroment),
            directory: opt_text(self.directory),
            umask: self.umask,
            processnames: texts(self.processnames@),
        }
    }
}

/// Builds the names of the first `count` replicas of `program`.
pub fn make_instance_names(program: &str, count: u8) -> (names: Vec<String>)
    ensures
        texts(names@) == instance_names(program@, count as nat),
{
    let mut names: Vec<String> = Vec::new();
    let mut i: u8 = 0;
    while i < count
        invariant
            i <= count,
            texts(names@) == instance_names(program@, i as nat),
        decreases count - i,
    {
        let name = make_instance_name(program, i);
        proof {
            lemma_texts_push(names@, name);
        }
        names.push(name);
        i += 1;
        assert(texts(names@) =~= instance_names(program@, i as nat));
    }
    names
}

impl Program {
    /// Describes a program. Each setting that is `None` takes its default:
    /// one process, started automatically, restarted after an unexpected
    /// exit, exit code 0 expected, one second to count as started, three
    /// retries, `SIGTERM` to stop, ten seconds of grace, and log files named
    /// after the program.
    pub fn new(
        programname: String,
        command: Vec<String>,
        numprocs: Option<u8>,
        autostart: Option<bool>,
        autorestart: Option<AutoRestart>,
        exitcodes: Option<Vec<i32>>,
        startsecs: Option<u8>,
        startretries: Option<u8>,
        stopsignal: Option<i32>,
        stopwaitsecs: Option<u32>,
        stdout_logfile: Option<String>,
        stderr_logfile: Option<String>,
        environment: Option<Vec<String>>,
        directory: Option<String>,
        umask: Option<u16>,
    ) -> (r: Self)
        requires
            command@.len() > 0,
            numprocs != Some(0u8),
            exitcodes matches Some(codes) ==> codes@.len() > 0,
        ensures
            r@ == described(
                programname@,
                texts(command@),
                numprocs,
                autostart,
                autorestart,
                opt_codes(exitcodes),
                startsecs,
                startretries,
                stopsignal,
                stopwaitsecs,
                opt_text(stdout_logfile),
                opt_text(stderr_logfile),
                opt_texts(environment),
                opt_text(directory),
                umask,
            ),
            r@.wf(),
    {
        let count: u8 = match numprocs {
            Some(n) => n,
            None => 1,
        };
        let processnames = make_instance_names(programname.as_str(), count);
        let stdout_logfile = match stdout_logfile {
            Some(path) => path,
            None => programname.clone().concat(".log"),
        };
        let stderr_logfile = match stderr_logfile {
            Some(path) => path,
            None => programname.clone().concat("_err.log"),
        };
        let exitcodes = match exitcodes {
            Some(codes) => codes,
            None => {
                let mut codes: Vec<i32> = Vec::new();
                codes.push(0);
                assert(codes@ == seq![0i32]);
                codes
            },
        };
        Program {
            programname,
            command,
            numprocs: count,
            autostart: match autostart {
                Some(b) => b,
                None => true,
            },
            autorestart: match autorestart {
                Some(a) => a,
                None => AutoRestart::Unexpected,
            },
            exitcodes,
            startsecs: match startsecs {
                Some(n) => n,
                None => 1,
            },
            startretries: match startretries {
                Some(n) => n,
                None => 3,
            },
            stopsignal: match stopsignal {
                Some(n) => n,
                None => sigterm(),
            },
            stopwaitsecs: match stopwaitsecs {
                Some(n) => n,
                None => 10,
            },
            stdout_logfile,
            stderr_logfile,
            enviroment: environment,
            directory,
            umask,
            processnames,
        }
    }

    /// A copy of this description.
    pub fn duplicate(&self) -> (r: Self)
        ensures
            r@ == self@,
    {
        Program {
            programname: self.programname.clone(),
            command: copy_texts(&self.command),
            numprocs: self.numprocs,
            autostart: self.autostart,
            autorestart: self.autorestart,
            exitcodes: crate::exec::process::copy_codes(&self.exitcodes),
            startsecs: self.startsecs,
            startretries: self.startretries,
            stopsignal: self.stopsignal,
            stopwaitsecs: self.stopwaitsecs,
            stdout_logfile: self.stdout_logfile.clone(),
            stderr_logfile: self.stderr_logfile.clone(),
            enviroment: match &self.enviroment {
                Some(entries) => Some(copy_texts(entries)),
                None => None,
            },
            directory: match &self.directory {
                Some(path) => Some(path.clone()),
                None => None,
            },
            umask: self.umask,
            processnames: copy_texts(&self.processnames),
        }
    }

    /// A builder with nothing set.
    pub fn builder() -> (r: ProgramBuilder)
        ensures
            r == ProgramBuilder::empty(),
    {
        ProgramBuilder::new()
    }

    /// The unique name of the program.
    pub fn programname(&self) -> (r: &String)
        ensures
            r@ == self@.programname,
    {
        &self.programname
    }

    /// The command line, word by word.
    pub fn command(&self) -> (r: &Vec<String>)
        ensures
            texts(r@) == self@.command,
    {
        &self.command
    }

    /// The number of processes to run.
    pub fn numprocs(&self) -> (r: u8)
        ensures
            r == self@.numprocs,
    {
        self.numprocs
    }

    /// Whether the program starts with the daemon.
    pub fn autostart(&self) -> (r: bool)
        ensures
            r == self@.autostart,
    {
        self.autostart
    }

    /// When the program is started again after an exit.
    pub fn autorestart(&self) -> (r: AutoRestart)
        ensures
            r == self@.autorestart,
    {
        self.autorestart
    }

    /// The exit codes that count as expected.
    pub fn exitcodes(&self) -> (r: &Vec<i32>)
        ensures
            r@ == self@.exitcodes,
    {
        &self.exitcodes
    }

    /// The seconds a process must stay up to count as started.
    pub fn startsecs(&self) -> (r: u8)
        ensures
            r == self@.startsecs,
    {
        self.startsecs
    }

    /// The number of failed starts after which the daemon gives up.
    pub fn startretries(&self) -> (r: u8)
        ensures
            r == self@.startretries,
    {
        self.startretries
    }

    /// The signal that asks a process to stop.
    pub fn stopsignal(&self) -> (r: i32)
        ensures
            r == self@.stopsignal,
    {
        self.stopsignal
    }

    /// The seconds of grace before a process is killed.
    pub fn stopwaitsecs(&self) -> (r: u32)
        ensures
            r == self@.stopwaitsecs,
    {
        self.stopwaitsecs
    }

    /// The file that receives standard output.
    pub fn stdout_logfile(&self) -> (r: &String)
        ensures
            r@ == self@.stdout_logfile,
    {
        &self.stdout_logfile
    }

    /// The file that receives standard error.
    pub fn stderr_logfile(&self) -> (r: &String)
        ensures
            r@ == self@.stderr_logfile,
    {
        &self.stderr_logfile
    }

    /// The environment entries, if any were given.
    pub fn environment(&self) -> (r: &Option<Vec<String>>)
        ensures
            opt_texts(*r) == self@.environment,
    {
        &self.enviroment
    }

    /// The working directory, if one was given.
    pub fn directory(&self) -> (r: &Option<String>)
        ensures
            opt_text(*r) == self@.directory,
    {
        &self.directory
    }

    /// The file mode creation mask, if one was given.
    pub fn umask(&self) -> (r: Option<u16>)
        ensures
            r == self@.umask,
    {
        self.umask
    }

    /// The names of the replicas, by index.
    pub fn processnames(&self) -> (r: &Vec<String>)
        ensures
            texts(r@) == self@.processnames,
    {
        &self.processnames
    }

    /// Whether an exit with `code` counts as expected.
    pub fn expects(&self, code: i32) -> (r: bool)
        ensures
            r == self@.expects(code),
    {
        let mut i: usize = 0;
        while i < self.exitcodes.len()
            invariant
                i <= self.exitcodes@.len(),
                forall|k: int| 0 <= k < i ==> self.exitcodes@[k] != code,
            decreases self.exitcodes@.len() - i,
        {
            if self.exitcodes[i] == code {
                return true;
            }
            i += 1;
        }
        false
    }
}

/// The mathematical content of a [`ProgramBuilder`]: what has been set.
pub struct Settings {
    pub programname: Option<Seq<char>>,
    pub command: Option<Seq<Seq<char>>>,
    pub numprocs: Option<u8>,
    pub autostart: Option<bool>,
    pub autorestart: Option<AutoRestart>,
    pub exitcodes: Option<Seq<i32>>,
    pub startsecs: Option<u8>,
    pub startretries: Option<u8>,
    pub stopsignal: Option<i32>,
    pub stopwaitsecs: Option<u32>,
    pub stdout_logfile: Option<Seq<char>>,
    pub stderr_logfile: Option<Seq<char>>,
    pub environment: Option<Seq<Seq<char>>>,
    pub directory: Option<Seq<char>>,
    pub umask: Option<u16>,
}

impl Settings {
    /// Nothing set.
    pub open spec fn empty() -> Settings {
        Settings {
            programname: None,
            command: None,
            numprocs: None,
            autostart: None,
            autorestart: None,
            exitcodes: None,
            startsecs: None,
            startretries: None,
            stopsignal: None,
            stopwaitsecs: None,
            stdout_logfile: None,
            stderr_logfile: None,
            environment: None,
            directory: None,
            umask: None,
        }
    }

    /// What building from these settings answers: the first requirement
    /// that is not met, or the program described.
    pub open spec fn outcome(self) -> Result<ProgramView, ProgramBuilderError> {
        if self.programname is None {
            Err(ProgramBuilderError::MissingProgramName)
        } else if self.command is None || self.command.unwrap().len() == 0 {
            Err(ProgramBuilderError::MissingCommand)
        } else if self.numprocs == Some(0u8) {
            Err(ProgramBuilderError::InvalidNumProcs)
        } else if self.exitcodes is Some && self.exitcodes.unwrap().len() == 0 {
            Err(ProgramBuilderError::MissingExitCodes)
        } else {
            Ok(
                described(
                    self.programname.unwrap(),
                    self.command.unwrap(),
                    self.numprocs,
                    self.autostart,
                    self.autorestart,
                    self.exitcodes,
                    self.startsecs,
                    self.startretries,
                    self.stopsignal,
                    self.stopwaitsecs,
                    self.stdout_logfile,
                    self.stderr_logfile,
                    self.environment,
                    self.directory,
                    self.umask,
                ),
            )
        }
    }
}

impl View for ProgramBuilder {
    type V = Settings;

    open spec fn view(&self) -> Settings {
        Settings {
            programname: opt_text(self.programname),
            command: opt_texts(self.command),
            numprocs: self.numprocs,
            autostart: self.autostart,
            autorestart: self.autorestart,
            exitcodes: opt_codes(self.exitcodes),
            startsecs: self.startsecs,
            startretries: self.startretries,
            stopsignal: self.stopsignal,
            stopwaitsecs: self.stopwaitsecs,
            stdout_logfile: opt_text(self.stdout_logfile),
            stderr_logfile: opt_text(self.stderr_logfile),
            environment: opt_texts(self.environment),
            directory: opt_text(self.directory),
            umask: self.umask,
        }
    }
}

/// Collects the settings of a program one by one.
#[derive(Debug)]
pub struct ProgramBuilder {
    pub programname: Option<String>,
    pub command: Option<Vec<String>>,
    pub numprocs: Option<u8>,
    pub autostart: Option<bool>,
    pub autorestart: Option<AutoRestart>,
    pub exitcodes: Option<Vec<i32>>,
    pub startsecs: Option<u8>,
    pub startretries: Option<u8>,
    pub stopsignal: Option<i32>,
    pub stopwaitsecs: Option<u32>,
    pub stdout_logfile: Option<String>,
    pub stderr_logfile: Option<String>,
    pub environment: Option<Vec<String>>,
    pub directory: Option<String>,
    pub umask: Option<u16>,
}

impl ProgramBuilder {
    /// The builder with nothing set.
    pub open spec fn empty() -> ProgramBuilder {
        ProgramBuilder {
            programname: None,
            command: None,
            numprocs: None,
            autostart: None,
            autorestart: None,
            exitcodes: None,
            startsecs: None,
            startretries: None,
            stopsignal: None,
            stopwaitsecs: None,
            stdout_logfile: None,
            stderr_logfile: None,
            environment: None,
            directory: None,
            umask: None,
        }
    }

    /// A builder with nothing set.
    pub fn new() -> (r: Self)
        ensures
            r == ProgramBuilder::empty(),
    {
        ProgramBuilder {
            programname: None,
            command: None,
            numprocs: None,
            autostart: None,
            autorestart: None,
            exitcodes: None,
            startsecs: None,
            startretries: None,
            stopsignal: None,
            stopwaitsecs: None,
            stdout_logfile: None,
            stderr_logfile: None,
            environment: None,
            directory: None,
            umask: None,
        }
    }

    /// Sets the program's name.
    pub fn programname(self: &mut Self, programname: String) -> (r: &mut Self)
        ensures
            *r == (ProgramBuilder { programname: Some(programname), ..*old(self) }),
            *final(self) == *final(r),
    {
        self.programname = Some(programname);
        self
    }

    /// Sets the command line, word by word.
    pub fn command(self: &mut Self, command: Vec<String>) -> (r: &mut Self)
        ensures
            *r == (ProgramBuilder { command: Some(command), ..*old(self) }),
            *final(self) == *final(r),
    {
        self.command = Some(command);
        self
    }

    /// Sets the number of processes.
    pub fn numprocs(self: &mut Self, numprocs: u8) -> (r: &mut Self)
        ensures
            *r == (ProgramBuilder { numprocs: Some(numprocs), ..*old(self) }),
            *final(self) == *final(r),
    {
        self.numprocs = Some(numprocs);
        self
    }

    /// Sets whether the program starts with the daemon.
    pub fn autostart(self: &mut Self, autostart: bool) -> (r: &mut Self)
        ensures
            *r == (ProgramBuilder { autostart: Some(autostart), ..*old(self) }),
            *final(self) == *final(r),
    {
        self.autostart = Some(autostart);
        self
    }

    /// Sets when the program is started again after an exit.
    pub fn autorestart(self: &mut Self, autorestart: AutoRestart) -> (r: &mut Self)
        ensures
            *r == (ProgramBuilder { autorestart: Some(autorestart), ..*old(self) }),
            *final(self) == *final(r),
    {
        self.autorestart = Some(autorestart);
        self
    }

    /// Sets the exit codes that count as expected.
    pub fn exitcodes(self: &mut Self, exitcodes: Vec<i32>) -> (r: &mut Self)
        ensures
            *r == (ProgramBuilder { exitcodes: Some(exitcodes), ..*old(self) }),
            *final(self) == *final(r),
    {
        self.exitcodes = Some(exitcodes);
        self
    }

    /// Sets the seconds a process must stay up to count as started.
    pub fn startsecs(self: &mut Self, startsecs: u8) -> (r: &mut Self)
        ensures
            *r == (ProgramBuilder { startsecs: Some(startsecs), ..*old(self) }),
            *final(self) == *final(r),
    {
        self.startsecs = Some(startsecs);
        self
    }

    /// Sets the number of failed starts after which the daemon gives up.
    pub fn startretries(self: &mut Self, startretries: u8) -> (r: &mut Self)
        ensures
            *r == (ProgramBuilder { startretries: Some(startretries), ..*old(self) }),
            *final(self) == *final(r),
    {
        self.startretries = Some(startretries);
        self
    }

    /// Sets the signal that asks a process to stop.
    pub fn stopsignal(self: &mut Self, stopsignal: i32) -> (r: &mut Self)
        ensures
            *r == (ProgramBuilder { stopsignal: Some(stopsignal), ..*old(self) }),
            *final(self) == *final(r),
    {
        self.stopsignal = Some(stopsignal);
        self
    }

    /// Sets the seconds of grace before a process is killed.
    pub fn stopwaitsecs(self: &mut Self, stopwaitsecs: u32) -> (r: &mut Self)
        ensures
            *r == (ProgramBuilder { stopwaitsecs: Some(stopwaitsecs), ..*old(self) }),
            *final(self) == *final(r),
    {
        self.stopwaitsecs = Some(stopwaitsecs);
        self
    }

    /// Sets the file that receives standard output.
    pub fn stdout_logfile(self: &mut Self, stdout_logfile: String) -> (r: &mut Self)
        ensures
            *r == (ProgramBuilder { stdout_logfile: Some(stdout_logfile), ..*old(self) }),
            *final(self) == *final(r),
    {
        self.stdout_logfile = Some(stdout_logfile);
        self
    }

    /// Sets the file that receives standard error.
    pub fn stderr_logfile(self: &mut Self, stderr_logfile: String) -> (r: &mut Self)
        ensures
            *r == (ProgramBuilder { stderr_logfile: Some(stderr_logfile), ..*old(self) }),
            *final(self) == *final(r),
    {
        self.stderr_logfile = Some(stderr_logfile);
        self
    }

    /// Sets the environment entries, each `KEY=value`.
    pub fn environment(self: &mut Self, environment: Vec<String>) -> (r: &mut Self)
        ensures
            *r == (ProgramBuilder { environment: Some(environment), ..*old(self) }),
            *final(self) == *final(r),
    {
        self.environment = Some(environment);
        self
    }

    /// Sets the working directory.
    pub fn directory(self: &mut Self, directory: String) -> (r: &mut Self)
        ensures
            *r == (ProgramBuilder { directory: Some(directory), ..*old(self) }),
            *final(self) == *final(r),
    {
        self.directory = Some(directory);
        self
    }

    /// Sets the file mode creation mask.
    pub fn umask(self: &mut Self, umask: u16) -> (r: &mut Self)
        ensures
            *r == (ProgramBuilder { umask: Some(umask), ..*old(self) }),
            *final(self) == *final(r),
    {
        self.umask = Some(umask);
        self
    }

    /// Completes the description. A name and a non-empty command are
    /// required; the number of processes, if set, is at least one, and the
    /// expected exit codes, if set, are not empty.
    pub fn build(self) -> (r: Result<Program, ProgramBuilderError>)
        ensures
            match self@.outcome() {
                Ok(view) => r matches Ok(p) && p@ == view && view.wf(),
                Err(e) => r matches Err(f) && f == e,
            },
    {
        let programname = match self.programname {
            Some(name) => name,
            None => {
                return Err(ProgramBuilderError::MissingProgramName);
            },
        };
        let command = match self.command {
            Some(command) => command,
            None => {
                return Err(ProgramBuilderError::MissingCommand);
            },
        };
        if command.len() == 0 {
            return Err(ProgramBuilderError::MissingCommand);
        }
        match self.numprocs {
            Some(n) => {
                if n == 0 {
                    return Err(ProgramBuilderError::InvalidNumProcs);
                }
            },
            None => {},
        }
        match &self.exitcodes {
            Some(codes) => {
                if codes.len() == 0 {
                    return Err(ProgramBuilderError::MissingExitCodes);
                }
            },
            None => {},
        }
        Ok(
            Program::new(
                programname,
                command,
                self.numprocs,
                self.autostart,
                self.autorestart,
                self.exitcodes,
                self.startsecs,
                self.startretries,
                self.stopsignal,
                self.stopwaitsecs,
                self.stdout_logfile,
                self.stderr_logfile,
                self.environment,
                self.directory,
                self.umask,
            ),
        )
    }
}

/// The keys that a program section may hold.
#[derive(Debug, Clone, Copy, PartialEq, Eq, Structural)]
pub enum ProgramSection {
    Command,
    NumProcs,
    AutoStart,
    AutoRestart,
    ExitCodes,
    StartSecs,
    StartRetries,
    StopSignal,
    StopWaitSecs,
    StdoutLogfile,
    StderrLogfile,
    Environment,
    Directory,
    Umask,
}

impl ProgramSection {
    /// The key as it is written in a configuration: the one table that
    /// relates keys and their text.
    pub open spec fn key(self) -> Seq<char> {
        match self {
            ProgramSection::Command => "command"@,
            ProgramSection::NumProcs => "numprocs"@,
            ProgramSection::AutoStart => "autostart"@,
            ProgramSection::AutoRestart => "autorestart"@,
            ProgramSection::ExitCodes => "exitcodes"@,
            ProgramSection::StartSecs => "startsecs"@,
            ProgramSection::StartRetries => "startretries"@,
            ProgramSection::StopSignal => "stopsignal"@,
            ProgramSection::StopWaitSecs => "stopwaitsecs"@,
            ProgramSection::StdoutLogfile => "stdout_logfile"@,
            ProgramSection::StderrLogfile => "stderr_logfile"@,
            ProgramSection::Environment => "environment"@,
            ProgramSection::Directory => "directory"@,
            ProgramSection::Umask => "umask"@,
        }
    }

    /// The key as it is written in a configuration.
    pub fn as_str(&self) -> (r: &'static str)
        ensures
            r@ == self.key(),
    {
        match self {
            ProgramSection::Command => "command",
            ProgramSection::NumProcs => "numprocs",
            ProgramSection::AutoStart => "autostart",
            ProgramSection::AutoRestart => "autorestart",
            ProgramSection::ExitCodes => "exitcodes",
            ProgramSection::StartSecs => "startsecs",
            ProgramSection::StartRetries => "startretries",
            ProgramSection::StopSignal => "stopsignal",
            ProgramSection::StopWaitSecs => "stopwaitsecs",
            ProgramSection::StdoutLogfile => "stdout_logfile",
            ProgramSection::StderrLogfile => "stderr_logfile",
            ProgramSection::Environment => "environment",
            ProgramSection::Directory => "directory",
            ProgramSection::Umask => "umask",
        }
    }

    /// The key that is written `t`, if there is one.
    pub open spec fn named(t: Seq<char>) -> Option<ProgramSection> {
        if exists|k: ProgramSection| k.key() == t {
            Some(choose|k: ProgramSection| k.key() == t)
        } else {
            None
        }
    }

    /// The key that is written `s`, if there is one.
    pub fn from_str(s: &str) -> (r: Option<Self>)
        ensures
            r == Self::named(s@),
    {
        let r = Self::lookup(s);
        proof {
            if r is Some {
                lemma_program_key_named(r.unwrap());
            }
        }
        r
    }

    fn lookup(s: &str) -> (r: Option<Self>)
        ensures
            match r {
                Some(k) => k.key() == s@,
                None => forall|k: ProgramSection| k.key() != s@,
            },
    {
        if same_text(s, "command") {
            Some(ProgramSection::Command)
        } else if same_text(s, "numprocs") {
            Some(ProgramSection::NumProcs)
        } else if same_text(s, "autostart") {
            Some(ProgramSection::AutoStart)
        } else if same_text(s, "autorestart") {
            Some(ProgramSection::AutoRestart)
        } else if same_text(s, "exitcodes") {
            Some(ProgramSection::ExitCodes)
        } else if same_text(s, "startsecs") {
            Some(ProgramSection::StartSecs)
        } else if same_text(s, "startretries") {
            Some(ProgramSection::StartRetries)
        } else if same_text(s, "stopsignal") {
            Some(ProgramSection::StopSignal)
        } else if same_text(s, "stopwaitsecs") {
            Some(ProgramSection::StopWaitSecs)
        } else if same_text(s, "stdout_logfile") {
            Some(ProgramSection::StdoutLogfile)
        } else if same_text(s, "stderr_logfile") {
            Some(ProgramSection::StderrLogfile)
        } else if same_text(s, "environment") {
            Some(ProgramSection::Environment)
        } else if same_text(s, "directory") {
            Some(ProgramSection::Directory)
        } else if same_text(s, "umask") {
            Some(ProgramSection::Umask)
        } else {
            assert forall|k: ProgramSection| k.key() != s@ by {
                match k {
                    ProgramSection::Command => {},
                    ProgramSection::NumProcs => {},
                    ProgramSection::AutoStart => {},
                    ProgramSection::AutoRestart => {},
                    ProgramSection::ExitCodes => {},
                    ProgramSection::StartSecs => {},
                    ProgramSection::StartRetries => {},
                    ProgramSection::StopSignal => {},
                    ProgramSection::StopWaitSecs => {},
                    ProgramSection::StdoutLogfile => {},
                    ProgramSection::StderrLogfile => {},
                    ProgramSection::Environment => {},
                    ProgramSection::Directory => {},
                    ProgramSection::Umask => {},
                }
            }
            None
        }
    }
}

/// A key is the one that its own text names.
pub proof fn lemma_program_key_named(k: ProgramSection)
    ensures
        ProgramSection::named(k.key()) == Some(k),
{
    let found = choose|c: ProgramSection| c.key() == k.key();
    lemma_program_keys_distinct(found, k);
}

/// No two keys of a program section are written alike.
pub proof fn lemma_program_keys_distinct(a: ProgramSection, b: ProgramSection)
    requires
        a.key() == b.key(),
    ensures
        a == b,
{
    reveal_strlit("command");
    reveal_strlit("numprocs");
    reveal_strlit("autostart");
    reveal_strlit("autorestart");
    reveal_strlit("exitcodes");
    reveal_strlit("startsecs");
    reveal_strlit("startretries");
    reveal_strlit("stopsignal");
    reveal_strlit("stopwaitsecs");
    reveal_strlit("stdout_logfile");
    reveal_strlit("stderr_logfile");
    reveal_strlit("environment");
    reveal_strlit("directory");
    reveal_strlit("umask");
    let x = a.key();
    let y = b.key();
    assert(x.len() == y.len());
    assert(x[0] == y[0]);
    assert(x.len() > 5 ==> x[5] == y[5]);
    assert(x.len() > 3 ==> x[3] == y[3]);
}

} // verus!
