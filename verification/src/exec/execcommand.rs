//! The entry point for a command line against a configuration.

use crate::commandline::{CommandLine, CommandLineView};
use crate::config::config::{holds, Config};
use crate::errors::ExecError;
use crate::exec::process::{status_of, Directive, Event, Status};
use crate::exec::process_group::GroupView;
use crate::exec::process_manager::{command_done, group_at, ProcessManager};
use crate::text::{same_text, texts};
use vstd::prelude::*;

verus! {

/// Checks a command line against the configuration: its arguments name
/// programs that the configuration holds, and there is at least one.
pub fn exec(command: CommandLine, config: &Config) -> (r: Result<(), ExecError>)
    ensures
        r == if command@.args.len() == 0 {
            Err::<(), ExecError>(ExecError::InvalidArgs)
        } else if exists|i: int|
            0 <= i < command@.args.len() && !holds(config@.programs, #[trigger] command@.args[i]) {
            Err(ExecError::ProcessNameNotFound)
        } else {
            Ok(())
        },
{
    let args = command.get_args();
    proof {
        assert forall|i: int| 0 <= i < args@.len() implies #[trigger] args@[i]@
            == command@.args[i] by {
            assert(crate::text::texts(args@)[i] == args@[i]@);
        }
        if exists|i: int| 0 <= i < args@.len() && !holds(config@.programs, #[trigger] args@[i]@) {
            let i = choose|i: int|
                0 <= i < args@.len() && !holds(config@.programs, #[trigger] args@[i]@);
            assert(!holds(config@.programs, command@.args[i]));
        }
        if exists|i: int|
            0 <= i < command@.args.len() && !holds(config@.programs, #[trigger] command@.args[i]) {
            let i = choose|i: int|
                0 <= i < command@.args.len() && !holds(
                    config@.programs,
                    #[trigger] command@.args[i],
                );
            assert(!holds(config@.programs, args@[i]@));
        }
    }
    crate::exec::commands::add(args, config)
}

/// The commands of the operator.
#[derive(Debug, Clone, Copy, PartialEq, Eq, Structural)]
pub enum Verb {
    Start,
    Stop,
    Restart,
    Status,
    Reload,
}

impl Verb {
    /// The command as the operator writes it.
    pub open spec fn key(self) -> Seq<char> {
        match self {
            Verb::Start => "start"@,
            Verb::Stop => "stop"@,
            Verb::Restart => "restart"@,
            Verb::Status => "status"@,
            Verb::Reload => "reload"@,
        }
    }

    /// The command that is written `t`, if there is one.
    pub open spec fn named(t: Seq<char>) -> Option<Verb> {
        if exists|v: Verb| v.key() == t {
            Some(choose|v: Verb| v.key() == t)
        } else {
            None
        }
    }

    /// The command as the operator writes it.
    pub fn as_str(&self) -> (r: &'static str)
        ensures
            r@ == self.key(),
    {
        match self {
            Verb::Start => "start",
            Verb::Stop => "stop",
            Verb::Restart => "restart",
            Verb::Status => "status",
            Verb::Reload => "reload",
        }
    }

    /// The command that is written `s`, if there is one.
    pub fn from_str(s: &str) -> (r: Option<Self>)
        ensures
            r == Self::named(s@),
    {
        let r = if same_text(s, "start") {
            Some(Verb::Start)
        } else if same_text(s, "stop") {
            Some(Verb::Stop)
        } else if same_text(s, "restart") {
            Some(Verb::Restart)
        } else if same_text(s, "status") {
            Some(Verb::Status)
        } else if same_text(s, "reload") {
            Some(Verb::Reload)
        } else {
            None
        };
        proof {
            match r {
                Some(v) => {
                    lemma_verb_named(v);
                },
                None => {
                    assert forall|v: Verb| v.key() != s@ by {
                        match v {
                            Verb::Start => {},
                            Verb::Stop => {},
                            Verb::Restart => {},
                            Verb::Status => {},
                            Verb::Reload => {},
                        }
                    }
                },
            }
        }
        r
    }
}

/// No two commands are written alike.
pub proof fn lemma_verbs_distinct(a: Verb, b: Verb)
    requires
        a.key() == b.key(),
    ensures
        a == b,
{
    reveal_strlit("start");
    reveal_strlit("stop");
    reveal_strlit("restart");
    reveal_strlit("status");
    reveal_strlit("reload");
    assert("start"@.len() == 5);
    assert("stop"@.len() == 4);
    assert("restart"@.len() == 7);
    assert("status"@.len() == 6 && "status"@[0] == 's');
    assert("reload"@.len() == 6 && "reload"@[0] == 'r');
}

/// A command is the one that its own text names.
pub proof fn lemma_verb_named(v: Verb)
    ensures
        Verb::named(v.key()) == Some(v),
{
    let found = choose|c: Verb| c.key() == v.key();
    lemma_verbs_distinct(found, v);
}

/// What a command answers.
#[derive(Debug)]
pub enum Reply {
    /// What the driver has to do for each replica of the program, by index.
    Steps(Vec<Directive>),
    /// The report on each replica of the program, by index.
    Report(Vec<Status>),
    /// The report on every instance, by group and index.
    ReportAll(Vec<Vec<Status>>),
    /// The configuration is to be read again and handed to a reload.
    Reload,
}

/// Whether `list` reports on the instances of `group`, by index.
pub open spec fn reports_on(list: Seq<Status>, group: GroupView) -> bool {
    &&& list.len() == group.processes.len()
    &&& forall|k: int| 0 <= k < list.len() ==> (#[trigger] list[k])@ == status_of(group.processes[k])
}

/// What `run` does for a command line. `start`, `stop` and `restart` take
/// the name of a program and go to its replicas; `status` reports on the
/// program that it names, or on all without a name; `reload` asks the driver
/// to read the configuration again. An unknown command is refused as
/// invalid, a wrong number of arguments as an invalid length, and a name
/// without a program as not found; a refusal changes nothing.
pub open spec fn ran(
    before: Seq<GroupView>,
    after: Seq<GroupView>,
    command: CommandLineView,
    now: u64,
    r: Result<Reply, ExecError>,
) -> bool {
    match Verb::named(command.command) {
        None => r == Err::<Reply, ExecError>(ExecError::InvalidArgs) && after == before,
        Some(Verb::Reload) => if command.args.len() == 0 {
            r matches Ok(Reply::Reload) && after == before
        } else {
            r == Err::<Reply, ExecError>(ExecError::InvalidLength) && after == before
        },
        Some(Verb::Status) => if command.args.len() == 0 {
            &&& after == before
            &&& r matches Ok(Reply::ReportAll(lists))
            &&& lists@.len() == before.len()
            &&& forall|g: int| 0 <= g < lists@.len() ==> reports_on((#[trigger] lists@[g])@, before[g])
        } else if command.args.len() == 1 {
            &&& after == before
            &&& match r {
                Ok(Reply::Report(list)) => exists|i: int|
                    #[trigger] group_at(before, command.args[0], i) && !before[i].removed
                        && reports_on(list@, before[i]),
                Ok(_) => false,
                Err(e) => e == ExecError::ProcessNameNotFound && forall|i: int|
                    group_at(before, command.args[0], i) ==> before[i].removed,
            }
        } else {
            r == Err::<Reply, ExecError>(ExecError::InvalidLength) && after == before
        },
        Some(verb) => if command.args.len() == 1 {
            let event = match verb {
                Verb::Start => Event::Start,
                Verb::Stop => Event::Stop,
                _ => Event::Restart,
            };
            match r {
                Ok(Reply::Steps(ds)) => command_done(
                    before,
                    after,
                    command.args[0],
                    event,
                    now,
                    Ok(ds),
                ),
                Ok(_) => false,
                Err(e) => command_done(before, after, command.args[0], event, now, Err(e)),
            }
        } else {
            r == Err::<Reply, ExecError>(ExecError::InvalidLength) && after == before
        },
    }
}

/// Carries out a command line of the operator against the engine.
pub fn run(command: &CommandLine, manager: &mut ProcessManager, now: u64) -> (r: Result<
    Reply,
    ExecError,
>)
    requires
        old(manager).wf(),
    ensures
        final(manager).wf(),
        ran(old(manager)@, final(manager)@, command@, now, r),
{
    let verb = match Verb::from_str(command.get_command().as_str()) {
        Some(verb) => verb,
        None => {
            return Err(ExecError::InvalidArgs);
        },
    };
    let args = command.get_args();
    proof {
        assert(texts(args@).len() == args@.len());
        if args@.len() > 0 {
            assert(texts(args@)[0] == args@[0]@);
        }
    }
    match verb {
        Verb::Reload => {
            if args.len() == 0 {
                Ok(Reply::Reload)
            } else {
                Err(ExecError::InvalidLength)
            }
        },
        Verb::Status => {
            if args.len() == 0 {
                Ok(Reply::ReportAll(manager.status_all()))
            } else if args.len() == 1 {
                match manager.status(args[0].as_str()) {
                    Ok(list) => Ok(Reply::Report(list)),
                    Err(e) => Err(e),
                }
            } else {
                Err(ExecError::InvalidLength)
            }
        },
        Verb::Start => {
            if args.len() != 1 {
                return Err(ExecError::InvalidLength);
            }
            match manager.start(args[0].as_str(), now) {
                Ok(ds) => Ok(Reply::Steps(ds)),
                Err(e) => Err(e),
            }
        },
        Verb::Stop => {
            if args.len() != 1 {
                return Err(ExecError::InvalidLength);
            }
            match manager.stop(args[0].as_str(), now) {
                Ok(ds) => Ok(Reply::Steps(ds)),
                Err(e) => Err(e),
            }
        },
        Verb::Restart => {
            if args.len() != 1 {
                return Err(ExecError::InvalidLength);
            }
            match manager.restart(args[0].as_str(), now) {
                Ok(ds) => Ok(Reply::Steps(ds)),
                Err(e) => Err(e),
            }
        },
    }
}

} // verus!
