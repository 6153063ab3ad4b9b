use taskmaster::commandline::CommandLine;
use taskmaster::config::config::Config;
use taskmaster::config::program::{AutoRestart, Program};
use taskmaster::errors::{CommandLineError, ExecError};
use taskmaster::exec::commands;
use taskmaster::exec::execcommand::{exec, run, Reply, Verb};
use taskmaster::exec::process::{
    no_directive, Directive, Event, ExitStatus, ProcessState, Signal, Timer, TimerKind,
};
use taskmaster::exec::process_group::ProcessGroup;
use taskmaster::exec::process_manager::ProcessManager;

fn spec(name: &str, numprocs: u8, autostart: bool) -> Program {
    let mut b = Program::builder();
    b.programname(name.to_string())
        .command(vec!["sleep".to_string(), "100".to_string()])
        .numprocs(numprocs)
        .autostart(autostart)
        .autorestart(AutoRestart::Unexpected)
        .exitcodes(vec![0])
        .startsecs(1)
        .startretries(3)
        .stopsignal(15)
        .stopwaitsecs(5);
    b.build().unwrap()
}

fn spawn_only() -> Directive {
    Directive { spawn: true, signal: None, timer: None, probe: false, report: None }
}

fn states(m: &ProcessManager, group: usize) -> Vec<ProcessState> {
    m.groups()[group].processes().iter().map(|p| p.state()).collect()
}

fn group_states(g: &ProcessGroup) -> Vec<ProcessState> {
    g.processes().iter().map(|p| p.state()).collect()
}

/// Brings instance `index` of `name` from STARTING to RUNNING.
fn bring_up(m: &mut ProcessManager, name: &str, index: u8, pid: u32) {
    let d = m.deliver(name, index, Event::Spawned(pid), 0).unwrap();
    let t = d.timer.unwrap();
    assert_eq!(t.kind, TimerKind::StartConfirm);
    assert_eq!(m.deliver(name, index, Event::Timer(t.kind, t.epoch), 1).unwrap(), no_directive());
}

#[test]
fn group_has_one_instance_per_replica() {
    let g = ProcessGroup::new(spec("web", 3, true));
    assert_eq!(g.programname(), "web");
    assert_eq!(g.program().numprocs(), 3);
    assert!(!g.is_removed());
    assert_eq!(g.active(), 3);
    let names: Vec<&str> = g.processes().iter().map(|p| p.name().as_str()).collect();
    assert_eq!(names, vec!["web#0", "web#1", "web#2"]);
    let indices: Vec<u8> = g.processes().iter().map(|p| p.index()).collect();
    assert_eq!(indices, vec![0, 1, 2]);
    assert_eq!(group_states(&g), vec![ProcessState::STOPPED; 3]);
    assert!(g.all_stopped());
    assert_eq!(g.stop_budget(), 0);
    assert_eq!(g.longest_grace(), 0);
    let g = ProcessGroup::new(spec("max", 255, true));
    assert_eq!(g.processes().len(), 255);
    assert_eq!(g.processes()[254].name(), "max#254");
}

#[test]
fn group_fans_commands_out() {
    let mut g = ProcessGroup::new(spec("web", 2, true));
    assert_eq!(g.start_all(5), vec![spawn_only(), spawn_only()]);
    assert_eq!(group_states(&g), vec![ProcessState::STARTING; 2]);
    assert!(!g.all_stopped());
    assert_eq!(g.start_all(6), vec![no_directive(), no_directive()]);
    let t0 = g.deliver(0, Event::Spawned(10), 5).unwrap().timer.unwrap();
    g.deliver(0, Event::Timer(t0.kind, t0.epoch), 6).unwrap();
    assert_eq!(group_states(&g), vec![ProcessState::RUNNING, ProcessState::STARTING]);
    assert_eq!(g.deliver(2, Event::Stop, 6), None);
    let ds = g.stop_all(7);
    assert_eq!(ds[0].signal, Some(Signal { pid: 10, signal: 15 }));
    assert_eq!(ds[1], no_directive());
    assert_eq!(group_states(&g), vec![ProcessState::STOPPING, ProcessState::STOPPING]);
    assert_eq!(g.stop_budget(), 14);
    assert_eq!(g.longest_grace(), 7);
    g.deliver(0, Event::Exited(ExitStatus::Signal(15)), 8).unwrap();
    g.deliver(1, Event::SpawnFailed, 8).unwrap();
    assert!(g.all_stopped());
    assert_eq!(g.stop_budget(), 0);
    let ds = g.restart_all(9);
    assert_eq!(ds, vec![spawn_only(), spawn_only()]);
}

#[test]
fn group_status_is_a_snapshot() {
    let mut g = ProcessGroup::new(spec("web", 2, true));
    g.start_all(0);
    g.deliver(1, Event::Spawned(44), 0).unwrap();
    let status = g.status();
    assert_eq!(status.len(), 2);
    assert_eq!(status[0].name, "web#0");
    assert_eq!(status[0].state, ProcessState::STARTING);
    assert_eq!(status[0].pid, None);
    assert_eq!(status[1].name, "web#1");
    assert_eq!(status[1].pid, Some(44));
    assert_eq!(status[1].last_exit, None);
    g.deliver(1, Event::Exited(ExitStatus::Code(1)), 0).unwrap();
    let status = g.status();
    assert_eq!(status[1].state, ProcessState::BACKOFF);
    assert_eq!(status[1].pid, None);
    assert_eq!(status[1].last_exit, Some(ExitStatus::Code(1)));
}

#[test]
fn two_sleepers_start_run_and_stop() {
    let mut m = ProcessManager::new();
    let ds = m.reload(vec![spec("sleep", 2, true)], 0);
    assert_eq!(ds, vec![vec![spawn_only(), spawn_only()]]);
    assert_eq!(states(&m, 0), vec![ProcessState::STARTING; 2]);
    for (index, pid) in [(0u8, 500u32), (1, 501)] {
        let d = m.deliver("sleep", index, Event::Spawned(pid), 0).unwrap();
        let t = d.timer.unwrap();
        assert_eq!((t.kind, t.secs), (TimerKind::StartConfirm, 1));
        assert_eq!(m.deliver("sleep", index, Event::Timer(t.kind, t.epoch), 1).unwrap(), no_directive());
    }
    assert_eq!(states(&m, 0), vec![ProcessState::RUNNING; 2]);
    let ds = m.stop("sleep", 10).unwrap();
    assert_eq!(ds.len(), 2);
    let mut graces = Vec::new();
    for (d, pid) in ds.iter().zip([500u32, 501]) {
        assert_eq!(d.signal, Some(Signal { pid, signal: 15 }));
        let t = d.timer.unwrap();
        assert_eq!((t.kind, t.secs), (TimerKind::StopGrace, 5));
        assert!(!d.spawn);
        graces.push(t);
    }
    assert_eq!(states(&m, 0), vec![ProcessState::STOPPING; 2]);
    assert!(!m.all_stopped());
    assert_eq!(m.shutdown_budget(), 7);
    for index in [0u8, 1] {
        let d = m.deliver("sleep", index, Event::Exited(ExitStatus::Signal(15)), 12).unwrap();
        assert_eq!(d, no_directive());
    }
    assert_eq!(states(&m, 0), vec![ProcessState::STOPPED; 2]);
    assert!(m.all_stopped());
    for (index, t) in graces.iter().enumerate() {
        let d = m.deliver("sleep", index as u8, Event::Timer(t.kind, t.epoch), 15).unwrap();
        assert_eq!(d, no_directive());
    }
    assert_eq!(states(&m, 0), vec![ProcessState::STOPPED; 2]);
}

#[test]
fn unknown_names_are_errors() {
    let mut m = ProcessManager::new();
    m.reload(vec![spec("a", 1, false)], 0);
    assert_eq!(m.start("b", 0).err(), Some(ExecError::ProcessNameNotFound));
    assert_eq!(m.stop("b", 0).err(), Some(ExecError::ProcessNameNotFound));
    assert_eq!(m.restart("", 0).err(), Some(ExecError::ProcessNameNotFound));
    assert_eq!(m.status("A").err(), Some(ExecError::ProcessNameNotFound));
    assert_eq!(m.deliver("b", 0, Event::Stop, 0).err(), Some(ExecError::ProcessNameNotFound));
    assert_eq!(m.deliver("a", 1, Event::Stop, 0).err(), Some(ExecError::ProcessNameNotFound));
    assert_eq!(states(&m, 0), vec![ProcessState::STOPPED]);
    assert_eq!(m.find("a"), Some(0));
    assert_eq!(m.find("b"), None);
    assert_eq!(m.position("a"), Some(0));
}

#[test]
fn autostart_decides_the_first_state() {
    let mut m = ProcessManager::new();
    let ds = m.reload(vec![spec("auto", 1, true), spec("manual", 2, false)], 3);
    assert_eq!(m.groups().len(), 2);
    let manual = m.position("manual").unwrap();
    let auto = m.position("auto").unwrap();
    assert_eq!(ds[auto], vec![spawn_only()]);
    assert_eq!(ds[manual], vec![no_directive(), no_directive()]);
    assert_eq!(states(&m, auto), vec![ProcessState::STARTING]);
    assert_eq!(states(&m, manual), vec![ProcessState::STOPPED; 2]);
    assert_eq!(m.start("manual", 4).unwrap(), vec![spawn_only(), spawn_only()]);
}

#[test]
fn instances_are_supervised_independently() {
    let mut m = ProcessManager::new();
    m.reload(vec![spec("w", 3, true)], 0);
    bring_up(&mut m, "w", 1, 11);
    assert_eq!(
        states(&m, 0),
        vec![ProcessState::STARTING, ProcessState::RUNNING, ProcessState::STARTING]
    );
    m.deliver("w", 2, Event::SpawnFailed, 2).unwrap();
    assert_eq!(
        states(&m, 0),
        vec![ProcessState::STARTING, ProcessState::RUNNING, ProcessState::BACKOFF]
    );
    let d = m.deliver("w", 1, Event::Exited(ExitStatus::Code(1)), 3).unwrap();
    assert!(d.spawn);
    assert_eq!(m.groups()[0].processes()[1].retry_count(), 0);
    assert_eq!(m.groups()[0].processes()[2].retry_count(), 1);
}

#[test]
fn reload_with_the_same_description_moves_nothing() {
    let mut m = ProcessManager::new();
    m.reload(vec![spec("s", 2, true), spec("t", 1, true)], 0);
    let s = m.position("s").unwrap();
    bring_up(&mut m, "s", 0, 7);
    bring_up(&mut m, "s", 1, 8);
    m.deliver("t", 0, Event::SpawnFailed, 1).unwrap();
    let before: Vec<_> = m.groups().iter().map(|g| {
        g.processes().iter().map(|p| p.bookkeeping()).collect::<Vec<_>>()
    }).collect();
    let ds = m.reload(vec![spec("s", 2, true), spec("t", 1, true)], 50);
    for list in &ds {
        for d in list {
            assert_eq!(*d, no_directive());
        }
    }
    let after: Vec<_> = m.groups().iter().map(|g| {
        g.processes().iter().map(|p| p.bookkeeping()).collect::<Vec<_>>()
    }).collect();
    assert_eq!(before, after);
    assert_eq!(m.position("s"), Some(s));
    assert_eq!(states(&m, s), vec![ProcessState::RUNNING; 2]);
}

#[test]
fn reload_with_changed_settings_leaves_running_instances() {
    let mut m = ProcessManager::new();
    m.reload(vec![spec("s", 1, true)], 0);
    bring_up(&mut m, "s", 0, 7);
    let mut b = Program::builder();
    b.programname("s".to_string())
        .command(vec!["other".to_string()])
        .stopsignal(2)
        .stopwaitsecs(40);
    let ds = m.reload(vec![b.build().unwrap()], 9);
    assert_eq!(ds, vec![vec![no_directive()]]);
    assert_eq!(states(&m, 0), vec![ProcessState::RUNNING]);
    assert_eq!(m.groups()[0].program().command(), &vec!["other"]);
    let ds = m.stop("s", 10).unwrap();
    assert_eq!(ds[0].signal, Some(Signal { pid: 7, signal: 15 }));
    assert_eq!(ds[0].timer.unwrap().secs, 5);
    m.deliver("s", 0, Event::Exited(ExitStatus::Signal(15)), 11).unwrap();
    m.start("s", 12).unwrap();
    bring_up(&mut m, "s", 0, 8);
    let ds = m.stop("s", 20).unwrap();
    assert_eq!(ds[0].signal, Some(Signal { pid: 8, signal: 2 }));
    assert_eq!(ds[0].timer.unwrap().secs, 40);
}

#[test]
fn reload_grows_and_shrinks() {
    let mut m = ProcessManager::new();
    m.reload(vec![spec("s", 2, true)], 0);
    bring_up(&mut m, "s", 0, 7);
    bring_up(&mut m, "s", 1, 8);
    let ds = m.reload(vec![spec("s", 3, true)], 5);
    assert_eq!(ds, vec![vec![no_directive(), no_directive(), spawn_only()]]);
    assert_eq!(
        states(&m, 0),
        vec![ProcessState::RUNNING, ProcessState::RUNNING, ProcessState::STARTING]
    );
    assert_eq!(m.groups()[0].processes()[2].name(), "s#2");
    bring_up(&mut m, "s", 2, 9);
    let ds = m.reload(vec![spec("s", 1, true)], 6);
    assert_eq!(ds[0][0], no_directive());
    assert_eq!(ds[0][1].signal, Some(Signal { pid: 8, signal: 15 }));
    assert_eq!(ds[0][2].signal, Some(Signal { pid: 9, signal: 15 }));
    assert_eq!(
        states(&m, 0),
        vec![ProcessState::RUNNING, ProcessState::STOPPING, ProcessState::STOPPING]
    );
    m.reap();
    assert_eq!(m.groups()[0].processes().len(), 3);
    m.deliver("s", 1, Event::Exited(ExitStatus::Signal(15)), 7).unwrap();
    m.reap();
    assert_eq!(m.groups()[0].processes().len(), 3);
    m.deliver("s", 2, Event::Exited(ExitStatus::Signal(15)), 7).unwrap();
    m.reap();
    assert_eq!(states(&m, 0), vec![ProcessState::RUNNING]);
    assert_eq!(m.start("s", 8).unwrap(), vec![no_directive()]);
}

#[test]
fn commands_skip_retired_instances() {
    let mut m = ProcessManager::new();
    m.reload(vec![spec("s", 2, false)], 0);
    m.reload(vec![spec("s", 1, false)], 1);
    assert_eq!(m.start("s", 2).unwrap(), vec![spawn_only(), no_directive()]);
    assert_eq!(states(&m, 0), vec![ProcessState::STARTING, ProcessState::STOPPED]);
    m.reap();
    assert_eq!(states(&m, 0), vec![ProcessState::STARTING]);
}

#[test]
fn removed_program_is_stopped_then_dropped() {
    let mut m = ProcessManager::new();
    m.reload(vec![spec("keep", 1, false), spec("gone", 1, true)], 0);
    bring_up(&mut m, "gone", 0, 3);
    let ds = m.reload(vec![spec("keep", 1, false)], 5);
    let gone = m.position("gone").unwrap();
    assert_eq!(ds[gone][0].signal, Some(Signal { pid: 3, signal: 15 }));
    assert!(m.groups()[gone].is_removed());
    assert_eq!(m.groups()[gone].active(), 0);
    assert_eq!(m.find("gone"), None);
    assert_eq!(m.start("gone", 6).err(), Some(ExecError::ProcessNameNotFound));
    assert_eq!(m.status("gone").err(), Some(ExecError::ProcessNameNotFound));
    m.reap();
    assert_eq!(m.groups().len(), 2);
    m.deliver("gone", 0, Event::Exited(ExitStatus::Signal(15)), 6).unwrap();
    m.reap();
    assert_eq!(m.groups().len(), 1);
    assert_eq!(m.groups()[0].programname(), "keep");
    assert_eq!(m.position("gone"), None);
}

#[test]
fn removed_program_can_come_back() {
    let mut m = ProcessManager::new();
    m.reload(vec![spec("p", 1, true)], 0);
    bring_up(&mut m, "p", 0, 3);
    m.reload(vec![], 1);
    assert_eq!(states(&m, 0), vec![ProcessState::STOPPING]);
    let ds = m.reload(vec![spec("p", 1, true)], 2);
    assert_eq!(ds, vec![vec![no_directive()]]);
    assert!(!m.groups()[0].is_removed());
    assert_eq!(m.find("p"), Some(0));
    assert_eq!(states(&m, 0), vec![ProcessState::STOPPING]);
}

#[test]
fn shutdown_stops_everything_side_by_side() {
    let mut m = ProcessManager::new();
    let mut slow = Program::builder();
    slow.programname("slow".to_string()).command(vec!["x".to_string()]).stopwaitsecs(30);
    m.reload(vec![spec("a", 2, true), slow.build().unwrap()], 0);
    let a = m.position("a").unwrap();
    let s = m.position("slow").unwrap();
    bring_up(&mut m, "a", 0, 1);
    m.deliver("a", 1, Event::SpawnFailed, 0).unwrap();
    bring_up(&mut m, "slow", 0, 2);
    assert_eq!(states(&m, a), vec![ProcessState::RUNNING, ProcessState::BACKOFF]);
    let ds = m.shutdown(9);
    assert_eq!(ds[a][0].signal, Some(Signal { pid: 1, signal: 15 }));
    assert_eq!(ds[a][1], no_directive());
    assert_eq!(ds[s][0].signal, Some(Signal { pid: 2, signal: 15 }));
    assert_eq!(ds[s][0].timer.map(|t| t.secs), Some(30));
    assert_eq!(states(&m, a), vec![ProcessState::STOPPING, ProcessState::STOPPED]);
    assert_eq!(states(&m, s), vec![ProcessState::STOPPING]);
    assert_eq!(m.shutdown_budget(), 32);
    assert_eq!(m.groups()[a].stop_budget(), 7);
}

#[test]
fn status_of_one_and_of_all() {
    let mut m = ProcessManager::new();
    m.reload(vec![spec("a", 2, false), spec("b", 1, true)], 0);
    let a = m.position("a").unwrap();
    let b = m.position("b").unwrap();
    let one = m.status("a").unwrap();
    assert_eq!(one.iter().map(|s| s.name.as_str()).collect::<Vec<_>>(), vec!["a#0", "a#1"]);
    assert!(one.iter().all(|s| s.state == ProcessState::STOPPED && s.pid.is_none()));
    let all = m.status_all();
    assert_eq!(all.len(), 2);
    assert_eq!(all[a].len(), 2);
    assert_eq!(all[b].len(), 1);
    assert_eq!(all[b][0].name, "b#0");
    assert_eq!(all[b][0].state, ProcessState::STARTING);
}

#[test]
fn command_line_words() {
    let c = CommandLine::parse("  start   web \t now\n").unwrap();
    assert_eq!(c.get_command(), "start");
    assert_eq!(c.get_args(), &vec!["web", "now"]);
    let c = CommandLine::parse("status").unwrap();
    assert_eq!(c.get_command(), "status");
    assert!(c.get_args().is_empty());
    assert!(matches!(CommandLine::parse(""), Err(CommandLineError::EmptyCommand)));
    assert!(matches!(CommandLine::parse(" \t\r\n"), Err(CommandLineError::EmptyCommand)));
    let c = CommandLine::new_from_list(vec!["a".to_string(), "b".to_string()]).unwrap();
    assert_eq!(c.get_command(), "a");
    assert_eq!(c.get_args(), &vec!["b"]);
    assert!(CommandLine::new_from_list(Vec::new()).is_none());
    let c = CommandLine::new("x".to_string(), vec!["y".to_string()]);
    assert_eq!(c.get_command(), "x");
    assert_eq!(c.get_args(), &vec!["y"]);
}

#[test]
fn arguments_must_name_programs() {
    let mut rc = taskmaster::config::runtimecontext::RuntimeContext::default();
    taskmaster::config::adapter::Adapter::parse_config(
        &mut rc,
        "[program:a]\ncommand=x\n[program:b]\ncommand=y\n",
    )
    .unwrap();
    let config: &Config = &rc.config;
    let names = |list: &[&str]| list.iter().map(|s| s.to_string()).collect::<Vec<_>>();
    assert_eq!(commands::add(&names(&[]), config), Err(ExecError::InvalidArgs));
    assert_eq!(commands::add(&names(&["a"]), config), Ok(()));
    assert_eq!(commands::add(&names(&["b", "a", "b"]), config), Ok(()));
    assert_eq!(commands::add(&names(&["a", "c"]), config), Err(ExecError::ProcessNameNotFound));
    assert_eq!(exec(CommandLine::parse("add a b").unwrap(), config), Ok(()));
    assert_eq!(exec(CommandLine::parse("add").unwrap(), config), Err(ExecError::InvalidArgs));
    assert_eq!(exec(CommandLine::parse("add a z").unwrap(), config), Err(ExecError::ProcessNameNotFound));
}

#[test]
fn verbs_round_trip() {
    for (verb, text) in [
        (Verb::Start, "start"),
        (Verb::Stop, "stop"),
        (Verb::Restart, "restart"),
        (Verb::Status, "status"),
        (Verb::Reload, "reload"),
    ] {
        assert_eq!(verb.as_str(), text);
        assert_eq!(Verb::from_str(text), Some(verb));
    }
    assert_eq!(Verb::from_str("Start"), None);
    assert_eq!(Verb::from_str("kill"), None);
}

#[test]
fn operator_protocol() {
    let mut m = ProcessManager::new();
    m.reload(vec![spec("web", 2, false)], 0);
    let line = |s: &str| CommandLine::parse(s).unwrap();
    assert!(matches!(run(&line("kill web"), &mut m, 1), Err(ExecError::InvalidArgs)));
    assert!(matches!(run(&line("start"), &mut m, 1), Err(ExecError::InvalidLength)));
    assert!(matches!(run(&line("start web db"), &mut m, 1), Err(ExecError::InvalidLength)));
    assert!(matches!(run(&line("stop"), &mut m, 1), Err(ExecError::InvalidLength)));
    assert!(matches!(run(&line("restart a b"), &mut m, 1), Err(ExecError::InvalidLength)));
    assert!(matches!(run(&line("status a b"), &mut m, 1), Err(ExecError::InvalidLength)));
    assert!(matches!(run(&line("reload now"), &mut m, 1), Err(ExecError::InvalidLength)));
    assert!(matches!(run(&line("start db"), &mut m, 1), Err(ExecError::ProcessNameNotFound)));
    assert!(matches!(run(&line("status db"), &mut m, 1), Err(ExecError::ProcessNameNotFound)));
    assert_eq!(states(&m, 0), vec![ProcessState::STOPPED; 2]);
    assert!(matches!(run(&line("reload"), &mut m, 1), Ok(Reply::Reload)));
    match run(&line("start web"), &mut m, 2) {
        Ok(Reply::Steps(ds)) => assert_eq!(ds, vec![spawn_only(), spawn_only()]),
        other => panic!("{:?}", other),
    }
    assert_eq!(states(&m, 0), vec![ProcessState::STARTING; 2]);
    match run(&line("status web"), &mut m, 2) {
        Ok(Reply::Report(list)) => {
            assert_eq!(list.len(), 2);
            assert_eq!(list[1].name, "web#1");
            assert_eq!(list[1].state, ProcessState::STARTING);
        }
        other => panic!("{:?}", other),
    }
    match run(&line("status"), &mut m, 2) {
        Ok(Reply::ReportAll(lists)) => {
            assert_eq!(lists.len(), 1);
            assert_eq!(lists[0].len(), 2);
        }
        other => panic!("{:?}", other),
    }
    bring_up(&mut m, "web", 0, 40);
    match run(&line("restart web"), &mut m, 3) {
        Ok(Reply::Steps(ds)) => {
            assert_eq!(ds[0].signal, Some(Signal { pid: 40, signal: 15 }));
            assert_eq!(ds[0].timer.map(|t: Timer| t.kind), Some(TimerKind::StopGrace));
            assert_eq!(ds[1], no_directive());
        }
        other => panic!("{:?}", other),
    }
    assert_eq!(states(&m, 0), vec![ProcessState::STOPPING; 2]);
    match run(&line("stop web"), &mut m, 4) {
        Ok(Reply::Steps(ds)) => assert_eq!(ds, vec![no_directive(), no_directive()]),
        other => panic!("{:?}", other),
    }
    let d = m.deliver("web", 0, Event::Exited(ExitStatus::Signal(15)), 5).unwrap();
    assert!(!d.spawn);
    assert_eq!(m.groups()[0].processes()[0].state(), ProcessState::STOPPED);
}
