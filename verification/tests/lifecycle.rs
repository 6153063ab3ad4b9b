use taskmaster::config::program::{AutoRestart, Program};
use taskmaster::exec::backoff::{delay_secs, BACKOFF_BASE_SECS, BACKOFF_CEILING_SECS};
use taskmaster::exec::process::{
    epoch_after, no_directive, policy_from, Core, Directive, Event, ExitStatus, Probe, Process,
    ProcessState, Report, Signal, Timer, TimerKind, KILL_MARGIN_SECS, MAX_PROBES,
};

fn program(autorestart: AutoRestart, startsecs: u8, startretries: u8) -> Program {
    let mut b = Program::builder();
    b.programname("job".to_string())
        .command(vec!["job".to_string()])
        .autorestart(autorestart)
        .startsecs(startsecs)
        .startretries(startretries)
        .stopwaitsecs(5)
        .exitcodes(vec![0, 2]);
    b.build().unwrap()
}

fn timer_of(d: &Directive) -> Timer {
    d.timer.expect("a timer")
}

/// Starts the instance and brings it to RUNNING with the given pid.
fn run_up(p: &mut Process, prog: &Program, pid: u32) {
    let d = p.step(prog, Event::Start, 10);
    assert!(d.spawn);
    let d = p.step(prog, Event::Spawned(pid), 10);
    let t = timer_of(&d);
    assert_eq!(t.kind, TimerKind::StartConfirm);
    let d = p.step(prog, Event::Timer(TimerKind::StartConfirm, t.epoch), 11);
    assert_eq!(d, no_directive());
    assert_eq!(p.state(), ProcessState::RUNNING);
}

#[test]
fn new_instance_is_stopped() {
    let prog = program(AutoRestart::Unexpected, 1, 3);
    let p = Process::new(&prog, 4);
    assert_eq!(p.name(), "job#4");
    assert_eq!(p.index(), 4);
    assert_eq!(p.state(), ProcessState::STOPPED);
    assert_eq!(p.pid(), None);
    assert_eq!(p.retry_count(), 0);
    assert_eq!(p.last_exit_status(), None);
    assert_eq!(p.started_at(), 0);
    assert_eq!(p.bookkeeping(), Core::fresh(policy_from(&prog)));
    assert!(p.bookkeeping().is_idle());
    let s = p.status();
    assert_eq!(s.name, "job#4");
    assert_eq!(s.state, ProcessState::STOPPED);
    assert_eq!(s.pid, None);
    assert_eq!(s.last_exit, None);
}

#[test]
fn start_spawns_and_confirms() {
    let prog = program(AutoRestart::Unexpected, 3, 3);
    let mut p = Process::new(&prog, 0);
    let d = p.step(&prog, Event::Start, 42);
    assert_eq!(d, Directive { spawn: true, signal: None, timer: None, probe: false, report: None });
    assert_eq!(p.state(), ProcessState::STARTING);
    assert_eq!(p.started_at(), 42);
    assert_eq!(p.pid(), None);
    let d = p.step(&prog, Event::Spawned(77), 42);
    assert_eq!(p.pid(), Some(77));
    assert_eq!(p.state(), ProcessState::STARTING);
    let t = timer_of(&d);
    assert_eq!(t, Timer { kind: TimerKind::StartConfirm, secs: 3, epoch: p.bookkeeping().epoch });
    assert!(!d.spawn && d.signal.is_none());
    let d = p.step(&prog, Event::Timer(TimerKind::StartConfirm, t.epoch), 45);
    assert_eq!(d, no_directive());
    assert_eq!(p.state(), ProcessState::RUNNING);
    assert_eq!(p.retry_count(), 0);
    assert_eq!(p.status().pid, Some(77));
}

#[test]
fn always_restarts_after_any_exit() {
    let prog = program(AutoRestart::True, 1, 3);
    for status in [ExitStatus::Code(0), ExitStatus::Code(1), ExitStatus::Signal(9)] {
        let mut p = Process::new(&prog, 0);
        run_up(&mut p, &prog, 5);
        let d = p.step(&prog, Event::Exited(status), 20);
        assert!(d.spawn);
        assert_eq!(p.state(), ProcessState::STARTING);
        assert_eq!(p.pid(), None);
        assert_eq!(p.last_exit_status(), Some(status));
        assert_eq!(p.started_at(), 20);
        assert_eq!(p.retry_count(), 0);
    }
}

#[test]
fn always_does_not_restart_after_a_stop() {
    let prog = program(AutoRestart::True, 1, 3);
    let mut p = Process::new(&prog, 0);
    run_up(&mut p, &prog, 5);
    p.step(&prog, Event::Stop, 20);
    let d = p.step(&prog, Event::Exited(ExitStatus::Code(1)), 21);
    assert_eq!(d, no_directive());
    assert_eq!(p.state(), ProcessState::STOPPED);
}

#[test]
fn unexpected_restarts_only_unexpected_exits() {
    let prog = program(AutoRestart::Unexpected, 1, 3);
    for (status, again) in [
        (ExitStatus::Code(0), false),
        (ExitStatus::Code(2), false),
        (ExitStatus::Code(1), true),
        (ExitStatus::Signal(0), true),
        (ExitStatus::Signal(15), true),
    ] {
        let mut p = Process::new(&prog, 0);
        run_up(&mut p, &prog, 5);
        assert_eq!(p.expects(Event::Exited(status)), !again);
        let d = p.step(&prog, Event::Exited(status), 20);
        assert_eq!(d.spawn, again, "{:?}", status);
        assert_eq!(p.state(), if again { ProcessState::STARTING } else { ProcessState::EXITED });
        assert_eq!(p.last_exit_status(), Some(status));
        assert_eq!(p.pid(), None);
    }
}

#[test]
fn never_restarts_nothing() {
    let prog = program(AutoRestart::False, 1, 3);
    for status in [ExitStatus::Code(0), ExitStatus::Code(1), ExitStatus::Signal(11)] {
        let mut p = Process::new(&prog, 0);
        run_up(&mut p, &prog, 5);
        let d = p.step(&prog, Event::Exited(status), 20);
        assert_eq!(d, no_directive());
        assert_eq!(p.state(), ProcessState::EXITED);
    }
}

#[test]
fn clean_exit_without_restart_ends_exited() {
    let mut b = Program::builder();
    b.programname("once".to_string())
        .command(vec!["true".to_string()])
        .exitcodes(vec![0])
        .autorestart(AutoRestart::False);
    let prog = b.build().unwrap();
    let mut p = Process::new(&prog, 0);
    assert!(p.step(&prog, Event::Start, 0).spawn);
    let t = timer_of(&p.step(&prog, Event::Spawned(3), 0));
    assert_eq!(t.secs, 1);
    p.step(&prog, Event::Timer(t.kind, t.epoch), 1);
    assert_eq!(p.state(), ProcessState::RUNNING);
    let d = p.step(&prog, Event::Exited(ExitStatus::Code(0)), 1);
    assert_eq!(d, no_directive());
    assert_eq!(p.state(), ProcessState::EXITED);
    for event in [
        Event::AutoStart,
        Event::Timer(TimerKind::Backoff, p.bookkeeping().epoch),
        Event::Timer(TimerKind::StartConfirm, t.epoch),
        Event::Exited(ExitStatus::Code(0)),
        Event::SpawnFailed,
        Event::Lost,
        Event::Probed(Probe::Alive),
        Event::Stop,
    ] {
        let d = p.step(&prog, event, 1);
        assert!(!d.spawn);
        assert_eq!(p.state(), ProcessState::EXITED);
    }
    assert!(p.step(&prog, Event::Start, 2).spawn);
}

#[test]
fn exit_before_confirmation_is_a_failed_start_under_every_policy() {
    for policy in [AutoRestart::False, AutoRestart::True, AutoRestart::Unexpected] {
        let prog = program(policy, 1, 3);
        let mut p = Process::new(&prog, 0);
        p.step(&prog, Event::Start, 0);
        p.step(&prog, Event::Spawned(3), 0);
        let d = p.step(&prog, Event::Exited(ExitStatus::Code(0)), 0);
        assert_eq!(p.state(), ProcessState::BACKOFF);
        assert_eq!(p.retry_count(), 1);
        assert_eq!(timer_of(&d).kind, TimerKind::Backoff);
    }
}

#[test]
fn failing_command_backs_off_three_times_then_fatal() {
    let prog = program(AutoRestart::Unexpected, 1, 3);
    let mut p = Process::new(&prog, 0);
    assert!(p.step(&prog, Event::Start, 0).spawn);
    let mut delays = Vec::new();
    for attempt in 1..=3u8 {
        assert_eq!(p.state(), ProcessState::STARTING);
        assert_eq!(p.retry_count(), attempt - 1);
        p.step(&prog, Event::Spawned(100 + attempt as u32), 0);
        let d = p.step(&prog, Event::Exited(ExitStatus::Code(1)), 0);
        assert_eq!(p.state(), ProcessState::BACKOFF);
        assert_eq!(p.retry_count(), attempt);
        assert_eq!(p.pid(), None);
        assert!(!d.spawn);
        let t = timer_of(&d);
        assert_eq!(t.kind, TimerKind::Backoff);
        delays.push(t.secs);
        let d = p.step(&prog, Event::Timer(TimerKind::Backoff, t.epoch), 0);
        assert_eq!(d.spawn, attempt < 3);
    }
    assert_eq!(delays, vec![1, 2, 4]);
    assert_eq!(p.state(), ProcessState::FATAL);
    assert_eq!(p.retry_count(), 3);
    let fatal = p.bookkeeping();
    for event in [
        Event::AutoStart,
        Event::Stop,
        Event::SpawnFailed,
        Event::Exited(ExitStatus::Code(1)),
        Event::Timer(TimerKind::Backoff, fatal.epoch),
        Event::Timer(TimerKind::StartConfirm, fatal.epoch),
        Event::Lost,
        Event::Probed(Probe::Dead),
        Event::Probed(Probe::Undetermined),
    ] {
        assert_eq!(p.step(&prog, event, 9), no_directive());
        assert_eq!(p.bookkeeping(), fatal);
    }
    let d = p.step(&prog, Event::Start, 10);
    assert!(d.spawn);
    assert_eq!(p.state(), ProcessState::STARTING);
    assert_eq!(p.retry_count(), 0);
}

#[test]
fn spawn_failure_counts_like_an_early_exit() {
    let prog = program(AutoRestart::Unexpected, 1, 2);
    let mut p = Process::new(&prog, 0);
    p.step(&prog, Event::Start, 0);
    let d = p.step(&prog, Event::SpawnFailed, 0);
    assert_eq!(p.state(), ProcessState::BACKOFF);
    assert_eq!(p.retry_count(), 1);
    assert_eq!(p.last_exit_status(), None);
    let t = timer_of(&d);
    assert_eq!((t.kind, t.secs), (TimerKind::Backoff, 1));
    assert!(p.step(&prog, Event::Timer(TimerKind::Backoff, t.epoch), 1).spawn);
    let t = timer_of(&p.step(&prog, Event::SpawnFailed, 1));
    assert_eq!(t.secs, 2);
    assert_eq!(p.retry_count(), 2);
    assert_eq!(p.step(&prog, Event::Timer(TimerKind::Backoff, t.epoch), 3), no_directive());
    assert_eq!(p.state(), ProcessState::FATAL);
}

#[test]
fn no_retries_allowed_is_fatal_after_one_failure() {
    let prog = program(AutoRestart::Unexpected, 1, 0);
    let mut p = Process::new(&prog, 0);
    p.step(&prog, Event::Start, 0);
    let t = timer_of(&p.step(&prog, Event::SpawnFailed, 0));
    assert_eq!(p.state(), ProcessState::BACKOFF);
    assert_eq!(p.step(&prog, Event::Timer(t.kind, t.epoch), 1), no_directive());
    assert_eq!(p.state(), ProcessState::FATAL);
}

#[test]
fn retry_count_resets_on_running_not_on_spawn() {
    let prog = program(AutoRestart::Unexpected, 1, 5);
    let mut p = Process::new(&prog, 0);
    p.step(&prog, Event::Start, 0);
    let t = timer_of(&p.step(&prog, Event::SpawnFailed, 0));
    let t2 = {
        assert!(p.step(&prog, Event::Timer(t.kind, t.epoch), 1).spawn);
        assert_eq!(p.retry_count(), 1);
        timer_of(&p.step(&prog, Event::SpawnFailed, 1))
    };
    assert_eq!(p.retry_count(), 2);
    assert!(p.step(&prog, Event::Timer(t2.kind, t2.epoch), 3).spawn);
    assert_eq!(p.retry_count(), 2);
    let t3 = timer_of(&p.step(&prog, Event::Spawned(8), 3));
    assert_eq!(p.retry_count(), 2);
    p.step(&prog, Event::Timer(t3.kind, t3.epoch), 4);
    assert_eq!(p.state(), ProcessState::RUNNING);
    assert_eq!(p.retry_count(), 0);
}

#[test]
fn operator_start_resets_the_count_in_backoff() {
    let prog = program(AutoRestart::Unexpected, 1, 5);
    let mut p = Process::new(&prog, 0);
    p.step(&prog, Event::Start, 0);
    let t = timer_of(&p.step(&prog, Event::SpawnFailed, 0));
    assert_eq!(p.retry_count(), 1);
    assert_eq!(p.step(&prog, Event::AutoStart, 0), no_directive());
    assert!(p.step(&prog, Event::Start, 0).spawn);
    assert_eq!(p.retry_count(), 0);
    assert_eq!(p.state(), ProcessState::STARTING);
    assert_eq!(p.step(&prog, Event::Timer(t.kind, t.epoch), 1), no_directive());
    assert_eq!(p.state(), ProcessState::STARTING);
}

#[test]
fn autostart_only_leaves_stopped() {
    let prog = program(AutoRestart::Unexpected, 1, 5);
    let mut p = Process::new(&prog, 0);
    assert!(p.step(&prog, Event::AutoStart, 7).spawn);
    assert_eq!(p.state(), ProcessState::STARTING);
    assert_eq!(p.started_at(), 7);
    assert_eq!(p.step(&prog, Event::AutoStart, 8), no_directive());
    assert_eq!(p.step(&prog, Event::Start, 8), no_directive());
    assert_eq!(p.started_at(), 7);
}

#[test]
fn stop_is_graceful_then_forceful() {
    let mut b = Program::builder();
    b.programname("srv".to_string()).command(vec!["srv".to_string()]).stopsignal(2).stopwaitsecs(7);
    let prog = b.build().unwrap();
    let mut p = Process::new(&prog, 0);
    run_up(&mut p, &prog, 31);
    let d = p.step(&prog, Event::Stop, 50);
    assert_eq!(p.state(), ProcessState::STOPPING);
    assert_eq!(d.signal, Some(Signal { pid: 31, signal: 2 }));
    let grace = timer_of(&d);
    assert_eq!(grace, Timer { kind: TimerKind::StopGrace, secs: 7, epoch: p.bookkeeping().epoch });
    assert!(!d.spawn && !d.probe && d.report.is_none());
    assert_eq!(p.step(&prog, Event::Stop, 51), no_directive());
    assert_eq!(p.step(&prog, Event::Start, 51), no_directive());
    assert_eq!(p.state(), ProcessState::STOPPING);
    let d = p.step(&prog, Event::Timer(TimerKind::StopGrace, grace.epoch), 57);
    assert_eq!(d.signal, Some(Signal { pid: 31, signal: 9 }));
    let margin = timer_of(&d);
    assert_eq!(
        margin,
        Timer { kind: TimerKind::KillMargin, secs: KILL_MARGIN_SECS, epoch: p.bookkeeping().epoch }
    );
    assert_eq!(p.state(), ProcessState::STOPPING);
    assert_eq!(p.step(&prog, Event::Timer(TimerKind::StopGrace, grace.epoch), 58), no_directive());
    let d = p.step(&prog, Event::Exited(ExitStatus::Signal(9)), 58);
    assert_eq!(d, no_directive());
    assert_eq!(p.state(), ProcessState::STOPPED);
    assert_eq!(p.pid(), None);
    assert_eq!(p.last_exit_status(), Some(ExitStatus::Signal(9)));
    assert_eq!(p.step(&prog, Event::Timer(TimerKind::KillMargin, margin.epoch), 60), no_directive());
    assert_eq!(p.state(), ProcessState::STOPPED);
}

#[test]
fn stop_within_grace_needs_no_force() {
    let prog = program(AutoRestart::True, 1, 3);
    let mut p = Process::new(&prog, 0);
    run_up(&mut p, &prog, 31);
    let d = p.step(&prog, Event::Stop, 50);
    assert_eq!(d.signal, Some(Signal { pid: 31, signal: 15 }));
    let grace = timer_of(&d);
    assert_eq!(grace.secs, 5);
    assert_eq!(p.step(&prog, Event::Exited(ExitStatus::Code(0)), 52), no_directive());
    assert_eq!(p.state(), ProcessState::STOPPED);
    assert_eq!(p.step(&prog, Event::Timer(grace.kind, grace.epoch), 55), no_directive());
    assert_eq!(p.state(), ProcessState::STOPPED);
}

#[test]
fn stuck_process_is_reported_and_left_in_doubt() {
    let prog = program(AutoRestart::True, 1, 3);
    let mut p = Process::new(&prog, 0);
    run_up(&mut p, &prog, 31);
    let grace = timer_of(&p.step(&prog, Event::Stop, 50));
    let margin = timer_of(&p.step(&prog, Event::Timer(grace.kind, grace.epoch), 55));
    let d = p.step(&prog, Event::Timer(margin.kind, margin.epoch), 57);
    assert_eq!(
        d,
        Directive { spawn: false, signal: None, timer: None, probe: true, report: Some(Report::Stuck) }
    );
    assert_eq!(p.state(), ProcessState::UNKNOWN);
    assert_eq!(p.pid(), Some(31));
    let d = p.step(&prog, Event::Probed(Probe::Dead), 58);
    assert_eq!(d, no_directive());
    assert_eq!(p.state(), ProcessState::STOPPED);
    assert_eq!(p.pid(), None);
}

#[test]
fn stop_while_starting_and_in_backoff() {
    let prog = program(AutoRestart::Unexpected, 1, 3);
    let mut p = Process::new(&prog, 0);
    p.step(&prog, Event::Start, 0);
    let confirm = timer_of(&p.step(&prog, Event::Spawned(4), 0));
    let d = p.step(&prog, Event::Stop, 0);
    assert_eq!(d.signal, Some(Signal { pid: 4, signal: 15 }));
    assert_eq!(p.state(), ProcessState::STOPPING);
    assert_eq!(p.step(&prog, Event::Timer(confirm.kind, confirm.epoch), 1), no_directive());
    assert_eq!(p.state(), ProcessState::STOPPING);
    p.step(&prog, Event::Exited(ExitStatus::Signal(15)), 1);
    assert_eq!(p.state(), ProcessState::STOPPED);

    let mut p = Process::new(&prog, 0);
    p.step(&prog, Event::Start, 0);
    let backoff = timer_of(&p.step(&prog, Event::SpawnFailed, 0));
    assert_eq!(p.state(), ProcessState::BACKOFF);
    assert_eq!(p.step(&prog, Event::Stop, 0), no_directive());
    assert_eq!(p.state(), ProcessState::STOPPED);
    assert_eq!(p.step(&prog, Event::Timer(backoff.kind, backoff.epoch), 1), no_directive());
    assert_eq!(p.state(), ProcessState::STOPPED);
    assert_eq!(p.retry_count(), 1);
}

#[test]
fn stop_during_a_spawn_waits_for_its_outcome() {
    let prog = program(AutoRestart::Unexpected, 1, 3);
    let mut p = Process::new(&prog, 0);
    p.step(&prog, Event::Start, 0);
    assert_eq!(p.step(&prog, Event::Stop, 0), no_directive());
    assert_eq!(p.state(), ProcessState::STOPPING);
    let d = p.step(&prog, Event::Spawned(12), 0);
    assert_eq!(d.signal, Some(Signal { pid: 12, signal: 15 }));
    assert_eq!(timer_of(&d).kind, TimerKind::StopGrace);
    assert_eq!(p.state(), ProcessState::STOPPING);
    p.step(&prog, Event::Exited(ExitStatus::Signal(15)), 1);
    assert_eq!(p.state(), ProcessState::STOPPED);

    let mut p = Process::new(&prog, 0);
    p.step(&prog, Event::Start, 0);
    p.step(&prog, Event::Stop, 0);
    assert_eq!(p.step(&prog, Event::SpawnFailed, 0), no_directive());
    assert_eq!(p.state(), ProcessState::STOPPED);
    assert_eq!(p.retry_count(), 0);
}

#[test]
fn stray_spawn_is_killed() {
    let prog = program(AutoRestart::Unexpected, 1, 3);
    let mut p = Process::new(&prog, 0);
    let before = p.bookkeeping();
    let d = p.step(&prog, Event::Spawned(99), 0);
    assert_eq!(d.signal, Some(Signal { pid: 99, signal: 9 }));
    assert!(d.timer.is_none() && !d.spawn);
    assert_eq!(p.bookkeeping(), before);
}

#[test]
fn restart_is_stop_then_start() {
    let prog = program(AutoRestart::Unexpected, 1, 3);
    let mut p = Process::new(&prog, 0);
    run_up(&mut p, &prog, 5);
    let d = p.step(&prog, Event::Restart, 30);
    assert_eq!(d.signal, Some(Signal { pid: 5, signal: 15 }));
    assert!(!d.spawn);
    assert_eq!(p.state(), ProcessState::STOPPING);
    let d = p.step(&prog, Event::Exited(ExitStatus::Signal(15)), 31);
    assert!(d.spawn);
    assert_eq!(p.state(), ProcessState::STARTING);
    assert_eq!(p.started_at(), 31);
    assert_eq!(p.retry_count(), 0);

    let mut p = Process::new(&prog, 0);
    assert!(p.step(&prog, Event::Restart, 1).spawn);
    assert_eq!(p.state(), ProcessState::STARTING);
}

#[test]
fn restart_is_dropped_when_the_stop_is_stuck_or_a_stop_follows() {
    let prog = program(AutoRestart::Unexpected, 1, 3);
    let mut p = Process::new(&prog, 0);
    run_up(&mut p, &prog, 5);
    let grace = timer_of(&p.step(&prog, Event::Restart, 30));
    let margin = timer_of(&p.step(&prog, Event::Timer(grace.kind, grace.epoch), 35));
    let d = p.step(&prog, Event::Timer(margin.kind, margin.epoch), 37);
    assert_eq!(d.report, Some(Report::Stuck));
    assert!(!d.spawn);
    let d = p.step(&prog, Event::Exited(ExitStatus::Signal(9)), 40);
    assert!(!d.spawn);
    assert_eq!(p.state(), ProcessState::STOPPED);

    let mut p = Process::new(&prog, 0);
    run_up(&mut p, &prog, 5);
    p.step(&prog, Event::Restart, 30);
    p.step(&prog, Event::Stop, 30);
    let d = p.step(&prog, Event::Exited(ExitStatus::Signal(15)), 31);
    assert!(!d.spawn);
    assert_eq!(p.state(), ProcessState::STOPPED);
}

#[test]
fn stale_timers_change_nothing() {
    let prog = program(AutoRestart::Unexpected, 1, 3);
    let mut p = Process::new(&prog, 0);
    p.step(&prog, Event::Start, 0);
    let t = timer_of(&p.step(&prog, Event::Spawned(4), 0));
    let before = p.bookkeeping();
    for event in [
        Event::Timer(TimerKind::StartConfirm, t.epoch.wrapping_sub(1)),
        Event::Timer(TimerKind::StartConfirm, t.epoch + 1),
        Event::Timer(TimerKind::Backoff, t.epoch),
        Event::Timer(TimerKind::StopGrace, t.epoch),
        Event::Timer(TimerKind::KillMargin, t.epoch),
    ] {
        assert_eq!(p.step(&prog, event, 1), no_directive());
        assert_eq!(p.bookkeeping(), before);
    }
}

#[test]
fn lost_process_is_probed() {
    let prog = program(AutoRestart::Unexpected, 1, 3);
    let mut p = Process::new(&prog, 0);
    assert_eq!(p.step(&prog, Event::Lost, 0), no_directive());
    assert_eq!(p.state(), ProcessState::STOPPED);
    run_up(&mut p, &prog, 5);
    let d = p.step(&prog, Event::Lost, 20);
    assert_eq!(d, Directive { spawn: false, signal: None, timer: None, probe: true, report: None });
    assert_eq!(p.state(), ProcessState::UNKNOWN);
    let d = p.step(&prog, Event::Probed(Probe::Alive), 21);
    assert_eq!(d, no_directive());
    assert_eq!(p.state(), ProcessState::RUNNING);
    assert_eq!(p.pid(), Some(5));

    p.step(&prog, Event::Lost, 22);
    let d = p.step(&prog, Event::Probed(Probe::Dead), 23);
    assert_eq!(d, no_directive());
    assert_eq!(p.state(), ProcessState::EXITED);
    assert_eq!(p.pid(), None);
}

#[test]
fn doubt_ends_after_a_bounded_number_of_probes() {
    let prog = program(AutoRestart::Unexpected, 1, 3);
    let mut p = Process::new(&prog, 0);
    run_up(&mut p, &prog, 5);
    p.step(&prog, Event::Lost, 20);
    for _ in 1..MAX_PROBES {
        let d = p.step(&prog, Event::Probed(Probe::Undetermined), 21);
        assert_eq!(d, Directive { spawn: false, signal: None, timer: None, probe: true, report: None });
        assert_eq!(p.state(), ProcessState::UNKNOWN);
    }
    let d = p.step(&prog, Event::Probed(Probe::Undetermined), 22);
    assert_eq!(
        d,
        Directive { spawn: false, signal: None, timer: None, probe: false, report: Some(Report::Unresolved) }
    );
    assert_eq!(p.state(), ProcessState::FATAL);
    assert_eq!(p.pid(), None);
}

#[test]
fn exit_seen_while_in_doubt() {
    let prog = program(AutoRestart::True, 1, 3);
    let mut p = Process::new(&prog, 0);
    run_up(&mut p, &prog, 5);
    p.step(&prog, Event::Lost, 20);
    let d = p.step(&prog, Event::Exited(ExitStatus::Code(3)), 21);
    assert_eq!(d, no_directive());
    assert_eq!(p.state(), ProcessState::EXITED);
    assert_eq!(p.last_exit_status(), Some(ExitStatus::Code(3)));

    let mut p = Process::new(&prog, 0);
    run_up(&mut p, &prog, 5);
    p.step(&prog, Event::Stop, 20);
    p.step(&prog, Event::Lost, 20);
    assert_eq!(p.state(), ProcessState::UNKNOWN);
    p.step(&prog, Event::Exited(ExitStatus::Code(3)), 21);
    assert_eq!(p.state(), ProcessState::STOPPED);
}

#[test]
fn new_description_governs_the_next_spawn_only() {
    let old = program(AutoRestart::True, 1, 3);
    let mut b = Program::builder();
    b.programname("job".to_string())
        .command(vec!["job".to_string()])
        .autorestart(AutoRestart::False)
        .stopsignal(1)
        .stopwaitsecs(99)
        .exitcodes(vec![7]);
    let new = b.build().unwrap();
    let mut p = Process::new(&old, 0);
    run_up(&mut p, &old, 5);
    assert!(!p.expects(Event::Exited(ExitStatus::Code(7))));
    let d = p.step(&new, Event::Exited(ExitStatus::Code(7)), 20);
    assert!(d.spawn);
    assert!(p.expects(Event::Exited(ExitStatus::Code(7))));
    assert!(!p.expects(Event::Exited(ExitStatus::Code(0))));
    let t = timer_of(&p.step(&new, Event::Spawned(6), 20));
    p.step(&new, Event::Timer(t.kind, t.epoch), 21);
    let d = p.step(&old, Event::Stop, 22);
    assert_eq!(d.signal, Some(Signal { pid: 6, signal: 1 }));
    assert_eq!(timer_of(&d).secs, 99);
}

#[test]
fn epochs_wrap() {
    assert_eq!(epoch_after(0), 1);
    assert_eq!(epoch_after(u64::MAX - 1), u64::MAX);
    assert_eq!(epoch_after(u64::MAX), 0);
}

#[test]
fn core_step_saturates_the_count() {
    let prog = program(AutoRestart::Unexpected, 1, 255);
    let mut p = Process::new(&prog, 0);
    p.step(&prog, Event::Start, 0);
    for n in 1..=255u32 {
        let t = timer_of(&p.step(&prog, Event::SpawnFailed, 0));
        assert_eq!(p.retry_count() as u32, n);
        let d = p.step(&prog, Event::Timer(t.kind, t.epoch), 0);
        assert_eq!(d.spawn, n < 255);
    }
    assert_eq!(p.state(), ProcessState::FATAL);
    assert_eq!(p.retry_count(), 255);
}

#[test]
fn backoff_delays_double_up_to_the_ceiling() {
    assert_eq!(BACKOFF_BASE_SECS, 1);
    assert_eq!(BACKOFF_CEILING_SECS, 60);
    let expected = [1u32, 1, 2, 4, 8, 16, 32, 60, 60, 60];
    for (failures, secs) in expected.iter().enumerate() {
        assert_eq!(delay_secs(failures as u8), *secs, "{}", failures);
    }
    assert_eq!(delay_secs(255), 60);
    for n in 1..255u8 {
        assert!(delay_secs(n) <= delay_secs(n + 1));
    }
}
