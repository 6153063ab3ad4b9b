//! The lifecycle of one supervised process: its states, the events that move
//! it, and what each move asks the driver to do.
//!
//! The library decides; the driver acts. A step takes the instance and an
//! event, and answers a [`Directive`]: whether to spawn, which signal to
//! send, which timer to arm, whether to probe the process and what to report.
//! The driver carries the directive out and hands back what happened as the
//! next event.

use crate::config::program::{AutoRestart, Program, ProgramView};
use crate::exec::backoff::{backoff_delay, delay_secs, lemma_backoff_bounds};
use vstd::prelude::*;

verus! {

/// The seconds granted to a process between the forceful signal and the
/// report that it is stuck.
pub const KILL_MARGIN_SECS: u32 = 2;

/// The number of probes without an answer after which an instance whose
/// process is in doubt is given up.
pub const MAX_PROBES: u8 = 3;

/// The number of the forceful termination signal, `SIGKILL`, as `signal_hook`
/// exports it from `libc`: 9.
#[verifier::external_body]
pub(crate) fn sigkill() -> (r: i32)
    ensures
        r == 9,
{
    signal_hook::consts::signal::SIGKILL
}

/// The lifecycle state of an instance.
#[derive(Debug, Clone, Copy, PartialEq, Eq, Structural)]
pub enum ProcessState {
    /// Not running, by request or from the beginning.
    STOPPED,
    /// Spawned or about to be, not yet up for long enough.
    STARTING,
    /// Up for long enough to count as started.
    RUNNING,
    /// A start has failed; the next one waits for its delay.
    BACKOFF,
    /// Asked to stop, not yet gone.
    STOPPING,
    /// Gone by itself, and not started again.
    EXITED,
    /// Given up after too many failed starts, or after too many probes
    /// without an answer.
    FATAL,
    /// It is in doubt whether the process lives.
    UNKNOWN,
}

/// How a process ended.
#[derive(Debug, Clone, Copy, PartialEq, Eq, Structural)]
pub enum ExitStatus {
    /// It exited with this code.
    Code(i32),
    /// This signal ended it.
    Signal(i32),
}

/// What a timer of an instance waits for.
#[derive(Debug, Clone, Copy, PartialEq, Eq, Structural)]
pub enum TimerKind {
    /// The time a process must stay up to count as started.
    StartConfirm,
    /// The delay before a failed start is tried again.
    Backoff,
    /// The grace period between the stop signal and the forceful one.
    StopGrace,
    /// The margin between the forceful signal and the report of a stuck
    /// process.
    KillMargin,
}

/// What a probe of a process in doubt found.
#[derive(Debug, Clone, Copy, PartialEq, Eq, Structural)]
pub enum Probe {
    Alive,
    Dead,
    Undetermined,
}

/// What can happen to an instance.
#[derive(Debug, Clone, Copy, PartialEq, Eq, Structural)]
pub enum Event {
    /// The operator asks for a start.
    Start,
    /// The daemon starts what is configured to start with it.
    AutoStart,
    /// The operator asks for a stop.
    Stop,
    /// The operator asks for a stop followed by a start.
    Restart,
    /// The spawn that was asked for gave a process with this id.
    Spawned(u32),
    /// The spawn that was asked for failed.
    SpawnFailed,
    /// The process ended.
    Exited(ExitStatus),
    /// The timer of this kind that was armed under this epoch has fired.
    Timer(TimerKind, u64),
    /// The monitor has lost track of the process.
    Lost,
    /// The probe that was asked for has answered.
    Probed(Probe),
}

/// A condition that is surfaced to the operator.
#[derive(Debug, Clone, Copy, PartialEq, Eq, Structural)]
pub enum Report {
    /// The process outlived the forceful signal.
    Stuck,
    /// Probing never told whether the process lives.
    Unresolved,
}

/// A signal to send to a process.
#[derive(Debug, Clone, Copy, PartialEq, Eq, Structural)]
pub struct Signal {
    pub pid: u32,
    pub signal: i32,
}

/// A timer to arm. When it fires, the driver hands back its kind and epoch.
#[derive(Debug, Clone, Copy, PartialEq, Eq, Structural)]
pub struct Timer {
    pub kind: TimerKind,
    pub secs: u32,
    pub epoch: u64,
}

/// What the driver has to do after a step.
#[derive(Debug, Clone, Copy, PartialEq, Eq, Structural)]
pub struct Directive {
    /// Spawn the process and hand back `Spawned` or `SpawnFailed`.
    pub spawn: bool,
    /// Send this signal.
    pub signal: Option<Signal>,
    /// Arm this timer.
    pub timer: Option<Timer>,
    /// Probe the process and hand back `Probed`.
    pub probe: bool,
    /// Tell the operator.
    pub report: Option<Report>,
}

/// The directive that asks for nothing.
pub open spec fn quiet() -> Directive {
    Directive { spawn: false, signal: None, timer: None, probe: false, report: None }
}

/// The epoch after `epoch`; it wraps around.
pub open spec fn next_epoch(epoch: u64) -> u64 {
    if epoch == u64::MAX {
        0
    } else {
        (epoch + 1) as u64
    }
}

/// The settings of a program that govern the lifecycle of its processes.
#[derive(Debug, Clone, Copy, PartialEq, Eq, Structural)]
pub struct Policy {
    pub autorestart: AutoRestart,
    pub startsecs: u8,
    pub startretries: u8,
    pub stopsignal: i32,
    pub stopwaitsecs: u32,
}

/// The policy that a program sets.
pub open spec fn policy_of(program: ProgramView) -> Policy {
    Policy {
        autorestart: program.autorestart,
        startsecs: program.startsecs,
        startretries: program.startretries,
        stopsignal: program.stopsignal,
        stopwaitsecs: program.stopwaitsecs,
    }
}

/// Whether a process that ended by itself is started again: always under
/// `True`, never under `False`, and under `Unexpected` unless it ended with
/// an expected exit code.
pub open spec fn restarts(policy: AutoRestart, expected: bool) -> bool {
    match policy {
        AutoRestart::True => true,
        AutoRestart::False => false,
        AutoRestart::Unexpected => !expected,
    }
}

/// The bookkeeping of an instance.
#[derive(Debug, Clone, Copy, PartialEq, Eq, Structural)]
pub struct Core {
    pub state: ProcessState,
    /// The process, while there is one.
    pub pid: Option<u32>,
    /// When the last spawn was asked for.
    pub started_at: u64,
    /// The failed starts in a row since the instance last ran.
    pub retry_count: u8,
    /// How the last process ended.
    pub last_exit: Option<ExitStatus>,
    /// Counts the transitions that arm or cancel a timer: a timer that fires
    /// under another epoch than the current one is stale.
    pub epoch: u64,
    /// The timer that is outstanding.
    pub armed: Option<TimerKind>,
    /// The operator has asked for a stop that is not yet complete.
    pub stop_requested: bool,
    /// A start is owed once the stop is complete.
    pub restart_pending: bool,
    /// The probes in a row that gave no answer.
    pub probes: u8,
    /// The policy of the program as it was when the process was last spawned.
    pub policy: Policy,
}

impl Core {
    /// Whether the instance is at rest: no process, no timer, nothing owed.
    pub open spec fn idle(self) -> bool {
        self.state == ProcessState::STOPPED || self.state == ProcessState::EXITED || self.state
            == ProcessState::FATAL
    }

    /// The invariant of the bookkeeping: a running instance has a process
    /// and no failed start to its name; a process exists only in the states
    /// that have one; the outstanding timer is the one that the state calls
    /// for; a start is owed only while stopping; a stop is pending exactly
    /// while stopping or, possibly, in doubt; probes are counted only in
    /// doubt.
    pub open spec fn wf(self) -> bool {
        &&& self.state == ProcessState::RUNNING ==> self.pid is Some && self.retry_count == 0
        &&& self.pid is Some ==> (self.state == ProcessState::STARTING || self.state
            == ProcessState::RUNNING || self.state == ProcessState::STOPPING || self.state
            == ProcessState::UNKNOWN)
        &&& self.armed == self.timer_due()
            || (self.state == ProcessState::STOPPING && self.pid is Some && self.armed == Some(
            TimerKind::KillMargin,
        ))
        &&& self.restart_pending ==> self.state == ProcessState::STOPPING
        &&& self.stop_requested ==> (self.state == ProcessState::STOPPING || self.state
            == ProcessState::UNKNOWN)
        &&& self.state == ProcessState::STOPPING ==> self.stop_requested
        &&& self.probes < MAX_PROBES
        &&& self.probes > 0 ==> self.state == ProcessState::UNKNOWN
    }

    /// The timer that a state calls for on entry.
    pub open spec fn timer_due(self) -> Option<TimerKind> {
        match self.state {
            ProcessState::BACKOFF => Some(TimerKind::Backoff),
            ProcessState::STARTING => if self.pid is Some {
                Some(TimerKind::StartConfirm)
            } else {
                None
            },
            ProcessState::STOPPING => if self.pid is Some {
                Some(TimerKind::StopGrace)
            } else {
                None
            },
            _ => None,
        }
    }

    /// The instance as it is created: stopped, with nothing to its name.
    pub open spec fn initial(policy: Policy) -> Core {
        Core {
            state: ProcessState::STOPPED,
            pid: None,
            started_at: 0,
            retry_count: 0,
            last_exit: None,
            epoch: 0,
            armed: None,
            stop_requested: false,
            restart_pending: false,
            probes: 0,
            policy,
        }
    }

    /// Enters `STARTING` for a new spawn under `policy`, with `retry` failed
    /// starts to its name.
    pub open spec fn launched(self, policy: Policy, retry: u8, now: u64) -> (Core, Directive) {
        (
            Core {
                state: ProcessState::STARTING,
                pid: None,
                started_at: now,
                retry_count: retry,
                last_exit: self.last_exit,
                epoch: next_epoch(self.epoch),
                armed: None,
                stop_requested: false,
                restart_pending: false,
                probes: 0,
                policy,
            },
            Directive { spawn: true, ..quiet() },
        )
    }

    /// Comes to rest in `state`: no process, no timer, nothing owed.
    pub open spec fn rested(self, state: ProcessState) -> Core {
        Core {
            state,
            pid: None,
            epoch: next_epoch(self.epoch),
            armed: None,
            stop_requested: false,
            restart_pending: false,
            probes: 0,
            ..self
        }
    }

    /// Enters `STOPPING` for the process `pid`: the stop signal is sent and
    /// the grace period starts.
    pub open spec fn stop_sent(self, pid: u32) -> (Core, Directive) {
        let epoch = next_epoch(self.epoch);
        (
            Core {
                state: ProcessState::STOPPING,
                pid: Some(pid),
                epoch,
                armed: Some(TimerKind::StopGrace),
                stop_requested: true,
                probes: 0,
                ..self
            },
            Directive {
                signal: Some(Signal { pid, signal: self.policy.stopsignal }),
                timer: Some(
                    Timer { kind: TimerKind::StopGrace, secs: self.policy.stopwaitsecs, epoch },
                ),
                ..quiet()
            },
        )
    }

    /// A start. The operator's start leaves every state without a process
    /// and forgets the failed starts; the daemon's own start only leaves
    /// `STOPPED`, and forgets nothing. Elsewhere a start changes nothing.
    pub open spec fn on_start(self, program: Policy, operator: bool, now: u64) -> (
        Core,
        Directive,
    ) {
        if operator && (self.idle() || self.state == ProcessState::BACKOFF) {
            self.launched(program, 0, now)
        } else if !operator && self.state == ProcessState::STOPPED {
            self.launched(program, self.retry_count, now)
        } else {
            (self, quiet())
        }
    }

    /// A stop, whatever is owed afterwards. A process is sent the stop
    /// signal; a spawn under way is waited for; a pending retry is dropped;
    /// an instance at rest stays as it is.
    pub open spec fn halted(self) -> (Core, Directive) {
        match self.state {
            ProcessState::STOPPED | ProcessState::EXITED | ProcessState::FATAL
            | ProcessState::STOPPING => (self, quiet()),
            ProcessState::BACKOFF => (self.rested(ProcessState::STOPPED), quiet()),
            ProcessState::STARTING | ProcessState::RUNNING | ProcessState::UNKNOWN => match self.pid {
                Some(pid) => self.stop_sent(pid),
                None => if self.state == ProcessState::STARTING {
                    (
                        Core {
                            state: ProcessState::STOPPING,
                            epoch: next_epoch(self.epoch),
                            armed: None,
                            stop_requested: true,
                            ..self
                        },
                        quiet(),
                    )
                } else {
                    (self.rested(ProcessState::STOPPED), quiet())
                },
            },
        }
    }

    /// The operator's stop: the instance is halted and no start is owed.
    pub open spec fn on_stop(self) -> (Core, Directive) {
        let (core, directive) = self.halted();
        (Core { restart_pending: false, ..core }, directive)
    }

    /// The operator's restart: a stop followed by a start. Where the stop is
    /// complete at once the start follows at once; else it is owed.
    pub open spec fn on_restart(self, program: Policy, now: u64) -> (Core, Directive) {
        let (core, directive) = self.halted();
        if core.idle() {
            core.launched(program, 0, now)
        } else {
            (Core { restart_pending: true, ..core }, directive)
        }
    }

    /// The spawn gave a process. While starting, the confirmation timer is
    /// armed; where a stop came in the meantime, the process is stopped. A
    /// process that nothing waits for is killed.
    pub open spec fn on_spawned(self, pid: u32) -> (Core, Directive) {
        if self.pid is None && self.state == ProcessState::STARTING {
            let epoch = next_epoch(self.epoch);
            (
                Core { pid: Some(pid), epoch, armed: Some(TimerKind::StartConfirm), ..self },
                Directive {
                    timer: Some(
                        Timer {
                            kind: TimerKind::StartConfirm,
                            secs: self.policy.startsecs as u32,
                            epoch,
                        },
                    ),
                    ..quiet()
                },
            )
        } else if self.pid is None && self.state == ProcessState::STOPPING {
            self.stop_sent(pid)
        } else {
            (self, Directive { signal: Some(Signal { pid, signal: 9 }), ..quiet() })
        }
    }

    /// The count of failed starts after one more.
    pub open spec fn one_more(self) -> u8 {
        if self.retry_count == u8::MAX {
            u8::MAX
        } else {
            (self.retry_count + 1) as u8
        }
    }

    /// A start has failed: the failure is counted and the next start waits
    /// for its delay.
    pub open spec fn start_failed(self) -> (Core, Directive) {
        let epoch = next_epoch(self.epoch);
        let failures = self.one_more();
        (
            Core {
                state: ProcessState::BACKOFF,
                pid: None,
                retry_count: failures,
                epoch,
                armed: Some(TimerKind::Backoff),
                ..self
            },
            Directive {
                timer: Some(
                    Timer {
                        kind: TimerKind::Backoff,
                        secs: backoff_delay(failures as nat) as u32,
                        epoch,
                    },
                ),
                ..quiet()
            },
        )
    }

    /// A stop is complete: the instance is stopped, and started again where
    /// a start is owed.
    pub open spec fn stopped(self, program: Policy, now: u64) -> (Core, Directive) {
        if self.restart_pending {
            self.rested(ProcessState::STOPPED).launched(program, 0, now)
        } else {
            (self.rested(ProcessState::STOPPED), quiet())
        }
    }

    /// The spawn failed. While starting this is a failed start; where a stop
    /// came in the meantime, the stop is complete.
    pub open spec fn on_spawn_failed(self, program: Policy, now: u64) -> (Core, Directive) {
        if self.pid is None && self.state == ProcessState::STARTING {
            self.start_failed()
        } else if self.pid is None && self.state == ProcessState::STOPPING {
            self.stopped(program, now)
        } else {
            (self, quiet())
        }
    }

    /// The process ended; `expected` says whether it ended with an exit code
    /// that counts as expected. Before it was up for long enough this is a
    /// failed start. While running, the restart policy decides between a new
    /// start and `EXITED`. While stopping, the stop is complete. In doubt,
    /// the doubt is resolved. Without a process the event is stale.
    pub open spec fn on_exited(
        self,
        program: Policy,
        status: ExitStatus,
        expected: bool,
        now: u64,
    ) -> (Core, Directive) {
        if self.pid is None {
            (self, quiet())
        } else {
            let seen = Core { last_exit: Some(status), ..self };
            match self.state {
                ProcessState::STARTING => seen.start_failed(),
                ProcessState::RUNNING => if restarts(self.policy.autorestart, expected) {
                    seen.launched(program, seen.retry_count, now)
                } else {
                    (seen.rested(ProcessState::EXITED), quiet())
                },
                ProcessState::STOPPING => seen.stopped(program, now),
                ProcessState::UNKNOWN => (seen.gone(), quiet()),
                _ => (self, quiet()),
            }
        }
    }

    /// The process in doubt is gone: the instance is stopped where a stop was
    /// pending or no process was known, else exited.
    pub open spec fn gone(self) -> Core {
        if self.stop_requested || self.pid is None {
            self.rested(ProcessState::STOPPED)
        } else {
            self.rested(ProcessState::EXITED)
        }
    }

    /// A timer fired. A timer of another kind or epoch than the outstanding
    /// one is stale and changes nothing. The confirmation timer makes the
    /// instance `RUNNING` and forgets the failed starts. The backoff timer
    /// starts the instance again while the failed starts are fewer than the
    /// program allows, else the instance is `FATAL`. The grace timer sends
    /// the forceful signal and arms the margin; the margin timer reports the
    /// process as stuck and leaves it in doubt.
    pub open spec fn on_timer(self, program: Policy, kind: TimerKind, epoch: u64, now: u64) -> (
        Core,
        Directive,
    ) {
        if self.armed != Some(kind) || self.epoch != epoch {
            (self, quiet())
        } else {
            let fresh = next_epoch(self.epoch);
            match kind {
                TimerKind::StartConfirm => if self.state == ProcessState::STARTING {
                    (
                        Core {
                            state: ProcessState::RUNNING,
                            retry_count: 0,
                            epoch: fresh,
                            armed: None,
                            ..self
                        },
                        quiet(),
                    )
                } else {
                    (self, quiet())
                },
                TimerKind::Backoff => if self.state != ProcessState::BACKOFF {
                    (self, quiet())
                } else if self.retry_count < program.startretries {
                    self.launched(program, self.retry_count, now)
                } else {
                    (self.rested(ProcessState::FATAL), quiet())
                },
                TimerKind::StopGrace => if self.state == ProcessState::STOPPING && self.pid is Some {
                    (
                        Core { epoch: fresh, armed: Some(TimerKind::KillMargin), ..self },
                        Directive {
                            signal: Some(Signal { pid: self.pid.unwrap(), signal: 9 }),
                            timer: Some(
                                Timer {
                                    kind: TimerKind::KillMargin,
                                    secs: KILL_MARGIN_SECS,
                                    epoch: fresh,
                                },
                            ),
                            ..quiet()
                        },
                    )
                } else {
                    (self, quiet())
                },
                TimerKind::KillMargin => if self.state == ProcessState::STOPPING {
                    (
                        self.doubted(),
                        Directive { probe: true, report: Some(Report::Stuck), ..quiet() },
                    )
                } else {
                    (self, quiet())
                },
            }
        }
    }

    /// Enters `UNKNOWN`: timers are cancelled and no start is owed.
    pub open spec fn doubted(self) -> Core {
        Core {
            state: ProcessState::UNKNOWN,
            epoch: next_epoch(self.epoch),
            armed: None,
            restart_pending: false,
            probes: 0,
            ..self
        }
    }

    /// The monitor lost track. Where a process exists or a spawn is under
    /// way the instance is in doubt and a probe is asked for; an instance
    /// without either has nothing to lose track of.
    pub open spec fn on_lost(self) -> (Core, Directive) {
        if self.state == ProcessState::STARTING || self.state == ProcessState::RUNNING
            || self.state == ProcessState::STOPPING {
            (self.doubted(), Directive { probe: true, ..quiet() })
        } else {
            (self, quiet())
        }
    }

    /// A probe answered. A live process makes the instance `RUNNING`; a dead
    /// one resolves the doubt the other way. Without an answer the probe is
    /// repeated, until the instance is given up as `FATAL` and reported.
    /// Outside `UNKNOWN` the answer is stale.
    pub open spec fn on_probed(self, probe: Probe) -> (Core, Directive) {
        if self.state != ProcessState::UNKNOWN {
            (self, quiet())
        } else {
            match probe {
                Probe::Alive => if self.pid is Some {
                    (
                        Core {
                            state: ProcessState::RUNNING,
                            retry_count: 0,
                            stop_requested: false,
                            probes: 0,
                            ..self
                        },
                        quiet(),
                    )
                } else {
                    (self.gone(), quiet())
                },
                Probe::Dead => (self.gone(), quiet()),
                Probe::Undetermined => if self.probes + 1 >= MAX_PROBES {
                    (
                        self.rested(ProcessState::FATAL),
                        Directive { report: Some(Report::Unresolved), ..quiet() },
                    )
                } else {
                    (
                        Core { probes: (self.probes + 1) as u8, ..self },
                        Directive { probe: true, ..quiet() },
                    )
                },
            }
        }
    }

    /// The bookkeeping after `event`, and what the driver has to do.
    /// `program` is the policy of the program as it is now, which governs a
    /// new spawn; `expected` says whether the event is an exit with an
    /// expected code; `now` is the time of the event.
    pub open spec fn next(self, program: Policy, event: Event, expected: bool, now: u64) -> (
        Core,
        Directive,
    ) {
        match event {
            Event::Start => self.on_start(program, true, now),
            Event::AutoStart => self.on_start(program, false, now),
            Event::Stop => self.on_stop(),
            Event::Restart => self.on_restart(program, now),
            Event::Spawned(pid) => self.on_spawned(pid),
            Event::SpawnFailed => self.on_spawn_failed(program, now),
            Event::Exited(status) => self.on_exited(program, status, expected, now),
            Event::Timer(kind, epoch) => self.on_timer(program, kind, epoch, now),
            Event::Lost => self.on_lost(),
            Event::Probed(probe) => self.on_probed(probe),
        }
    }
}

/// A step keeps the invariant of the bookkeeping.
pub proof fn lemma_next_keeps_wf(
    core: Core,
    program: Policy,
    event: Event,
    expected: bool,
    now: u64,
)
    requires
        core.wf(),
    ensures
        core.next(program, event, expected, now).0.wf(),
{
}

/// The directive that asks for nothing.
pub fn no_directive() -> (d: Directive)
    ensures
        d == quiet(),
{
    Directive { spawn: false, signal: None, timer: None, probe: false, report: None }
}

/// The epoch after `epoch`; it wraps around.
pub fn epoch_after(epoch: u64) -> (r: u64)
    ensures
        r == next_epoch(epoch),
{
    if epoch == u64::MAX {
        0
    } else {
        epoch + 1
    }
}

/// The policy that `program` sets.
pub fn policy_from(program: &Program) -> (r: Policy)
    ensures
        r == policy_of(program@),
{
    Policy {
        autorestart: program.autorestart(),
        startsecs: program.startsecs(),
        startretries: program.startretries(),
        stopsignal: program.stopsignal(),
        stopwaitsecs: program.stopwaitsecs(),
    }
}

impl Core {
    /// The instance as it is created.
    pub fn fresh(policy: Policy) -> (r: Core)
        ensures
            r == Core::initial(policy),
            r.wf(),
    {
        Core {
            state: ProcessState::STOPPED,
            pid: None,
            started_at: 0,
            retry_count: 0,
            last_exit: None,
            epoch: 0,
            armed: None,
            stop_requested: false,
            restart_pending: false,
            probes: 0,
            policy,
        }
    }

    /// Whether the instance is at rest.
    pub fn is_idle(self) -> (r: bool)
        ensures
            r == self.idle(),
    {
        match self.state {
            ProcessState::STOPPED | ProcessState::EXITED | ProcessState::FATAL => true,
            _ => false,
        }
    }

    fn launch(self, policy: Policy, retry: u8, now: u64) -> (r: (Core, Directive))
        ensures
            r == self.launched(policy, retry, now),
    {
        (
            Core {
                state: ProcessState::STARTING,
                pid: None,
                started_at: now,
                retry_count: retry,
                last_exit: self.last_exit,
                epoch: epoch_after(self.epoch),
                armed: None,
                stop_requested: false,
                restart_pending: false,
                probes: 0,
                policy,
            },
            Directive { spawn: true, signal: None, timer: None, probe: false, report: None },
        )
    }

    fn rest(self, state: ProcessState) -> (r: Core)
        ensures
            r == self.rested(state),
    {
        Core {
            state,
            pid: None,
            epoch: epoch_after(self.epoch),
            armed: None,
            stop_requested: false,
            restart_pending: false,
            probes: 0,
            ..self
        }
    }

    fn send_stop(self, pid: u32) -> (r: (Core, Directive))
        ensures
            r == self.stop_sent(pid),
    {
        let epoch = epoch_after(self.epoch);
        (
            Core {
                state: ProcessState::STOPPING,
                pid: Some(pid),
                epoch,
                armed: Some(TimerKind::StopGrace),
                stop_requested: true,
                probes: 0,
                ..self
            },
            Directive {
                spawn: false,
                signal: Some(Signal { pid, signal: self.policy.stopsignal }),
                timer: Some(
                    Timer { kind: TimerKind::StopGrace, secs: self.policy.stopwaitsecs, epoch },
                ),
                probe: false,
                report: None,
            },
        )
    }

    fn halt(self) -> (r: (Core, Directive))
        ensures
            r == self.halted(),
    {
        match self.state {
            ProcessState::STOPPED | ProcessState::EXITED | ProcessState::FATAL
            | ProcessState::STOPPING => (self, no_directive()),
            ProcessState::BACKOFF => (self.rest(ProcessState::STOPPED), no_directive()),
            ProcessState::STARTING | ProcessState::RUNNING | ProcessState::UNKNOWN => match self.pid {
                Some(pid) => self.send_stop(pid),
                None => {
                    if self.state == ProcessState::STARTING {
                        (
                            Core {
                                state: ProcessState::STOPPING,
                                epoch: epoch_after(self.epoch),
                                armed: None,
                                stop_requested: true,
                                ..self
                            },
                            no_directive(),
                        )
                    } else {
                        (self.rest(ProcessState::STOPPED), no_directive())
                    }
                },
            },
        }
    }

    fn fail_start(self) -> (r: (Core, Directive))
        ensures
            r == self.start_failed(),
    {
        let epoch = epoch_after(self.epoch);
        let failures: u8 = if self.retry_count == u8::MAX {
            u8::MAX
        } else {
            self.retry_count + 1
        };
        proof {
            lemma_backoff_bounds(failures as nat);
        }
        (
            Core {
                state: ProcessState::BACKOFF,
                pid: None,
                retry_count: failures,
                epoch,
                armed: Some(TimerKind::Backoff),
                ..self
            },
            Directive {
                spawn: false,
                signal: None,
                timer: Some(Timer { kind: TimerKind::Backoff, secs: delay_secs(failures), epoch }),
                probe: false,
                report: None,
            },
        )
    }

    fn finish_stop(self, program: Policy, now: u64) -> (r: (Core, Directive))
        ensures
            r == self.stopped(program, now),
    {
        if self.restart_pending {
            self.rest(ProcessState::STOPPED).launch(program, 0, now)
        } else {
            (self.rest(ProcessState::STOPPED), no_directive())
        }
    }

    fn resolve_gone(self) -> (r: Core)
        ensures
            r == self.gone(),
    {
        if self.stop_requested || self.pid.is_none() {
            self.rest(ProcessState::STOPPED)
        } else {
            self.rest(ProcessState::EXITED)
        }
    }

    fn doubt(self) -> (r: Core)
        ensures
            r == self.doubted(),
    {
        Core {
            state: ProcessState::UNKNOWN,
            epoch: epoch_after(self.epoch),
            armed: None,
            restart_pending: false,
            probes: 0,
            ..self
        }
    }

    fn handle_timer(self, program: Policy, kind: TimerKind, epoch: u64, now: u64) -> (r: (
        Core,
        Directive,
    ))
        ensures
            r == self.on_timer(program, kind, epoch, now),
    {
        let due = match self.armed {
            Some(armed) => armed == kind,
            None => false,
        };
        if !due || self.epoch != epoch {
            return (self, no_directive());
        }
        let fresh = epoch_after(self.epoch);
        match kind {
            TimerKind::StartConfirm => {
                if self.state == ProcessState::STARTING {
                    (
                        Core {
                            state: ProcessState::RUNNING,
                            retry_count: 0,
                            epoch: fresh,
                            armed: None,
                            ..self
                        },
                        no_directive(),
                    )
                } else {
                    (self, no_directive())
                }
            },
            TimerKind::Backoff => {
                if self.state != ProcessState::BACKOFF {
                    (self, no_directive())
                } else if self.retry_count < program.startretries {
                    self.launch(program, self.retry_count, now)
                } else {
                    (self.rest(ProcessState::FATAL), no_directive())
                }
            },
            TimerKind::StopGrace => {
                match self.pid {
                    Some(pid) => {
                        if self.state == ProcessState::STOPPING {
                            (
                                Core { epoch: fresh, armed: Some(TimerKind::KillMargin), ..self },
                                Directive {
                                    spawn: false,
                                    signal: Some(Signal { pid, signal: sigkill() }),
                                    timer: Some(
                                        Timer {
                                            kind: TimerKind::KillMargin,
                                            secs: KILL_MARGIN_SECS,
                                            epoch: fresh,
                                        },
                                    ),
                                    probe: false,
                                    report: None,
                                },
                            )
                        } else {
                            (self, no_directive())
                        }
                    },
                    None => (self, no_directive()),
                }
            },
            TimerKind::KillMargin => {
                if self.state == ProcessState::STOPPING {
                    (
                        self.doubt(),
                        Directive {
                            spawn: false,
                            signal: None,
                            timer: None,
                            probe: true,
                            report: Some(Report::Stuck),
                        },
                    )
                } else {
                    (self, no_directive())
                }
            },
        }
    }

    fn handle_exit(self, program: Policy, status: ExitStatus, expected: bool, now: u64) -> (r: (
        Core,
        Directive,
    ))
        ensures
            r == self.on_exited(program, status, expected, now),
    {
        if self.pid.is_none() {
            return (self, no_directive());
        }
        let seen = Core { last_exit: Some(status), ..self };
        match self.state {
            ProcessState::STARTING => seen.fail_start(),
            ProcessState::RUNNING => {
                let again = match self.policy.autorestart {
                    AutoRestart::True => true,
                    AutoRestart::False => false,
                    AutoRestart::Unexpected => !expected,
                };
                if again {
                    seen.launch(program, seen.retry_count, now)
                } else {
                    (seen.rest(ProcessState::EXITED), no_directive())
                }
            },
            ProcessState::STOPPING => seen.finish_stop(program, now),
            ProcessState::UNKNOWN => (seen.resolve_gone(), no_directive()),
            _ => (self, no_directive()),
        }
    }

    fn handle_probe(self, probe: Probe) -> (r: (Core, Directive))
        requires
            self.probes < u8::MAX,
        ensures
            r == self.on_probed(probe),
    {
        if self.state != ProcessState::UNKNOWN {
            return (self, no_directive());
        }
        match probe {
            Probe::Alive => {
                if self.pid.is_some() {
                    (
                        Core {
                            state: ProcessState::RUNNING,
                            retry_count: 0,
                            stop_requested: false,
                            probes: 0,
                            ..self
                        },
                        no_directive(),
                    )
                } else {
                    (self.resolve_gone(), no_directive())
                }
            },
            Probe::Dead => (self.resolve_gone(), no_directive()),
            Probe::Undetermined => {
                if self.probes + 1 >= MAX_PROBES {
                    (
                        self.rest(ProcessState::FATAL),
                        Directive {
                            spawn: false,
                            signal: None,
                            timer: None,
                            probe: false,
                            report: Some(Report::Unresolved),
                        },
                    )
                } else {
                    (
                        Core { probes: self.probes + 1, ..self },
                        Directive {
                            spawn: false,
                            signal: None,
                            timer: None,
                            probe: true,
                            report: None,
                        },
                    )
                }
            },
        }
    }

    /// Takes one step of the lifecycle.
    pub fn step(self, program: Policy, event: Event, expected: bool, now: u64) -> (r: (
        Core,
        Directive,
    ))
        requires
            self.wf(),
        ensures
            r == self.next(program, event, expected, now),
            r.0.wf(),
    {
        proof {
            lemma_next_keeps_wf(self, program, event, expected, now);
        }
        match event {
            Event::Start => {
                if self.is_idle() || self.state == ProcessState::BACKOFF {
                    self.launch(program, 0, now)
                } else {
                    (self, no_directive())
                }
            },
            Event::AutoStart => {
                if self.state == ProcessState::STOPPED {
                    self.launch(program, self.retry_count, now)
                } else {
                    (self, no_directive())
                }
            },
            Event::Stop => {
                let (core, directive) = self.halt();
                (Core { restart_pending: false, ..core }, directive)
            },
            Event::Restart => {
                let (core, directive) = self.halt();
                if core.is_idle() {
                    core.launch(program, 0, now)
                } else {
                    (Core { restart_pending: true, ..core }, directive)
                }
            },
            Event::Spawned(pid) => {
                if self.pid.is_none() && self.state == ProcessState::STARTING {
                    let epoch = epoch_after(self.epoch);
                    (
                        Core { pid: Some(pid), epoch, armed: Some(TimerKind::StartConfirm), ..self },
                        Directive {
                            spawn: false,
                            signal: None,
                            timer: Some(
                                Timer {
                                    kind: TimerKind::StartConfirm,
                                    secs: self.policy.startsecs as u32,
                                    epoch,
                                },
                            ),
                            probe: false,
                            report: None,
                        },
                    )
                } else if self.pid.is_none() && self.state == ProcessState::STOPPING {
                    self.send_stop(pid)
                } else {
                    (
                        self,
                        Directive {
                            spawn: false,
                            signal: Some(Signal { pid, signal: sigkill() }),
                            timer: None,
                            probe: false,
                            report: None,
                        },
                    )
                }
            },
            Event::SpawnFailed => {
                if self.pid.is_none() && self.state == ProcessState::STARTING {
                    self.fail_start()
                } else if self.pid.is_none() && self.state == ProcessState::STOPPING {
                    self.finish_stop(program, now)
                } else {
                    (self, no_directive())
                }
            },
            Event::Exited(status) => self.handle_exit(program, status, expected, now),
            Event::Timer(kind, epoch) => self.handle_timer(program, kind, epoch, now),
            Event::Lost => {
                if self.state == ProcessState::STARTING || self.state == ProcessState::RUNNING
                    || self.state == ProcessState::STOPPING {
                    (
                        self.doubt(),
                        Directive {
                            spawn: false,
                            signal: None,
                            timer: None,
                            probe: true,
                            report: None,
                        },
                    )
                } else {
                    (self, no_directive())
                }
            },
            Event::Probed(probe) => self.handle_probe(probe),
        }
    }
}

/// The mathematical content of a [`Process`].
pub struct ProcessView {
    /// The name of the instance: that of its program, `#`, and its index.
    pub name: Seq<char>,
    /// The index of the instance among the replicas of its program.
    pub index: u8,
    /// The bookkeeping.
    pub core: Core,
    /// The exit codes that counted as expected when the process was last
    /// spawned.
    pub exitcodes: Seq<i32>,
}

impl ProcessView {
    /// The invariant of an instance.
    pub open spec fn wf(self) -> bool {
        self.core.wf()
    }

    /// Whether `event` is an exit with a code that counts as expected. An
    /// end by a signal never does.
    pub open spec fn expects(self, event: Event) -> bool {
        match event {
            Event::Exited(ExitStatus::Code(code)) => self.exitcodes.contains(code),
            _ => false,
        }
    }

    /// The instance after `event`, and what the driver has to do. A step
    /// that asks for a spawn takes over the expected exit codes of the
    /// program as it is now.
    pub open spec fn next(self, program: ProgramView, event: Event, now: u64) -> (
        ProcessView,
        Directive,
    ) {
        let (core, directive) = self.core.next(
            policy_of(program),
            event,
            self.expects(event),
            now,
        );
        (
            ProcessView {
                core,
                exitcodes: if directive.spawn {
                    program.exitcodes
                } else {
                    self.exitcodes
                },
                ..self
            },
            directive,
        )
    }
}

/// What is reported of an instance: one consistent point of its life.
#[derive(Debug)]
pub struct Status {
    pub name: String,
    pub state: ProcessState,
    pub pid: Option<u32>,
    pub last_exit: Option<ExitStatus>,
}

/// The mathematical content of a [`Status`].
pub struct StatusView {
    pub name: Seq<char>,
    pub state: ProcessState,
    pub pid: Option<u32>,
    pub last_exit: Option<ExitStatus>,
}

impl View for Status {
    type V = StatusView;

    open spec fn view(&self) -> StatusView {
        StatusView {
            name: self.name@,
            state: self.state,
            pid: self.pid,
            last_exit: self.last_exit,
        }
    }
}

/// What is reported of the instance `p`.
pub open spec fn status_of(p: ProcessView) -> StatusView {
    StatusView { name: p.name, state: p.core.state, pid: p.core.pid, last_exit: p.core.last_exit }
}

/// One supervised process: a replica of a program.
#[derive(Debug)]
pub struct Process {
    name: String,
    index: u8,
    core: Core,
    exitcodes: Vec<i32>,
}

impl View for Process {
    type V = ProcessView;

    closed spec fn view(&self) -> ProcessView {
        ProcessView {
            name: self.name@,
            index: self.index,
            core: self.core,
            exitcodes: self.exitcodes@,
        }
    }
}

/// Copies a list of exit codes.
pub fn copy_codes(codes: &Vec<i32>) -> (r: Vec<i32>)
    ensures
        r@ == codes@,
{
    let mut r: Vec<i32> = Vec::new();
    let mut i: usize = 0;
    while i < codes.len()
        invariant
            i <= codes@.len(),
            r@ == codes@.take(i as int),
        decreases codes@.len() - i,
    {
        r.push(codes[i]);
        i += 1;
        assert(codes@.take(i as int) == codes@.take(i - 1).push(codes@[i - 1]));
    }
    assert(codes@.take(i as int) == codes@);
    r
}

impl Process {
    /// The invariant of an instance.
    pub open spec fn wf(&self) -> bool {
        self@.wf()
    }

    /// The replica `index` of `program`, stopped.
    pub fn new(program: &Program, index: u8) -> (r: Self)
        ensures
            r.wf(),
            r@ == (ProcessView {
                name: crate::config::program::instance_name(program@.programname, index as nat),
                index,
                core: Core::initial(policy_of(program@)),
                exitcodes: program@.exitcodes,
            }),
    {
        Process {
            name: crate::config::program::make_instance_name(program.programname().as_str(), index),
            index,
            core: Core::fresh(policy_from(program)),
            exitcodes: copy_codes(program.exitcodes()),
        }
    }

    /// Whether `event` is an exit with a code that counts as expected.
    pub fn expects(&self, event: Event) -> (r: bool)
        ensures
            r == self@.expects(event),
    {
        match event {
            Event::Exited(ExitStatus::Code(code)) => {
                let mut i: usize = 0;
                while i < self.exitcodes.len()
                    invariant
                        i <= self.exitcodes@.len(),
                        event == Event::Exited(ExitStatus::Code(code)),
                        forall|k: int| 0 <= k < i ==> self.exitcodes@[k] != code,
                    decreases self.exitcodes@.len() - i,
                {
                    if self.exitcodes[i] == code {
                        assert(self@.exitcodes[i as int] == code);
                        return true;
                    }
                    i += 1;
                }
                false
            },
            _ => false,
        }
    }

    /// Takes one step of the lifecycle: the instance moves as `event` asks,
    /// and the answer says what the driver has to do. `program` is the
    /// description of the program as it is now; `now` is the time of the
    /// event, in seconds.
    pub fn step(&mut self, program: &Program, event: Event, now: u64) -> (d: Directive)
        requires
            old(self).wf(),
        ensures
            final(self).wf(),
            (final(self)@, d) == old(self)@.next(program@, event, now),
    {
        let expected = self.expects(event);
        let (core, directive) = self.core.step(policy_from(program), event, expected, now);
        self.core = core;
        if directive.spawn {
            self.exitcodes = copy_codes(program.exitcodes());
        }
        directive
    }

    /// The name of the instance.
    pub fn name(&self) -> (r: &String)
        ensures
            r@ == self@.name,
    {
        &self.name
    }

    /// The index of the instance among the replicas of its program.
    pub fn index(&self) -> (r: u8)
        ensures
            r == self@.index,
    {
        self.index
    }

    /// The bookkeeping of the instance.
    pub fn bookkeeping(&self) -> (r: Core)
        ensures
            r == self@.core,
    {
        self.core
    }

    /// The lifecycle state.
    pub fn state(&self) -> (r: ProcessState)
        ensures
            r == self@.core.state,
    {
        self.core.state
    }

    /// The process, while there is one.
    pub fn pid(&self) -> (r: Option<u32>)
        ensures
            r == self@.core.pid,
    {
        self.core.pid
    }

    /// The failed starts in a row since the instance last ran.
    pub fn retry_count(&self) -> (r: u8)
        ensures
            r == self@.core.retry_count,
    {
        self.core.retry_count
    }

    /// How the last process ended.
    pub fn last_exit_status(&self) -> (r: Option<ExitStatus>)
        ensures
            r == self@.core.last_exit,
    {
        self.core.last_exit
    }

    /// When the last spawn was asked for.
    pub fn started_at(&self) -> (r: u64)
        ensures
            r == self@.core.started_at,
    {
        self.core.started_at
    }

    /// What is reported of the instance.
    pub fn status(&self) -> (r: Status)
        ensures
            r@ == status_of(self@),
    {
        Status {
            name: self.name.clone(),
            state: self.core.state,
            pid: self.core.pid,
            last_exit: self.core.last_exit,
        }
    }
}

} // verus!
